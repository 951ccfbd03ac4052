//! Building a snapshot from what was read of a session directory.
//!
//! The caller reads and parses the files; the functions here decide what the
//! snapshot holds and when loading fails.

use vstd::prelude::*;
use vstd::utf8::encode_utf8;
use crate::cache::TextCache;
use crate::layout::NOTE_EXTENSION;
use crate::path::{FilePath, PathView, file_name_text_of, has_extension, join_paths, text_path};
use crate::snapshot::{
    CodeContext, ContextSnapshot, Limits, SnapshotView, SnippetView, lemma_references_step,
    references_uri, snippet_views, well_formed,
};
use crate::uri::{local_path, local_path_of};

verus! {

/// What came of reading a file and parsing it into a `T`.
#[derive(Debug)]
pub enum Fetched<T> {
    /// There is no such file.
    Missing,
    /// The file is there and could not be read.
    Unreadable,
    /// The file was read and does not hold what it should.
    Malformed,
    /// The file's content.
    Found(T),
}

/// What came of reading a text file.
#[derive(Debug)]
pub enum FileState {
    /// There is no such file.
    Missing,
    /// The file is there and could not be read.
    Unreadable,
    /// The file's whole text.
    Text(String),
}

/// A file as it was found on disk.
#[derive(Debug)]
pub struct FileRead {
    pub path: FilePath,
    pub state: FileState,
}

/// The mathematical value of a [`FileState`].
pub enum StateView {
    Missing,
    Unreadable,
    Text(Seq<char>),
}

/// The mathematical value of a [`FileRead`].
pub struct ReadView {
    pub path: PathView,
    pub state: StateView,
}

impl View for FileState {
    type V = StateView;

    open spec fn view(&self) -> StateView {
        match self {
            FileState::Missing => StateView::Missing,
            FileState::Unreadable => StateView::Unreadable,
            FileState::Text(t) => StateView::Text(t@),
        }
    }
}

impl View for FileRead {
    type V = ReadView;

    open spec fn view(&self) -> ReadView {
        ReadView { path: self.path@, state: self.state@ }
    }
}

/// The values of a sequence of reads.
pub open spec fn read_views(v: Seq<FileRead>) -> Seq<ReadView> {
    Seq::new(v.len(), |i: int| v[i]@)
}

/// The content of the session pointer.
#[derive(Debug)]
pub struct ActiveRecord {
    pub schema: u32,
    pub id: String,
    pub path: String,
}

/// The content of a session's metadata file.
#[derive(Debug)]
pub struct SessionRecord {
    pub schema: u32,
    pub id: String,
    pub name: String,
    pub version: u64,
    pub limits: Limits,
    pub updated_at: String,
}

/// Why the active session could not be resolved.
#[derive(Clone, Copy, Debug, PartialEq, Eq, Structural)]
pub enum ActiveSessionError {
    /// The session pointer is absent or could not be read.
    Unreadable,
    /// The session pointer does not hold a pointer.
    Malformed,
}

/// Why a session could not be loaded.
#[derive(Clone, Copy, Debug, PartialEq, Eq, Structural)]
pub enum SessionReadError {
    /// The metadata file is absent or could not be read.
    MetadataUnreadable,
    /// The metadata file does not hold valid metadata.
    MetadataMalformed,
    /// The snippet list is there and could not be read.
    SnippetsUnreadable,
    /// The snippet list does not hold a list of snippets.
    SnippetsMalformed,
}

impl ActiveSessionError {
    /// The error in words.
    pub fn message(&self) -> (r: &'static str)
        ensures
            r@ == match self {
                ActiveSessionError::Unreadable => "Failed to read active.json"@,
                ActiveSessionError::Malformed => "Failed to parse active.json"@,
            },
    {
        match self {
            ActiveSessionError::Unreadable => "Failed to read active.json",
            ActiveSessionError::Malformed => "Failed to parse active.json",
        }
    }
}

impl SessionReadError {
    /// The error in words.
    pub fn message(&self) -> (r: &'static str)
        ensures
            r@ == match self {
                SessionReadError::MetadataUnreadable => "Failed to read session.json"@,
                SessionReadError::MetadataMalformed => "Failed to parse session.json"@,
                SessionReadError::SnippetsUnreadable => "Failed to read code_snippets.json"@,
                SessionReadError::SnippetsMalformed => "Failed to parse code_snippets.json"@,
            },
    {
        match self {
            SessionReadError::MetadataUnreadable => "Failed to read session.json",
            SessionReadError::MetadataMalformed => "Failed to parse session.json",
            SessionReadError::SnippetsUnreadable => "Failed to read code_snippets.json",
            SessionReadError::SnippetsMalformed => "Failed to parse code_snippets.json",
        }
    }
}

/// The directory of the active session, given the workspace root and what
/// the session pointer holds.
pub open spec fn active_session_dir(root: PathView, pointer: Fetched<ActiveRecord>) -> Result<
    PathView,
    ActiveSessionError,
> {
    match pointer {
        Fetched::Found(record) => Ok(join_paths(root, text_path(record.path@))),
        Fetched::Malformed => Err(ActiveSessionError::Malformed),
        _ => Err(ActiveSessionError::Unreadable),
    }
}

/// Resolves the directory of the active session: the pointer names it
/// relative to the workspace root.
pub fn resolve_active_session(root: &FilePath, pointer: &Fetched<ActiveRecord>) -> (r: Result<
    FilePath,
    ActiveSessionError,
>)
    ensures
        match r {
            Ok(dir) => active_session_dir(root@, *pointer) == Ok::<PathView, ActiveSessionError>(
                dir@,
            ),
            Err(e) => active_session_dir(root@, *pointer) == Err::<PathView, ActiveSessionError>(e),
        },
{
    match pointer {
        Fetched::Found(record) => Ok(root.child(record.path.as_str())),
        Fetched::Malformed => Err(ActiveSessionError::Malformed),
        _ => Err(ActiveSessionError::Unreadable),
    }
}

/// Whether `reads[i]` is the first read of the file at `path`.
pub open spec fn is_first_read(reads: Seq<ReadView>, path: PathView, i: int) -> bool {
    &&& 0 <= i < reads.len()
    &&& reads[i].path == path
    &&& forall|j: int| 0 <= j < i ==> reads[j].path != path
}

/// The text that `reads` hold for the file at `path`: that of the first read
/// of this path, if it gave text.
pub open spec fn text_at(reads: Seq<ReadView>, path: PathView) -> Option<Seq<char>> {
    if exists|i: int| is_first_read(reads, path, i) {
        match reads[choose|i: int| is_first_read(reads, path, i)].state {
            StateView::Text(t) => Some(t),
            _ => None,
        }
    } else {
        None
    }
}

/// The text that `reads` hold for the file that `uri` names.
pub open spec fn source_text(uri: Seq<char>, reads: Seq<ReadView>) -> Option<Seq<char>> {
    match local_path_of(uri) {
        Some(path) => text_at(reads, path),
        None => None,
    }
}

/// The file cache for a snippet list: one entry for each distinct URI that
/// names a local file whose text was read.
pub open spec fn file_cache_from(snippets: Seq<SnippetView>, reads: Seq<ReadView>) -> Map<
    Seq<char>,
    Seq<char>,
> {
    Map::new(
        |uri: Seq<char>| references_uri(snippets, uri) && source_text(uri, reads) is Some,
        |uri: Seq<char>| source_text(uri, reads)->0,
    )
}

/// The note that a read stands for: its file name and text, when the file
/// has the note extension, its name is valid UTF-8 and it was read.
pub open spec fn note_of(read: ReadView) -> Option<(Seq<char>, Seq<char>)> {
    match (file_name_text_of(read.path), read.state) {
        (Some(name), StateView::Text(text)) => if has_extension(
            read.path,
            encode_utf8(NOTE_EXTENSION@),
        ) {
            Some((name, text))
        } else {
            None
        },
        _ => None,
    }
}

/// The markdown cache for the entries of a notes directory: each note under
/// its file name; of two notes with one name the later stands.
pub open spec fn notes_cache(notes: Seq<ReadView>) -> Map<Seq<char>, Seq<char>>
    decreases notes.len(),
{
    if notes.len() == 0 {
        Map::empty()
    } else {
        let before = notes_cache(notes.drop_last());
        match note_of(notes.last()) {
            Some((name, text)) => before.insert(name, text),
            None => before,
        }
    }
}

/// The snippet list that a read of the list file stands for: an absent file
/// is an empty list.
pub open spec fn snippet_list(snippets: Fetched<Vec<CodeContext>>) -> Result<
    Seq<SnippetView>,
    SessionReadError,
> {
    match snippets {
        Fetched::Missing => Ok(Seq::empty()),
        Fetched::Unreadable => Err(SessionReadError::SnippetsUnreadable),
        Fetched::Malformed => Err(SessionReadError::SnippetsMalformed),
        Fetched::Found(list) => Ok(snippet_views(list@)),
    }
}

/// What loading a session gives. It fails when the metadata is absent,
/// unreadable or malformed (a token limit of zero is malformed), and when the
/// snippet list is there but unreadable or malformed. Notes and source files
/// that could not be read are left out.
pub open spec fn load_result(
    session_dir: PathView,
    metadata: Fetched<SessionRecord>,
    snippets: Fetched<Vec<CodeContext>>,
    notes: Seq<ReadView>,
    sources: Seq<ReadView>,
) -> Result<SnapshotView, SessionReadError> {
    match metadata {
        Fetched::Found(record) => if record.limits.max_tokens < 1 {
            Err(SessionReadError::MetadataMalformed)
        } else {
            match snippet_list(snippets) {
                Ok(list) => Ok(
                    SnapshotView {
                        session_id: record.id@,
                        version: record.version,
                        max_tokens: record.limits.max_tokens,
                        session_dir,
                        snippets: list,
                        markdown_cache: notes_cache(notes),
                        file_cache: file_cache_from(list, sources),
                    },
                ),
                Err(e) => Err(e),
            }
        },
        Fetched::Malformed => Err(SessionReadError::MetadataMalformed),
        _ => Err(SessionReadError::MetadataUnreadable),
    }
}

/// Everything that was read of a session directory.
#[derive(Debug)]
pub struct SessionFiles {
    /// The metadata file.
    pub metadata: Fetched<SessionRecord>,
    /// The snippet list.
    pub snippets: Fetched<Vec<CodeContext>>,
    /// The entries of the notes directory.
    pub notes: Vec<FileRead>,
    /// The source files that the snippets refer to.
    pub sources: Vec<FileRead>,
}

/// The text that `reads` hold for the file at `path`.
pub fn find_text<'a>(reads: &'a Vec<FileRead>, path: &FilePath) -> (r: Option<&'a String>)
    ensures
        match r {
            Some(t) => text_at(read_views(reads@), path@) == Some(t@),
            None => text_at(read_views(reads@), path@) is None,
        },
{
    let ghost views = read_views(reads@);
    let mut i: usize = 0;
    while i < reads.len()
        invariant
            i <= reads.len(),
            views == read_views(reads@),
            forall|j: int| 0 <= j < i ==> views[j].path != path@,
        decreases reads.len() - i,
    {
        if reads[i].path.same(path) {
            proof {
                assert(views[i as int] == reads@[i as int]@);
                assert(is_first_read(views, path@, i as int));
                let c = choose|k: int| is_first_read(views, path@, k);
                assert(c == i);
            }
            return match &reads[i].state {
                FileState::Text(t) => Some(t),
                _ => None,
            };
        }
        assert(views[i as int] == reads@[i as int]@);
        i = i + 1;
    }
    assert(!exists|k: int| is_first_read(views, path@, k));
    None
}

/// The markdown cache for the entries of a notes directory.
pub fn build_notes_cache(notes: &Vec<FileRead>) -> (r: TextCache)
    ensures
        r@ == notes_cache(read_views(notes@)),
{
    let ghost views = read_views(notes@);
    let mut cache = TextCache::new();
    let mut i: usize = 0;
    while i < notes.len()
        invariant
            i <= notes.len(),
            views == read_views(notes@),
            cache@ == notes_cache(views.take(i as int)),
        decreases notes.len() - i,
    {
        proof {
            assert(views.take(i + 1).drop_last() =~= views.take(i as int));
            assert(views.take(i + 1).last() == notes@[i as int]@);
        }
        let read = &notes[i];
        if read.path.has_extension(NOTE_EXTENSION) {
            match (read.path.file_name_text(), &read.state) {
                (Some(name), FileState::Text(text)) => {
                    cache = cache.insert(name, text.clone());
                },
                _ => {},
            }
        }
        i = i + 1;
    }
    assert(views.take(notes.len() as int) =~= views);
    cache
}

/// The file cache for a snippet list.
pub fn build_file_cache(snippets: &Vec<CodeContext>, sources: &Vec<FileRead>) -> (r: TextCache)
    ensures
        r@ == file_cache_from(snippet_views(snippets@), read_views(sources@)),
{
    let ghost list = snippet_views(snippets@);
    let ghost reads = read_views(sources@);
    let mut cache = TextCache::new();
    let mut i: usize = 0;
    assert(cache@ =~= file_cache_from(list.take(0), reads));
    while i < snippets.len()
        invariant
            i <= snippets.len(),
            list == snippet_views(snippets@),
            reads == read_views(sources@),
            cache@ == file_cache_from(list.take(i as int), reads),
        decreases snippets.len() - i,
    {
        let uri = &snippets[i].uri;
        let ghost before = cache@;
        proof {
            assert(list[i as int].uri == uri@);
            lemma_references_step(list, i as int);
        }
        if !cache.contains_key(uri.as_str()) {
            match local_path(uri.as_str()) {
                Some(path) => match find_text(sources, &path) {
                    Some(text) => {
                        cache = cache.insert(uri.clone(), text.clone());
                    },
                    None => {},
                },
                None => {},
            }
        }
        assert(cache@ =~= file_cache_from(list.take(i + 1), reads));
        i = i + 1;
    }
    assert(list.take(snippets.len() as int) =~= list);
    cache
}

/// Builds the snapshot of the session in `session_dir` from what was read
/// of it.
pub fn load_snapshot(session_dir: &FilePath, files: SessionFiles) -> (r: Result<
    ContextSnapshot,
    SessionReadError,
>)
    ensures
        match r {
            Ok(snapshot) => load_result(
                session_dir@,
                files.metadata,
                files.snippets,
                read_views(files.notes@),
                read_views(files.sources@),
            ) == Ok::<SnapshotView, SessionReadError>(snapshot@) && well_formed(snapshot@),
            Err(e) => load_result(
                session_dir@,
                files.metadata,
                files.snippets,
                read_views(files.notes@),
                read_views(files.sources@),
            ) == Err::<SnapshotView, SessionReadError>(e),
        },
{
    let SessionFiles { metadata, snippets, notes, sources } = files;
    let record = match metadata {
        Fetched::Found(record) => record,
        Fetched::Malformed => { return Err(SessionReadError::MetadataMalformed); },
        _ => { return Err(SessionReadError::MetadataUnreadable); },
    };
    if record.limits.max_tokens < 1 {
        return Err(SessionReadError::MetadataMalformed);
    }
    let code_snippets = match snippets {
        Fetched::Missing => {
            let empty: Vec<CodeContext> = Vec::new();
            assert(snippet_views(empty@) =~= Seq::<SnippetView>::empty());
            empty
        },
        Fetched::Unreadable => { return Err(SessionReadError::SnippetsUnreadable); },
        Fetched::Malformed => { return Err(SessionReadError::SnippetsMalformed); },
        Fetched::Found(list) => list,
    };
    let markdown_cache = build_notes_cache(&notes);
    let file_cache = build_file_cache(&code_snippets, &sources);
    let snapshot = ContextSnapshot::assemble(
        record.id,
        record.version,
        record.limits,
        session_dir.clone(),
        code_snippets,
        markdown_cache,
        file_cache,
    );
    Ok(snapshot)
}

} // verus!
