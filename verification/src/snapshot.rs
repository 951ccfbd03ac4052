//! The context snapshot: one consistent view of a session, handed to readers
//! as a whole and never changed in place.

use vstd::prelude::*;
use crate::cache::TextCache;
use crate::path::{FilePath, PathView, parse_path};
use crate::uri::local_path_of;

verus! {

/// A reference to a range of lines in another file: `start_line` is the
/// first line (counted from zero), `end_line` the line after the last.
#[derive(Debug)]
pub struct CodeContext {
    pub uri: String,
    pub start_line: u32,
    pub end_line: u32,
    pub language_id: String,
    pub description: Option<String>,
}

/// The mathematical value of a [`CodeContext`].
pub struct SnippetView {
    pub uri: Seq<char>,
    pub start_line: u32,
    pub end_line: u32,
    pub language_id: Seq<char>,
    pub description: Option<Seq<char>>,
}

impl View for CodeContext {
    type V = SnippetView;

    open spec fn view(&self) -> SnippetView {
        SnippetView {
            uri: self.uri@,
            start_line: self.start_line,
            end_line: self.end_line,
            language_id: self.language_id@,
            description: match self.description {
                Some(d) => Some(d@),
                None => None,
            },
        }
    }
}

impl Clone for CodeContext {
    fn clone(&self) -> (r: Self)
        ensures
            r == *self,
    {
        CodeContext {
            uri: self.uri.clone(),
            start_line: self.start_line,
            end_line: self.end_line,
            language_id: self.language_id.clone(),
            description: match &self.description {
                Some(d) => Some(d.clone()),
                None => None,
            },
        }
    }
}

/// The values of a sequence of snippets.
pub open spec fn snippet_views(v: Seq<CodeContext>) -> Seq<SnippetView> {
    Seq::new(v.len(), |i: int| v[i]@)
}

/// Whether `uri` may have an entry in the file cache of a snapshot with the
/// snippets `snippets`: some snippet refers to it, and it names a local
/// file.
pub open spec fn cacheable(snippets: Seq<SnippetView>, uri: Seq<char>) -> bool {
    references_uri(snippets, uri) && local_path_of(uri) is Some
}

/// Whether some snippet of `snippets` refers to `uri`.
pub open spec fn references_uri(snippets: Seq<SnippetView>, uri: Seq<char>) -> bool {
    exists|i: int| 0 <= i < snippets.len() && #[trigger] snippets[i].uri == uri
}

/// The URIs that the first `i + 1` snippets refer to are those of the first
/// `i`, and that of snippet `i`.
pub proof fn lemma_references_step(list: Seq<SnippetView>, i: int)
    requires
        0 <= i < list.len(),
    ensures
        forall|uri: Seq<char>|
            references_uri(list.take(i + 1), uri) <==> (references_uri(list.take(i), uri) || uri
                == list[i].uri),
{
    assert forall|uri: Seq<char>|
        references_uri(list.take(i + 1), uri) <==> (references_uri(list.take(i), uri) || uri
            == list[i].uri) by {
        if references_uri(list.take(i + 1), uri) {
            let k = choose|k: int|
                0 <= k < list.take(i + 1).len() && #[trigger] list.take(i + 1)[k].uri == uri;
            if k < i {
                assert(list.take(i)[k].uri == uri);
            }
        }
        if references_uri(list.take(i), uri) {
            let k = choose|k: int| 0 <= k < list.take(i).len() && #[trigger] list.take(i)[k].uri == uri;
            assert(list.take(i + 1)[k].uri == uri);
        }
        if uri == list[i].uri {
            assert(list.take(i + 1)[i].uri == uri);
        }
    }
}

/// A copy of `snippets`.
pub fn clone_snippets(snippets: &Vec<CodeContext>) -> (r: Vec<CodeContext>)
    ensures
        r@ == snippets@,
{
    let mut out: Vec<CodeContext> = Vec::new();
    let mut i: usize = 0;
    while i < snippets.len()
        invariant
            i <= snippets.len(),
            out@ == snippets@.take(i as int),
        decreases snippets.len() - i,
    {
        out.push(snippets[i].clone());
        assert(out@ =~= snippets@.take(i + 1));
        i = i + 1;
    }
    assert(snippets@.take(snippets.len() as int) =~= snippets@);
    out
}

/// Per-session limits handed to the completion engine.
#[derive(Clone, Copy, Debug)]
pub struct Limits {
    pub max_tokens: usize,
}

impl Default for Limits {
    fn default() -> (r: Self)
        ensures
            r.max_tokens == 1600,
    {
        Limits { max_tokens: 1600 }
    }
}

/// The mathematical value of a [`ContextSnapshot`].
pub struct SnapshotView {
    pub session_id: Seq<char>,
    pub version: u64,
    pub max_tokens: usize,
    pub session_dir: PathView,
    pub snippets: Seq<SnippetView>,
    pub markdown_cache: Map<Seq<char>, Seq<char>>,
    pub file_cache: Map<Seq<char>, Seq<char>>,
}

/// What every published snapshot satisfies: the token limit is positive and
/// the file cache holds text only under URIs that some snippet refers to and
/// that name a local file.
pub open spec fn well_formed(s: SnapshotView) -> bool {
    &&& s.max_tokens >= 1
    &&& forall|uri: Seq<char>| #[trigger]
        s.file_cache.contains_key(uri) ==> cacheable(s.snippets, uri)
}

/// One consistent view of a session.
#[derive(Debug)]
pub struct ContextSnapshot {
    session_id: String,
    version: u64,
    limits: Limits,
    session_dir: FilePath,
    code_snippets: Vec<CodeContext>,
    markdown_cache: TextCache,
    file_cache: TextCache,
}

impl View for ContextSnapshot {
    type V = SnapshotView;

    closed spec fn view(&self) -> SnapshotView {
        SnapshotView {
            session_id: self.session_id@,
            version: self.version,
            max_tokens: self.limits.max_tokens,
            session_dir: self.session_dir@,
            snippets: snippet_views(self.code_snippets@),
            markdown_cache: self.markdown_cache@,
            file_cache: self.file_cache@,
        }
    }
}

impl Clone for ContextSnapshot {
    fn clone(&self) -> (r: Self)
        ensures
            r@ == self@,
    {
        proof {
            use_type_invariant(self);
        }
        ContextSnapshot {
            session_id: self.session_id.clone(),
            version: self.version,
            limits: self.limits,
            session_dir: self.session_dir.clone(),
            code_snippets: clone_snippets(&self.code_snippets),
            markdown_cache: self.markdown_cache.clone(),
            file_cache: self.file_cache.clone(),
        }
    }
}

impl Default for ContextSnapshot {
    /// The snapshot of a session that has nothing in it yet.
    fn default() -> (r: Self)
        ensures
            r@.session_id == "default"@,
            r@.version == 0,
            r@.max_tokens == 1600,
            r@.session_dir == parse_path(Seq::empty()),
            r@.snippets == Seq::<SnippetView>::empty(),
            r@.markdown_cache == Map::<Seq<char>, Seq<char>>::empty(),
            r@.file_cache == Map::<Seq<char>, Seq<char>>::empty(),
            well_formed(r@),
    {
        let r = ContextSnapshot {
            session_id: "default".to_owned(),
            version: 0,
            limits: Limits::default(),
            session_dir: FilePath::parse(""),
            code_snippets: Vec::new(),
            markdown_cache: TextCache::new(),
            file_cache: TextCache::new(),
        };
        proof {
            reveal_strlit("");
            assert(""@ =~= Seq::<char>::empty());
            assert(r@.snippets =~= Seq::<SnippetView>::empty());
        }
        r
    }
}

impl ContextSnapshot {
    #[verifier::type_invariant]
    closed spec fn inv(&self) -> bool {
        well_formed(self@)
    }

    /// A snapshot made of the given parts.
    pub(crate) fn assemble(
        session_id: String,
        version: u64,
        limits: Limits,
        session_dir: FilePath,
        code_snippets: Vec<CodeContext>,
        markdown_cache: TextCache,
        file_cache: TextCache,
    ) -> (r: Self)
        requires
            limits.max_tokens >= 1,
            forall|uri: Seq<char>| #[trigger]
                file_cache@.contains_key(uri) ==> cacheable(snippet_views(code_snippets@), uri),
        ensures
            r@ == (SnapshotView {
                session_id: session_id@,
                version,
                max_tokens: limits.max_tokens,
                session_dir: session_dir@,
                snippets: snippet_views(code_snippets@),
                markdown_cache: markdown_cache@,
                file_cache: file_cache@,
            }),
    {
        ContextSnapshot {
            session_id,
            version,
            limits,
            session_dir,
            code_snippets,
            markdown_cache,
            file_cache,
        }
    }

    /// This snapshot with another markdown cache.
    pub(crate) fn with_markdown_cache(self, markdown_cache: TextCache) -> (r: Self)
        ensures
            r@ == (SnapshotView { markdown_cache: markdown_cache@, ..self@ }),
    {
        proof {
            use_type_invariant(&self);
        }
        ContextSnapshot {
            session_id: self.session_id,
            version: self.version,
            limits: self.limits,
            session_dir: self.session_dir,
            code_snippets: self.code_snippets,
            markdown_cache,
            file_cache: self.file_cache,
        }
    }

    /// This snapshot with another file cache.
    pub(crate) fn with_file_cache(self, file_cache: TextCache) -> (r: Self)
        requires
            forall|uri: Seq<char>| #[trigger]
                file_cache@.contains_key(uri) ==> cacheable(self@.snippets, uri),
        ensures
            r@ == (SnapshotView { file_cache: file_cache@, ..self@ }),
    {
        proof {
            use_type_invariant(&self);
        }
        ContextSnapshot {
            session_id: self.session_id,
            version: self.version,
            limits: self.limits,
            session_dir: self.session_dir,
            code_snippets: self.code_snippets,
            markdown_cache: self.markdown_cache,
            file_cache,
        }
    }

    /// The session's identifier.
    pub fn session_id(&self) -> (r: &String)
        ensures
            r@ == self@.session_id,
    {
        &self.session_id
    }

    /// The version of the session's metadata.
    pub fn version(&self) -> (r: u64)
        ensures
            r == self@.version,
    {
        self.version
    }

    /// The session's limits.
    pub fn limits(&self) -> (r: Limits)
        ensures
            r.max_tokens == self@.max_tokens,
            r.max_tokens >= 1,
    {
        proof {
            use_type_invariant(self);
        }
        self.limits
    }

    /// The session's directory.
    pub fn session_dir(&self) -> (r: &FilePath)
        ensures
            r@ == self@.session_dir,
    {
        &self.session_dir
    }

    /// The session's snippets, in the order of the list.
    pub fn code_snippets(&self) -> (r: &Vec<CodeContext>)
        ensures
            snippet_views(r@) == self@.snippets,
    {
        &self.code_snippets
    }

    /// The notes, each under its file name.
    pub fn markdown_cache(&self) -> (r: &TextCache)
        ensures
            r@ == self@.markdown_cache,
    {
        &self.markdown_cache
    }

    /// The text of the source files, each under the URI that names it.
    pub fn file_cache(&self) -> (r: &TextCache)
        ensures
            r@ == self@.file_cache,
    {
        &self.file_cache
    }

    /// Every snapshot is fully formed: none can be built that is not.
    pub fn fully_formed(&self)
        ensures
            well_formed(self@),
    {
        proof {
            use_type_invariant(self);
        }
    }
}

} // verus!
