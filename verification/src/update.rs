//! Incremental updates: a new snapshot from the current one and the files
//! that were read again. Only the entries of the files that changed differ.

use vstd::prelude::*;
use crate::cache::TextCache;
use crate::path::{FilePath, PathView, file_name_text_of};
use crate::session_io::{FileRead, FileState, ReadView, StateView, read_views};
use crate::snapshot::{
    CodeContext, ContextSnapshot, SnapshotView, SnippetView, cacheable, lemma_references_step,
    references_uri, snippet_views, well_formed,
};
use crate::uri::{local_path, local_path_of};

verus! {

/// The markdown cache after one note was read again: its text is put under
/// its file name, or the name is dropped when the file is gone. A path
/// without a file name in valid UTF-8 names no note. A file that
/// is there but could not be read leaves the cache as it is.
pub open spec fn note_changed(cache: Map<Seq<char>, Seq<char>>, change: ReadView) -> Map<
    Seq<char>,
    Seq<char>,
> {
    match file_name_text_of(change.path) {
        Some(name) => match change.state {
            StateView::Text(text) => cache.insert(name, text),
            StateView::Missing => cache.remove(name),
            StateView::Unreadable => cache,
        },
        None => cache,
    }
}

/// The markdown cache after the notes `changes` were read again, in order.
pub open spec fn notes_changed(cache: Map<Seq<char>, Seq<char>>, changes: Seq<ReadView>) -> Map<
    Seq<char>,
    Seq<char>,
>
    decreases changes.len(),
{
    if changes.len() == 0 {
        cache
    } else {
        note_changed(notes_changed(cache, changes.drop_last()), changes.last())
    }
}

/// The snapshot after the notes `changes` were read again.
pub open spec fn markdown_updated(s: SnapshotView, changes: Seq<ReadView>) -> SnapshotView {
    SnapshotView { markdown_cache: notes_changed(s.markdown_cache, changes), ..s }
}

/// Whether `uri` is the URI of a snippet and names the file at `path`.
pub open spec fn names_file(snippets: Seq<SnippetView>, uri: Seq<char>, path: PathView) -> bool {
    references_uri(snippets, uri) && local_path_of(uri) == Some(path)
}

/// The file cache after one source file was read again: every snippet URI
/// that names the file gets its text, or loses its entry when the file is
/// gone. A file that is there but could not be read leaves the cache as it
/// is; so does a file that no snippet names.
pub open spec fn source_changed(
    snippets: Seq<SnippetView>,
    cache: Map<Seq<char>, Seq<char>>,
    change: ReadView,
) -> Map<Seq<char>, Seq<char>> {
    match change.state {
        StateView::Text(text) => Map::new(
            |uri: Seq<char>| cache.contains_key(uri) || names_file(snippets, uri, change.path),
            |uri: Seq<char>|
                if names_file(snippets, uri, change.path) {
                    text
                } else {
                    cache[uri]
                },
        ),
        StateView::Missing => Map::new(
            |uri: Seq<char>| cache.contains_key(uri) && !names_file(snippets, uri, change.path),
            |uri: Seq<char>| cache[uri],
        ),
        StateView::Unreadable => cache,
    }
}

/// The file cache after the source files `changes` were read again, in
/// order.
pub open spec fn sources_changed(
    snippets: Seq<SnippetView>,
    cache: Map<Seq<char>, Seq<char>>,
    changes: Seq<ReadView>,
) -> Map<Seq<char>, Seq<char>>
    decreases changes.len(),
{
    if changes.len() == 0 {
        cache
    } else {
        source_changed(snippets, sources_changed(snippets, cache, changes.drop_last()), changes.last())
    }
}

/// The snapshot after the source files `changes` were read again.
pub open spec fn sources_updated(s: SnapshotView, changes: Seq<ReadView>) -> SnapshotView {
    SnapshotView { file_cache: sources_changed(s.snippets, s.file_cache, changes), ..s }
}

/// A source update keeps the file cache within the snippets' URIs that
/// name local files.
pub proof fn lemma_sources_changed_within(
    snippets: Seq<SnippetView>,
    cache: Map<Seq<char>, Seq<char>>,
    changes: Seq<ReadView>,
)
    requires
        forall|uri: Seq<char>| #[trigger] cache.contains_key(uri) ==> cacheable(snippets, uri),
    ensures
        forall|uri: Seq<char>| #[trigger]
            sources_changed(snippets, cache, changes).contains_key(uri) ==> cacheable(
                snippets,
                uri,
            ),
    decreases changes.len(),
{
    if changes.len() > 0 {
        lemma_sources_changed_within(snippets, cache, changes.drop_last());
        let before = sources_changed(snippets, cache, changes.drop_last());
        let after = sources_changed(snippets, cache, changes);
        assert(after == source_changed(snippets, before, changes.last()));
        assert forall|uri: Seq<char>| #[trigger] after.contains_key(uri) implies cacheable(
            snippets,
            uri,
        ) by {
            if !before.contains_key(uri) {
                assert(names_file(snippets, uri, changes.last().path));
            }
        }
    }
}

/// The markdown cache after one note was read again.
fn change_note(cache: TextCache, change: &FileRead) -> (r: TextCache)
    ensures
        r@ == note_changed(cache@, change@),
{
    match change.path.file_name_text() {
        Some(name) => match &change.state {
            FileState::Text(text) => cache.insert(name, text.clone()),
            FileState::Missing => cache.remove(name.as_str()),
            FileState::Unreadable => cache,
        },
        None => cache,
    }
}

/// The snapshot that follows `current` when the notes `changes` were read
/// again. Nothing but the markdown cache differs.
pub fn apply_markdown_changes(current: &ContextSnapshot, changes: &Vec<FileRead>) -> (r:
    ContextSnapshot)
    ensures
        r@ == markdown_updated(current@, read_views(changes@)),
        well_formed(r@),
{
    let next = current.clone();
    let mut cache = next.markdown_cache().clone();
    let ghost views = read_views(changes@);
    let mut i: usize = 0;
    while i < changes.len()
        invariant
            i <= changes.len(),
            views == read_views(changes@),
            cache@ == notes_changed(current@.markdown_cache, views.take(i as int)),
        decreases changes.len() - i,
    {
        proof {
            assert(views.take(i + 1).drop_last() =~= views.take(i as int));
            assert(views.take(i + 1).last() == changes@[i as int]@);
        }
        cache = change_note(cache, &changes[i]);
        i = i + 1;
    }
    assert(views.take(changes.len() as int) =~= views);
    let r = next.with_markdown_cache(cache);
    r.fully_formed();
    r
}

/// The file cache after one source file was read again.
fn change_source(snippets: &Vec<CodeContext>, cache: TextCache, change: &FileRead) -> (r:
    TextCache)
    ensures
        r@ == source_changed(snippet_views(snippets@), cache@, change@),
{
    let ghost list = snippet_views(snippets@);
    let ghost start = cache@;
    let text: Option<&String> = match &change.state {
        FileState::Unreadable => {
            return cache;
        },
        FileState::Text(text) => Some(text),
        FileState::Missing => None,
    };
    let mut cache = cache;
    let mut i: usize = 0;
    assert(cache@ =~= source_changed(list.take(0), start, change@)) by {
        assert forall|uri: Seq<char>| !names_file(list.take(0), uri, change@.path) by {}
    }
    while i < snippets.len()
        invariant
            i <= snippets.len(),
            list == snippet_views(snippets@),
            match text {
                Some(t) => change.state == FileState::Text(*t),
                None => change.state == FileState::Missing,
            },
            cache@ == source_changed(list.take(i as int), start, change@),
        decreases snippets.len() - i,
    {
        let uri = &snippets[i].uri;
        proof {
            assert(list[i as int].uri == uri@);
            lemma_references_step(list, i as int);
            assert forall|u: Seq<char>|
                names_file(list.take(i + 1), u, change@.path) <==> (names_file(
                    list.take(i as int),
                    u,
                    change@.path,
                ) || (u == uri@ && local_path_of(u) == Some(change@.path))) by {}
        }
        match local_path(uri.as_str()) {
            Some(p) => {
                if p.same(&change.path) {
                    cache = match text {
                        Some(t) => cache.insert(uri.clone(), t.clone()),
                        None => cache.remove(uri.as_str()),
                    };
                }
            },
            None => {},
        }
        assert(cache@ =~= source_changed(list.take(i + 1), start, change@));
        i = i + 1;
    }
    assert(list.take(snippets.len() as int) =~= list);
    cache
}

/// The snapshot that follows `current` when the source files `changes`
/// were read again. Nothing but the file cache differs, and in it only the
/// entries of the snippets that name a changed file.
pub fn apply_source_changes(current: &ContextSnapshot, changes: &Vec<FileRead>) -> (r:
    ContextSnapshot)
    ensures
        r@ == sources_updated(current@, read_views(changes@)),
        well_formed(r@),
{
    let next = current.clone();
    let mut cache = next.file_cache().clone();
    let ghost views = read_views(changes@);
    let mut i: usize = 0;
    while i < changes.len()
        invariant
            i <= changes.len(),
            views == read_views(changes@),
            next@ == current@,
            cache@ == sources_changed(current@.snippets, current@.file_cache, views.take(i as int)),
        decreases changes.len() - i,
    {
        proof {
            assert(views.take(i + 1).drop_last() =~= views.take(i as int));
            assert(views.take(i + 1).last() == changes@[i as int]@);
        }
        cache = change_source(next.code_snippets(), cache, &changes[i]);
        i = i + 1;
    }
    assert(views.take(changes.len() as int) =~= views);
    current.fully_formed();
    proof {
        lemma_sources_changed_within(current@.snippets, current@.file_cache, views);
    }
    let r = next.with_file_cache(cache);
    r.fully_formed();
    r
}

} // verus!
