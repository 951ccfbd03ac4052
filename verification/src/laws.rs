//! What holds of the subsystem as a whole, stated over the models that the
//! functions' contracts use and proved from them.

use vstd::prelude::*;
use crate::change::{
    ChangeView, PendingView, StepView, nothing_pending, plan_for, record_change,
};
use crate::path::{PathView, file_name_text_of};
use crate::session_io::{ActiveRecord, Fetched, ReadView, SessionReadError, StateView};
use crate::snapshot::{SnapshotView, well_formed};
use crate::update::{
    lemma_sources_changed_within, markdown_updated, names_file, note_changed, notes_changed,
    source_changed, sources_changed, sources_updated,
};
use crate::watch_set::required_paths;
use crate::watcher::{WatcherView, flush_begun, reloaded, switch_begun, switched};

verus! {

/// `pending` after the change `kind` was folded in `n` times.
pub open spec fn recorded_times(pending: PendingView, kind: ChangeView, n: nat) -> PendingView
    decreases n,
{
    if n == 0 {
        pending
    } else {
        record_change(recorded_times(pending, kind, (n - 1) as nat), kind)
    }
}

/// Coalescing: however often one source file changes between two flushes,
/// the flush has one step, which re-reads that file once.
pub proof fn lemma_coalescing(path: PathView, n: nat, plan: Seq<StepView>)
    requires
        n >= 1,
        plan_for(recorded_times(nothing_pending(), ChangeView::SourceChanged(path), n), plan),
    ensures
        plan == seq![StepView::UpdateSource(seq![path])],
{
    lemma_recorded_source(path, n);
    assert(set![path].contains(path));
    assert(set![path] != Set::<PathView>::empty());
    match plan[0] {
        StepView::UpdateSource(source) => {
            source.unique_seq_to_set();
            assert(set![path].len() == 1) by {
                assert(set![path] =~= Set::<PathView>::empty().insert(path));
            }
            assert(source.to_set().contains(source[0]));
            assert(source =~= seq![path]);
        },
        _ => {},
    }
    assert(plan =~= seq![StepView::UpdateSource(seq![path])]);
}

/// Folding in a change that is pending already changes nothing.
pub proof fn lemma_record_twice(pending: PendingView, kind: ChangeView)
    ensures
        record_change(record_change(pending, kind), kind) == record_change(pending, kind),
{
    match kind {
        ChangeView::MarkdownChanged(p) => {
            assert(pending.markdown.insert(p).insert(p) =~= pending.markdown.insert(p));
        },
        ChangeView::SourceChanged(p) => {
            assert(pending.source.insert(p).insert(p) =~= pending.source.insert(p));
        },
        _ => {},
    }
}

/// After one or more changes of one source file, that file alone is pending.
pub proof fn lemma_recorded_source(path: PathView, n: nat)
    requires
        n >= 1,
    ensures
        recorded_times(nothing_pending(), ChangeView::SourceChanged(path), n) == (PendingView {
            source: set![path],
            ..nothing_pending()
        }),
    decreases n,
{
    let kind = ChangeView::SourceChanged(path);
    if n == 1 {
        assert(recorded_times(nothing_pending(), kind, 0) == nothing_pending());
        assert(Set::<PathView>::empty().insert(path) =~= set![path]);
    } else {
        lemma_recorded_source(path, (n - 1) as nat);
        assert(set![path].insert(path) =~= set![path]);
    }
}

/// Priority: while a session switch is pending, a flush does the switch and
/// nothing else, and once the switch has ended nothing of what was pending
/// is left: not when the new session was loaded, not when loading it
/// failed, not when the pointer could not be resolved or named the active
/// session. The flush that follows has no step.
pub proof fn lemma_switch_preempts(
    w: WatcherView,
    plan: Seq<StepView>,
    pointer: Fetched<ActiveRecord>,
    loaded: Result<SnapshotView, SessionReadError>,
    registered: Set<PathView>,
    next_plan: Seq<StepView>,
)
    requires
        w.pending.session_switch,
        plan_for(w.pending, plan),
        plan_for(nothing_pending(), next_plan),
    ensures
        plan == seq![StepView::SwitchSession],
        flush_begun(w) == w,
        switch_begun(w, pointer).1 is None ==> switch_begun(w, pointer).0.pending
            == nothing_pending(),
        switch_begun(w, pointer).1 is Some ==> switch_begun(w, pointer).0 == w,
        switched(w, loaded, registered).pending == nothing_pending(),
        loaded matches Ok(s) ==> switched(w, loaded, registered).published == s,
        loaded is Err ==> switched(w, loaded, registered).published == w.published,
        next_plan == Seq::<StepView>::empty(),
{
    assert(next_plan.len() == 0);
    assert(next_plan =~= Seq::<StepView>::empty());
}

/// The watch-set holds registered paths only: after a switch or a reload
/// every path in it was in the watch-set before or was registered now, and
/// a snippet of the new list names it.
pub proof fn lemma_watch_set_is_registered(
    w: WatcherView,
    s: SnapshotView,
    registered: Set<PathView>,
    p: PathView,
)
    requires
        switched(w, Ok(s), registered).watched.contains(p) || reloaded(
            w,
            Ok(s),
            registered,
        ).watched.contains(p),
    ensures
        w.watched.contains(p) || registered.contains(p),
        required_paths(s.snippets).contains(p),
{
}

/// Idempotence: re-reading a note whose text is what the cache holds
/// already gives the same snapshot.
pub proof fn lemma_markdown_update_idempotent(
    s: SnapshotView,
    path: PathView,
    name: Seq<char>,
    text: Seq<char>,
)
    requires
        file_name_text_of(path) == Some(name),
        s.markdown_cache.contains_key(name),
        s.markdown_cache[name] == text,
    ensures
        markdown_updated(s, seq![ReadView { path, state: StateView::Text(text) }]) == s,
{
    let changes = seq![ReadView { path, state: StateView::Text(text) }];
    assert(changes.drop_last() =~= Seq::<ReadView>::empty());
    assert(notes_changed(s.markdown_cache, changes.drop_last()) == s.markdown_cache);
    assert(notes_changed(s.markdown_cache, changes) == note_changed(
        s.markdown_cache,
        changes.last(),
    ));
    assert(s.markdown_cache.insert(name, text) =~= s.markdown_cache);
}

/// Eviction: after a source file is gone and was flushed, no snippet URI
/// that names it has an entry in the file cache; every other entry is as it
/// was, nothing else of the snapshot differs, and the snapshot is fully
/// formed as before.
pub proof fn lemma_eviction(s: SnapshotView, path: PathView)
    requires
        well_formed(s),
    ensures
        ({
            let after = sources_updated(s, seq![ReadView { path, state: StateView::Missing }]);
            &&& well_formed(after)
            &&& after == (SnapshotView { file_cache: after.file_cache, ..s })
            &&& forall|uri: Seq<char>|
                names_file(s.snippets, uri, path) ==> !after.file_cache.contains_key(uri)
            &&& forall|uri: Seq<char>|
                !names_file(s.snippets, uri, path) ==> (after.file_cache.contains_key(uri)
                    == s.file_cache.contains_key(uri) && (s.file_cache.contains_key(uri)
                    ==> after.file_cache[uri] == s.file_cache[uri]))
        }),
{
    let changes = seq![ReadView { path, state: StateView::Missing }];
    assert(changes.drop_last() =~= Seq::<ReadView>::empty());
    assert(sources_changed(s.snippets, s.file_cache, changes.drop_last()) == s.file_cache);
    assert(sources_changed(s.snippets, s.file_cache, changes) == source_changed(
        s.snippets,
        s.file_cache,
        changes.last(),
    ));
    lemma_sources_changed_within(s.snippets, s.file_cache, changes);
}

/// One step of the watch loop that touches the published snapshot.
pub enum Update {
    /// Notes were read again.
    Notes(Seq<ReadView>),
    /// Source files were read again.
    Sources(Seq<ReadView>),
    /// The session was loaded: for a reload of the snippet list or for a
    /// session switch.
    Load(Result<SnapshotView, SessionReadError>),
}

/// The snapshot that is published after the update `u`.
pub open spec fn updated(s: SnapshotView, u: Update) -> SnapshotView {
    match u {
        Update::Notes(changes) => markdown_updated(s, changes),
        Update::Sources(changes) => sources_updated(s, changes),
        Update::Load(Ok(next)) => next,
        Update::Load(Err(_)) => s,
    }
}

/// The snapshot that is published after the updates `us`, in order.
pub open spec fn updated_all(s: SnapshotView, us: Seq<Update>) -> SnapshotView
    decreases us.len(),
{
    if us.len() == 0 {
        s
    } else {
        updated(updated_all(s, us.drop_last()), us.last())
    }
}

/// Consistency: from the first loaded snapshot on, whatever updates follow
/// and whichever of them fail, the published snapshot is fully formed.
pub proof fn lemma_consistency(first: SnapshotView, us: Seq<Update>)
    requires
        well_formed(first),
        forall|i: int|
            0 <= i < us.len() ==> (#[trigger] us[i] matches Update::Load(Ok(next))
                ==> well_formed(next)),
    ensures
        well_formed(updated_all(first, us)),
    decreases us.len(),
{
    if us.len() > 0 {
        lemma_consistency(first, us.drop_last());
        let before = updated_all(first, us.drop_last());
        match us.last() {
            Update::Sources(changes) => {
                lemma_sources_changed_within(before.snippets, before.file_cache, changes);
            },
            _ => {},
        }
    }
}

} // verus!
