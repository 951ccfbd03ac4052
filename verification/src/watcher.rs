//! The watch loop's decisions. The loop itself waits for events and for the
//! idle timeout, reads files and talks to the operating system; after each
//! of these it hands the outcome to the [`SessionWatcher`], which says what
//! the session's state is now and what to do next.

use vstd::prelude::*;
use crate::change::{
    FlushStep, PendingChanges, PendingView, classify, classify_path, nothing_pending, plan_for,
    record_change, step_views,
};
use crate::layout::{
    notes_dir, notes_path, pointer_file, pointer_path, snippets_file, snippets_path,
};
use crate::path::{FilePath, PathSet, PathView, path_views};
use crate::session_io::{
    ActiveRecord, ActiveSessionError, Fetched, FileRead, SessionReadError, active_session_dir,
    read_views, resolve_active_session,
};
use crate::snapshot::{ContextSnapshot, SnapshotView, SnippetView, well_formed};
use crate::store::{SnapshotCell, SnapshotReader, SnapshotWriter};
use crate::update::{
    apply_markdown_changes, apply_source_changes, markdown_updated, sources_updated,
};
use crate::watch_set::{
    TargetView, WatchPlan, WatchPlanView, WatchTarget, empty_plan, plan_between, plan_rewatch,
    registered_watch_set, required_paths, required_watch_set, still_registered, target_views,
};

verus! {

/// The state of the watch loop: which session is active, which source files
/// are watched, what waits for the next flush, and the snapshot that is
/// published.
pub struct SessionWatcher {
    root: FilePath,
    session_dir: FilePath,
    watched: PathSet,
    pending: PendingChanges,
    writer: SnapshotWriter,
}

/// The mathematical value of a [`SessionWatcher`].
pub struct WatcherView {
    pub root: PathView,
    pub session_dir: PathView,
    pub watched: Set<PathView>,
    pub pending: PendingView,
    pub published: SnapshotView,
    /// The store to which the watcher publishes.
    pub store: SnapshotCell,
}

/// How long the disk has to stay quiet before what is pending is flushed,
/// in milliseconds.
pub const DEBOUNCE_MILLIS: u64 = 200;

/// The pending changes after the changed paths `paths` were classified, one
/// after the other, against the state `w` and folded in.
pub open spec fn observed(w: WatcherView, paths: Seq<PathView>) -> PendingView
    decreases paths.len(),
{
    if paths.len() == 0 {
        w.pending
    } else {
        record_change(
            observed(w, paths.drop_last()),
            classify_path(w.root, w.session_dir, w.watched, paths.last()),
        )
    }
}

/// The state after a flush was planned. With a session switch pending the
/// state stays as it is until the switch has ended, which discards all that
/// is pending; else all that was pending is in the plan and nothing is
/// left.
pub open spec fn flush_begun(w: WatcherView) -> WatcherView {
    if w.pending.session_switch {
        w
    } else {
        WatcherView { pending: nothing_pending(), ..w }
    }
}

/// The state after the session pointer was read for a switch, and the
/// directory to load, if there is one. A pointer that cannot be resolved, and
/// one that names the active session, end the switch: what was pending is
/// discarded. Else the session in the directory is to be loaded.
pub open spec fn switch_begun(w: WatcherView, pointer: Fetched<ActiveRecord>) -> (
    WatcherView,
    Option<PathView>,
) {
    match active_session_dir(w.root, pointer) {
        Ok(dir) => if dir == w.session_dir {
            (WatcherView { pending: nothing_pending(), ..w }, None)
        } else {
            (w, Some(dir))
        },
        Err(_) => (WatcherView { pending: nothing_pending(), ..w }, None),
    }
}

/// The state after a session switch, given what loading the new session
/// gave and which paths were registered for it. With the new session
/// loaded, its snapshot is published, its directory takes the place of the
/// old one, and the watch-set holds the paths of its snippets that are
/// registered. A failed load keeps the old session, its snapshot and its
/// watch-set. Whatever the outcome, what was pending is discarded.
pub open spec fn switched(
    w: WatcherView,
    loaded: Result<SnapshotView, SessionReadError>,
    registered: Set<PathView>,
) -> WatcherView {
    match loaded {
        Ok(s) => WatcherView {
            session_dir: s.session_dir,
            watched: still_registered(w.watched, required_paths(s.snippets), registered),
            pending: nothing_pending(),
            published: s,
            ..w
        },
        Err(_) => WatcherView { pending: nothing_pending(), ..w },
    }
}

/// The state after the snippet list was loaded again, given what the load
/// gave and which paths were registered for it: the new snapshot is
/// published and the watch-set holds the paths of its snippets that are
/// registered; a failed load changes nothing.
pub open spec fn reloaded(
    w: WatcherView,
    loaded: Result<SnapshotView, SessionReadError>,
    registered: Set<PathView>,
) -> WatcherView {
    match loaded {
        Ok(s) => WatcherView {
            watched: still_registered(w.watched, required_paths(s.snippets), registered),
            published: s,
            ..w
        },
        Err(_) => w,
    }
}

/// Whether `plan` changes the registrations for a switch to the session
/// that was loaded: the old session's snippet list and notes directory and
/// the source files that are no longer asked for are taken off, the new
/// session's are put on. A failed load changes no registration.
pub open spec fn is_switch_plan(
    w: WatcherView,
    loaded: Result<SnapshotView, SessionReadError>,
    plan: WatchPlanView,
) -> bool {
    match loaded {
        Ok(s) => plan_between(
            plan,
            session_paths(w.session_dir),
            session_targets(s.session_dir),
            w.watched,
            required_paths(s.snippets),
        ),
        Err(_) => plan == empty_plan(),
    }
}

/// Whether `plan` changes the registrations for a snippet list that was
/// loaded again: the source files that are no longer asked for are taken
/// off, those that are asked for and not registered are put on. A failed
/// load changes no registration.
pub open spec fn is_reload_plan(
    w: WatcherView,
    loaded: Result<SnapshotView, SessionReadError>,
    plan: WatchPlanView,
) -> bool {
    match loaded {
        Ok(s) => plan_between(
            plan,
            Seq::empty(),
            Seq::empty(),
            w.watched,
            required_paths(s.snippets),
        ),
        Err(_) => plan == empty_plan(),
    }
}

/// Whether `plan` registers what the watch loop watches from the start, for
/// the workspace at `root` with the session in `session_dir` and the
/// snippets `snippets`: the session pointer, the session's snippet list and
/// notes directory, and every source file that a snippet names.
pub open spec fn is_start_plan(
    root: PathView,
    session_dir: PathView,
    snippets: Seq<SnippetView>,
    plan: WatchPlanView,
) -> bool {
    plan_between(
        plan,
        Seq::empty(),
        seq![TargetView { path: pointer_file(root), recursive: false }] + session_targets(
            session_dir,
        ),
        Set::empty(),
        required_paths(snippets),
    )
}

/// The value of what a load gave.
pub open spec fn loaded_view(loaded: Result<ContextSnapshot, SessionReadError>) -> Result<
    SnapshotView,
    SessionReadError,
> {
    match loaded {
        Ok(s) => Ok(s@),
        Err(e) => Err(e),
    }
}

/// The paths of a session that are watched whatever its snippets are: the
/// snippet list, and the notes directory with all below it.
pub open spec fn session_targets(session_dir: PathView) -> Seq<TargetView> {
    seq![
        TargetView { path: snippets_file(session_dir), recursive: false },
        TargetView { path: notes_dir(session_dir), recursive: true },
    ]
}

/// The paths of [`session_targets`].
pub open spec fn session_paths(session_dir: PathView) -> Seq<PathView> {
    seq![snippets_file(session_dir), notes_dir(session_dir)]
}

fn session_watch_targets(session_dir: &FilePath) -> (r: Vec<WatchTarget>)
    ensures
        target_views(r@) == session_targets(session_dir@),
{
    let mut v: Vec<WatchTarget> = Vec::new();
    v.push(WatchTarget { path: snippets_path(session_dir), recursive: false });
    v.push(WatchTarget { path: notes_path(session_dir), recursive: true });
    assert(target_views(v@) =~= session_targets(session_dir@));
    v
}

fn session_watch_paths(session_dir: &FilePath) -> (r: Vec<FilePath>)
    ensures
        path_views(r@) == session_paths(session_dir@),
{
    let mut v: Vec<FilePath> = Vec::new();
    v.push(snippets_path(session_dir));
    v.push(notes_path(session_dir));
    assert(path_views(v@) =~= session_paths(session_dir@));
    v
}

fn no_plan() -> (r: WatchPlan)
    ensures
        r@ == empty_plan(),
{
    let r = WatchPlan { unwatch: Vec::new(), watch: Vec::new() };
    assert(r@.unwatch =~= Seq::<PathView>::empty());
    assert(r@.watch =~= Seq::<TargetView>::empty());
    r
}

impl View for SessionWatcher {
    type V = WatcherView;

    closed spec fn view(&self) -> WatcherView {
        WatcherView {
            root: self.root@,
            session_dir: self.session_dir@,
            watched: self.watched@,
            pending: self.pending@,
            published: self.writer.published(),
            store: self.writer.store(),
        }
    }
}

impl SessionWatcher {
    /// What to register before the watch loop starts, for the workspace at
    /// `root`, given what the session pointer holds and the first snapshot.
    /// Where the pointer is absent, unreadable or malformed there is no
    /// session to watch, and there is no plan but the pointer's error.
    pub fn start_plan(
        root: &FilePath,
        pointer: &Fetched<ActiveRecord>,
        snapshot: &ContextSnapshot,
    ) -> (r: Result<WatchPlan, ActiveSessionError>)
        ensures
            match r {
                Ok(plan) => active_session_dir(root@, *pointer) matches Ok(dir) && is_start_plan(
                    root@,
                    dir,
                    snapshot@.snippets,
                    plan@,
                ),
                Err(e) => active_session_dir(root@, *pointer) == Err::<PathView, ActiveSessionError>(
                    e,
                ),
            },
    {
        let session_dir = match resolve_active_session(root, pointer) {
            Ok(dir) => dir,
            Err(e) => {
                return Err(e);
            },
        };
        let required = required_watch_set(snapshot.code_snippets());
        let mut fixed: Vec<WatchTarget> = Vec::new();
        fixed.push(WatchTarget { path: pointer_path(root), recursive: false });
        fixed.push(WatchTarget { path: snippets_path(&session_dir), recursive: false });
        fixed.push(WatchTarget { path: notes_path(&session_dir), recursive: true });
        assert(target_views(fixed@) =~= seq![
            TargetView { path: pointer_file(root@), recursive: false },
        ] + session_targets(session_dir@));
        let none: Vec<FilePath> = Vec::new();
        assert(path_views(none@) =~= Seq::<PathView>::empty());
        Ok(plan_rewatch(none, fixed, &PathSet::new(), &required))
    }

    /// The state at the start of the watch loop, for the workspace at `root`,
    /// given what the session pointer holds, the store with the first
    /// snapshot, and the paths that were registered. The pointer names the
    /// active session; where it is absent, unreadable or malformed the start
    /// fails with the pointer's error and nothing is published. Else the
    /// watch-set holds the source files of the snippets that are registered.
    pub fn start(
        root: FilePath,
        pointer: &Fetched<ActiveRecord>,
        writer: SnapshotWriter,
        registered: &PathSet,
    ) -> (r: Result<SessionWatcher, ActiveSessionError>)
        ensures
            match r {
                Ok(started) => active_session_dir(root@, *pointer) matches Ok(dir) && started@ == (
                WatcherView {
                    root: root@,
                    session_dir: dir,
                    watched: still_registered(
                        Set::empty(),
                        required_paths(writer.published().snippets),
                        registered@,
                    ),
                    pending: nothing_pending(),
                    published: writer.published(),
                    store: writer.store(),
                }) && well_formed(started@.published),
                Err(e) => active_session_dir(root@, *pointer) == Err::<PathView, ActiveSessionError>(
                    e,
                ),
            },
    {
        let session_dir = match resolve_active_session(&root, pointer) {
            Ok(dir) => dir,
            Err(e) => {
                return Err(e);
            },
        };
        let required = required_watch_set(writer.current().code_snippets());
        let watched = registered_watch_set(&required, &PathSet::new(), registered);
        Ok(SessionWatcher { root, session_dir, watched, pending: PendingChanges::new(), writer })
    }

    /// The state after the paths of one raw event were classified against
    /// the session and watch-set as they are now, and folded into what is
    /// pending.
    pub fn observe(self, paths: &Vec<FilePath>) -> (r: Self)
        ensures
            r@ == (WatcherView { pending: observed(self@, path_views(paths@)), ..self@ }),
    {
        let SessionWatcher { root, session_dir, watched, pending, writer } = self;
        let ghost views = path_views(paths@);
        let mut pending = pending;
        let mut i: usize = 0;
        while i < paths.len()
            invariant
                i <= paths.len(),
                views == path_views(paths@),
                pending@ == observed(self@, views.take(i as int)),
                root@ == self@.root,
                session_dir@ == self@.session_dir,
                watched@ == self@.watched,
            decreases paths.len() - i,
        {
            proof {
                assert(views.take(i + 1).drop_last() =~= views.take(i as int));
                assert(views.take(i + 1).last() == paths@[i as int]@);
            }
            let kind = classify(&root, &session_dir, &watched, &paths[i]);
            pending = pending.record(kind);
            i = i + 1;
        }
        assert(views.take(paths.len() as int) =~= views);
        SessionWatcher { root, session_dir, watched, pending, writer }
    }

    /// What the flush that is due now has to do, step by step, and the state
    /// once it is planned.
    pub fn begin_flush(self) -> (r: (Self, Vec<FlushStep>))
        ensures
            plan_for(self@.pending, step_views(r.1@)),
            r.0@ == flush_begun(self@),
    {
        let plan = self.pending.plan();
        if self.pending.switch_pending() {
            (self, plan)
        } else {
            let SessionWatcher { root, session_dir, watched, pending: _, writer } = self;
            (
                SessionWatcher { root, session_dir, watched, pending: PendingChanges::new(), writer },
                plan,
            )
        }
    }

    /// First step of a session switch: given what the session pointer holds
    /// now, the directory of the session to load, if another session is
    /// active now. Where there is none to load the switch has ended, and what
    /// was pending is discarded.
    pub fn begin_switch(self, pointer: &Fetched<ActiveRecord>) -> (r: (Self, Option<FilePath>))
        ensures
            r.0@ == switch_begun(self@, *pointer).0,
            match r.1 {
                Some(dir) => switch_begun(self@, *pointer).1 == Some(dir@),
                None => switch_begun(self@, *pointer).1 is None,
            },
    {
        let target = match resolve_active_session(&self.root, pointer) {
            Ok(dir) => if dir.same(&self.session_dir) {
                None
            } else {
                Some(dir)
            },
            Err(_) => None,
        };
        match target {
            Some(dir) => (self, Some(dir)),
            None => {
                let SessionWatcher { root, session_dir, watched, pending: _, writer } = self;
                (
                    SessionWatcher {
                        root,
                        session_dir,
                        watched,
                        pending: PendingChanges::new(),
                        writer,
                    },
                    None,
                )
            },
        }
    }

    /// Second step of a session switch: the registrations to change, given
    /// what loading the new session gave.
    pub fn switch_plan(&self, loaded: &Result<ContextSnapshot, SessionReadError>) -> (r: WatchPlan)
        ensures
            is_switch_plan(self@, loaded_view(*loaded), r@),
    {
        match loaded {
            Ok(snapshot) => {
                let required = required_watch_set(snapshot.code_snippets());
                plan_rewatch(
                    session_watch_paths(&self.session_dir),
                    session_watch_targets(snapshot.session_dir()),
                    &self.watched,
                    &required,
                )
            },
            Err(_) => no_plan(),
        }
    }

    /// Last step of a session switch: the state after it, given what loading
    /// the new session gave and the paths that were registered for it. The
    /// new snapshot is published with one store; after a failed load the
    /// snapshot published before stays. What was pending is discarded
    /// either way.
    pub fn switch_session(
        self,
        loaded: Result<ContextSnapshot, SessionReadError>,
        registered: &PathSet,
    ) -> (r: Self)
        ensures
            r@ == switched(self@, loaded_view(loaded), registered@),
            well_formed(r@.published),
    {
        let SessionWatcher { root, session_dir, watched, pending: _, writer } = self;
        match loaded {
            Ok(snapshot) => {
                snapshot.fully_formed();
                let next_dir = snapshot.session_dir().clone();
                let required = required_watch_set(snapshot.code_snippets());
                let next_watched = registered_watch_set(&required, &watched, registered);
                let writer = writer.publish(snapshot);
                SessionWatcher {
                    root,
                    session_dir: next_dir,
                    watched: next_watched,
                    pending: PendingChanges::new(),
                    writer,
                }
            },
            Err(_) => {
                let _ = writer.current();
                SessionWatcher { root, session_dir, watched, pending: PendingChanges::new(), writer }
            },
        }
    }

    /// The registrations to change for a snippet list that was loaded again.
    pub fn reload_plan(&self, loaded: &Result<ContextSnapshot, SessionReadError>) -> (r: WatchPlan)
        ensures
            is_reload_plan(self@, loaded_view(*loaded), r@),
    {
        match loaded {
            Ok(snapshot) => {
                let required = required_watch_set(snapshot.code_snippets());
                let none: Vec<FilePath> = Vec::new();
                let nothing: Vec<WatchTarget> = Vec::new();
                assert(path_views(none@) =~= Seq::<PathView>::empty());
                assert(target_views(nothing@) =~= Seq::<TargetView>::empty());
                plan_rewatch(none, nothing, &self.watched, &required)
            },
            Err(_) => no_plan(),
        }
    }

    /// The state after the snippet list was loaded again, given what the
    /// load gave and the paths that were registered for it. The new snapshot
    /// is published with one store; after a failed load the snapshot
    /// published before stays, and so does the watch-set.
    pub fn reload_code_snippets(
        self,
        loaded: Result<ContextSnapshot, SessionReadError>,
        registered: &PathSet,
    ) -> (r: Self)
        ensures
            r@ == reloaded(self@, loaded_view(loaded), registered@),
            well_formed(r@.published),
    {
        match loaded {
            Ok(snapshot) => {
                snapshot.fully_formed();
                let SessionWatcher { root, session_dir, watched, pending, writer } = self;
                let required = required_watch_set(snapshot.code_snippets());
                let next_watched = registered_watch_set(&required, &watched, registered);
                let writer = writer.publish(snapshot);
                SessionWatcher { root, session_dir, watched: next_watched, pending, writer }
            },
            Err(_) => {
                let _ = self.writer.current();
                self
            },
        }
    }

    /// The state after the notes `changes` were read again: the snapshot
    /// that follows is published with one store.
    pub fn update_markdown_cache(self, changes: &Vec<FileRead>) -> (r: Self)
        ensures
            r@ == (WatcherView {
                published: markdown_updated(self@.published, read_views(changes@)),
                ..self@
            }),
            well_formed(r@.published),
    {
        let SessionWatcher { root, session_dir, watched, pending, writer } = self;
        let next = apply_markdown_changes(writer.current(), changes);
        let writer = writer.publish(next);
        SessionWatcher { root, session_dir, watched, pending, writer }
    }

    /// The state after the source files `changes` were read again: the
    /// snapshot that follows is published with one store.
    pub fn update_code_cache(self, changes: &Vec<FileRead>) -> (r: Self)
        ensures
            r@ == (WatcherView {
                published: sources_updated(self@.published, read_views(changes@)),
                ..self@
            }),
            well_formed(r@.published),
    {
        let SessionWatcher { root, session_dir, watched, pending, writer } = self;
        let next = apply_source_changes(writer.current(), changes);
        let writer = writer.publish(next);
        SessionWatcher { root, session_dir, watched, pending, writer }
    }

    /// The workspace root.
    pub fn root(&self) -> (r: &FilePath)
        ensures
            r@ == self@.root,
    {
        &self.root
    }

    /// The directory of the active session.
    pub fn session_dir(&self) -> (r: &FilePath)
        ensures
            r@ == self@.session_dir,
    {
        &self.session_dir
    }

    /// The watch-set.
    pub fn watched(&self) -> (r: &PathSet)
        ensures
            r@ == self@.watched,
    {
        &self.watched
    }

    /// What waits for the next flush.
    pub fn pending(&self) -> (r: &PendingChanges)
        ensures
            r@ == self@.pending,
    {
        &self.pending
    }

    /// The snapshot that is published.
    pub fn snapshot(&self) -> (r: &ContextSnapshot)
        ensures
            r@ == self@.published,
            well_formed(r@),
    {
        self.writer.current()
    }

    /// A handle for one more reader of the store to which this watcher
    /// publishes. Every step keeps the watcher with its store, so the handle
    /// stays good for the watcher's whole life.
    pub fn reader(&self) -> (r: SnapshotReader)
        ensures
            r.store() == self@.store,
    {
        self.writer.reader()
    }
}

} // verus!
