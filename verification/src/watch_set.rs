//! The watch-set: the source files that are watched one by one because a
//! snippet refers to them, and the registrations to change when it changes.

use vstd::prelude::*;
use crate::path::{FilePath, PathSet, PathView, path_views};
use crate::snapshot::{CodeContext, SnippetView, snippet_views};
use crate::uri::{local_path, local_path_of};

verus! {

/// The paths that a snippet list asks to watch: each local file that the
/// URI of some snippet names.
pub open spec fn required_paths(snippets: Seq<SnippetView>) -> Set<PathView> {
    Set::new(
        |p: PathView|
            exists|i: int|
                0 <= i < snippets.len() && #[trigger] local_path_of(snippets[i].uri) == Some(p),
    )
}

/// The watch-set that the snippet list `snippets` asks for.
pub fn required_watch_set(snippets: &Vec<CodeContext>) -> (r: PathSet)
    ensures
        r@ == required_paths(snippet_views(snippets@)),
{
    let ghost list = snippet_views(snippets@);
    let mut set = PathSet::new();
    let mut i: usize = 0;
    assert(set@ =~= required_paths(list.take(0)));
    while i < snippets.len()
        invariant
            i <= snippets.len(),
            list == snippet_views(snippets@),
            set@ == required_paths(list.take(i as int)),
        decreases snippets.len() - i,
    {
        let ghost before = set@;
        let found = local_path(snippets[i].uri.as_str());
        proof {
            assert(list[i as int].uri == snippets@[i as int].uri@);
            let next = required_paths(list.take(i + 1));
            let here = local_path_of(list[i as int].uri);
            assert forall|p: PathView|
                next.contains(p) <==> (before.contains(p) || here == Some(p)) by {
                if next.contains(p) {
                    let k = choose|k: int|
                        0 <= k < list.take(i + 1).len() && #[trigger] local_path_of(
                            list.take(i + 1)[k].uri,
                        ) == Some(p);
                    if k < i {
                        assert(local_path_of(list.take(i as int)[k].uri) == Some(p));
                    }
                }
                if before.contains(p) {
                    let k = choose|k: int|
                        0 <= k < list.take(i as int).len() && #[trigger] local_path_of(
                            list.take(i as int)[k].uri,
                        ) == Some(p);
                    assert(local_path_of(list.take(i + 1)[k].uri) == Some(p));
                }
                if here == Some(p) {
                    assert(local_path_of(list.take(i + 1)[i as int].uri) == Some(p));
                }
            }
        }
        match found {
            Some(p) => {
                set = set.insert(p);
            },
            None => {},
        }
        assert(set@ =~= required_paths(list.take(i + 1)));
        i = i + 1;
    }
    assert(list.take(snippets.len() as int) =~= list);
    set
}

/// A path to register with the operating system's file watcher.
#[derive(Debug)]
pub struct WatchTarget {
    pub path: FilePath,
    /// Whether everything below the path is watched too.
    pub recursive: bool,
}

/// The mathematical value of a [`WatchTarget`].
pub struct TargetView {
    pub path: PathView,
    pub recursive: bool,
}

impl View for WatchTarget {
    type V = TargetView;

    open spec fn view(&self) -> TargetView {
        TargetView { path: self.path@, recursive: self.recursive }
    }
}

/// The registrations to change: first every path of `unwatch` is taken off
/// the watcher, then every target of `watch` that exists is put on it.
/// Taking off a path that is not registered, and putting on one that is,
/// changes nothing.
#[derive(Debug)]
pub struct WatchPlan {
    pub unwatch: Vec<FilePath>,
    pub watch: Vec<WatchTarget>,
}

/// The mathematical value of a [`WatchPlan`].
pub struct WatchPlanView {
    pub unwatch: Seq<PathView>,
    pub watch: Seq<TargetView>,
}

/// The values of a sequence of targets.
pub open spec fn target_views(v: Seq<WatchTarget>) -> Seq<TargetView> {
    Seq::new(v.len(), |i: int| v[i]@)
}

impl View for WatchPlan {
    type V = WatchPlanView;

    open spec fn view(&self) -> WatchPlanView {
        WatchPlanView { unwatch: path_views(self.unwatch@), watch: target_views(self.watch@) }
    }
}

/// A plan that changes nothing.
pub open spec fn empty_plan() -> WatchPlanView {
    WatchPlanView { unwatch: Seq::empty(), watch: Seq::empty() }
}

/// Whether `files` lists every path of `set` once, each as a single file.
pub open spec fn lists_files(files: Seq<TargetView>, set: Set<PathView>) -> bool {
    &&& forall|i: int| 0 <= i < files.len() ==> !(#[trigger] files[i]).recursive
    &&& files.map_values(|t: TargetView| t.path).no_duplicates()
    &&& files.map_values(|t: TargetView| t.path).to_set() == set
}

/// Whether `plan` moves the registrations from the watch-set `old` to the
/// watch-set `new`, and besides takes off `old_fixed` and puts on
/// `new_fixed`: the fixed paths come first, then the source files that are
/// no longer required are taken off and those newly required are put on.
pub open spec fn plan_between(
    plan: WatchPlanView,
    old_fixed: Seq<PathView>,
    new_fixed: Seq<TargetView>,
    old: Set<PathView>,
    new: Set<PathView>,
) -> bool {
    &&& plan.unwatch.len() >= old_fixed.len()
    &&& plan.unwatch.take(old_fixed.len() as int) == old_fixed
    &&& plan.unwatch.skip(old_fixed.len() as int).no_duplicates()
    &&& plan.unwatch.skip(old_fixed.len() as int).to_set() == old.difference(new)
    &&& plan.watch.len() >= new_fixed.len()
    &&& plan.watch.take(new_fixed.len() as int) == new_fixed
    &&& lists_files(plan.watch.skip(new_fixed.len() as int), new.difference(old))
}

/// The plan that moves the registrations from the watch-set `old` to the
/// watch-set `new`, after taking off `old_fixed` and putting on `new_fixed`.
pub fn plan_rewatch(
    old_fixed: Vec<FilePath>,
    new_fixed: Vec<WatchTarget>,
    old: &PathSet,
    new: &PathSet,
) -> (r: WatchPlan)
    ensures
        plan_between(r@, path_views(old_fixed@), target_views(new_fixed@), old@, new@),
{
    let ghost fixed_off = path_views(old_fixed@);
    let ghost fixed_on = target_views(new_fixed@);
    let stale = old.difference(new);
    let fresh = new.difference(old);
    let mut unwatch = old_fixed;
    let mut i: usize = 0;
    while i < stale.len()
        invariant
            i <= stale.len(),
            unwatch.len() == fixed_off.len() + i,
            path_views(unwatch@).take(fixed_off.len() as int) == fixed_off,
            path_views(unwatch@).skip(fixed_off.len() as int) == path_views(stale@).take(i as int),
        decreases stale.len() - i,
    {
        let ghost before = path_views(unwatch@);
        unwatch.push(stale[i].clone());
        proof {
            let after = path_views(unwatch@);
            assert(after =~= before.push(stale@[i as int]@));
            assert(after.take(fixed_off.len() as int) =~= before.take(fixed_off.len() as int));
            assert(after.skip(fixed_off.len() as int) =~= before.skip(fixed_off.len() as int).push(
                stale@[i as int]@,
            ));
            assert(path_views(stale@).take(i + 1) =~= path_views(stale@).take(i as int).push(
                stale@[i as int]@,
            ));
        }
        i = i + 1;
    }
    assert(path_views(stale@).take(stale.len() as int) =~= path_views(stale@));
    let mut watch = new_fixed;
    let mut j: usize = 0;
    let ghost fresh_paths = path_views(fresh@);
    while j < fresh.len()
        invariant
            j <= fresh.len(),
            fresh_paths == path_views(fresh@),
            watch.len() == fixed_on.len() + j,
            target_views(watch@).take(fixed_on.len() as int) == fixed_on,
            forall|k: int|
                0 <= k < j ==> (#[trigger] target_views(watch@)[fixed_on.len() + k]) == (
                TargetView { path: fresh_paths[k], recursive: false }),
        decreases fresh.len() - j,
    {
        let ghost before = target_views(watch@);
        watch.push(WatchTarget { path: fresh[j].clone(), recursive: false });
        proof {
            let after = target_views(watch@);
            assert(after =~= before.push(
                TargetView { path: fresh_paths[j as int], recursive: false },
            ));
            assert(after.take(fixed_on.len() as int) =~= before.take(fixed_on.len() as int));
            assert forall|k: int| 0 <= k < j + 1 implies (#[trigger] after[fixed_on.len() + k]) == (
            TargetView { path: fresh_paths[k], recursive: false }) by {
                if k < j {
                    assert(after[fixed_on.len() + k] == before[fixed_on.len() + k]);
                }
            }
        }
        j = j + 1;
    }
    proof {
        let files = target_views(watch@).skip(fixed_on.len() as int);
        assert(files.len() == fresh_paths.len());
        assert forall|k: int| 0 <= k < files.len() implies files[k] == (TargetView {
            path: fresh_paths[k],
            recursive: false,
        }) by {
            assert(files[k] == target_views(watch@)[fixed_on.len() + k]);
        }
        assert(files.map_values(|t: TargetView| t.path) =~= fresh_paths);
    }
    WatchPlan { unwatch, watch }
}

/// The watch-set after a step: of the paths that the snippets ask for,
/// those that were registered before and those that were registered now.
/// A path that could not be registered is not in it, so the next step
/// offers it again.
pub open spec fn still_registered(
    old: Set<PathView>,
    required: Set<PathView>,
    registered: Set<PathView>,
) -> Set<PathView> {
    required.intersect(old.union(registered))
}

/// The watch-set after a step, given the paths that the snippets ask for,
/// the watch-set before, and the paths that were registered now.
pub fn registered_watch_set(required: &PathSet, old: &PathSet, registered: &PathSet) -> (r:
    PathSet)
    ensures
        r@ == still_registered(old@, required@, registered@),
{
    let paths = required.paths();
    let ghost all = path_views(paths@);
    let ghost known = old@.union(registered@);
    let mut set = PathSet::new();
    let mut i: usize = 0;
    assert(set@ =~= all.take(0).to_set().intersect(known));
    while i < paths.len()
        invariant
            i <= paths.len(),
            all == path_views(paths@),
            known == old@.union(registered@),
            set@ == all.take(i as int).to_set().intersect(known),
        decreases paths.len() - i,
    {
        let ghost p = all[i as int];
        proof {
            assert(p == paths@[i as int]@);
            assert(all.take(i + 1) =~= all.take(i as int).push(p));
            all.take(i as int).lemma_push_to_set_commute(p);
        }
        if old.contains(&paths[i]) || registered.contains(&paths[i]) {
            set = set.insert(paths[i].clone());
        }
        assert(set@ =~= all.take(i + 1).to_set().intersect(known));
        i = i + 1;
    }
    assert(all.take(paths.len() as int) =~= all);
    set
}

/// A path that the snippets ask for and that is not in the watch-set is
/// among the paths that the plan offers for registration.
pub proof fn lemma_unregistered_is_offered(
    plan: WatchPlanView,
    old_fixed: Seq<PathView>,
    new_fixed: Seq<TargetView>,
    old: Set<PathView>,
    new: Set<PathView>,
    p: PathView,
)
    requires
        plan_between(plan, old_fixed, new_fixed, old, new),
        new.contains(p),
        !old.contains(p),
    ensures
        exists|i: int| 0 <= i < plan.watch.len() && (#[trigger] plan.watch[i]).path == p,
{
    let files = plan.watch.skip(new_fixed.len() as int);
    let paths = files.map_values(|t: TargetView| t.path);
    assert(paths.to_set().contains(p));
    let k = choose|k: int| 0 <= k < paths.len() && paths[k] == p;
    assert(files[k].path == p);
    assert(plan.watch[new_fixed.len() + k] == files[k]);
}

} // verus!
