//! Tests of change classification, batching and the watch loop's decisions.

use snek::change::{classify, ChangeKind, FlushStep, PendingChanges};
use snek::path::{FilePath, PathSet};
use snek::session_io::{
    load_snapshot, ActiveRecord, ActiveSessionError, Fetched, FileRead, FileState, SessionFiles, SessionReadError,
    SessionRecord,
};
use snek::snapshot::{CodeContext, ContextSnapshot, Limits};
use snek::store::SnapshotWriter;
use snek::watch_set::{
    plan_rewatch, registered_watch_set, required_watch_set, WatchPlan, WatchTarget,
};
use snek::watcher::{SessionWatcher, DEBOUNCE_MILLIS};

const ROOT: &str = "/ws/.snek";
const SESSION: &str = "/ws/.snek/sessions/one";
const OTHER_SESSION: &str = "/ws/.snek/sessions/two";

fn path(text: &str) -> FilePath {
    FilePath::parse(text)
}

fn paths(texts: &[&str]) -> Vec<FilePath> {
    texts.iter().map(|t| FilePath::parse(t)).collect()
}

fn shown(paths: &Vec<FilePath>) -> Vec<String> {
    let mut out: Vec<String> = paths.iter().map(|p| p.to_text().unwrap()).collect();
    out.sort();
    out
}

fn shown_targets(targets: &Vec<WatchTarget>) -> Vec<(String, bool)> {
    targets.iter().map(|t| (t.path.to_text().unwrap(), t.recursive)).collect()
}

fn step_names(plan: &Vec<FlushStep>) -> Vec<String> {
    plan.iter()
        .map(|step| match step {
            FlushStep::SwitchSession => "switch".to_string(),
            FlushStep::ReloadSnippets => "reload".to_string(),
            FlushStep::UpdateMarkdown(paths) => format!("markdown {:?}", shown(paths)),
            FlushStep::UpdateSource(paths) => format!("source {:?}", shown(paths)),
        })
        .collect()
}

fn code(uri: &str) -> CodeContext {
    CodeContext {
        uri: uri.to_string(),
        start_line: 0,
        end_line: 1,
        language_id: "rust".to_string(),
        description: None,
    }
}

fn read(path: &str, text: &str) -> FileRead {
    FileRead { path: FilePath::parse(path), state: FileState::Text(text.to_string()) }
}

fn gone(path: &str) -> FileRead {
    FileRead { path: FilePath::parse(path), state: FileState::Missing }
}

fn unreadable(path: &str) -> FileRead {
    FileRead { path: FilePath::parse(path), state: FileState::Unreadable }
}

fn session(
    dir: &str,
    id: &str,
    snippets: Vec<CodeContext>,
    notes: Vec<FileRead>,
    sources: Vec<FileRead>,
) -> ContextSnapshot {
    let files = SessionFiles {
        metadata: Fetched::Found(SessionRecord {
            schema: 1,
            id: id.to_string(),
            name: "n".to_string(),
            version: 1,
            limits: Limits { max_tokens: 1600 },
            updated_at: String::new(),
        }),
        snippets: Fetched::Found(snippets),
        notes,
        sources,
    };
    load_snapshot(&FilePath::parse(dir), files).unwrap()
}

/// Every target of the plan, taken as registered.
fn all_of(plan: &WatchPlan) -> PathSet {
    let mut set = PathSet::new();
    for target in &plan.watch {
        set = set.insert(target.path.clone());
    }
    set
}

fn set_of(texts: &[&str]) -> PathSet {
    let mut set = PathSet::new();
    for text in texts {
        set = set.insert(FilePath::parse(text));
    }
    set
}

/// A watcher on the first session, with every path of the plan registered.
fn started(snippets: Vec<CodeContext>, notes: Vec<FileRead>, sources: Vec<FileRead>) -> SessionWatcher {
    let snapshot = session(SESSION, "one", snippets, notes, sources);
    let pointer = pointer_to("sessions/one");
    let plan = SessionWatcher::start_plan(&path(ROOT), &pointer, &snapshot).unwrap();
    SessionWatcher::start(path(ROOT), &pointer, SnapshotWriter::new(snapshot), &all_of(&plan)).unwrap()
}

fn pointer_to(rel: &str) -> Fetched<ActiveRecord> {
    Fetched::Found(ActiveRecord { schema: 1, id: "x".to_string(), path: rel.to_string() })
}

fn kind_of(path_text: &str, watched: &PathSet) -> ChangeKind {
    classify(&path(ROOT), &path(SESSION), watched, &path(path_text))
}

#[test]
fn test_classify_session_pointer() {
    let watched = PathSet::new();
    assert!(matches!(kind_of("/ws/.snek/active.json", &watched), ChangeKind::SessionSwitch));
    assert!(matches!(
        kind_of("/ws/.snek/sessions/one/active.json", &watched),
        ChangeKind::Irrelevant
    ));
}

#[test]
fn test_classify_snippet_list_of_the_active_session_only() {
    let watched = PathSet::new();
    assert!(matches!(
        kind_of("/ws/.snek/sessions/one/code_snippets.json", &watched),
        ChangeKind::SnippetsChanged
    ));
    assert!(matches!(
        kind_of("/ws/.snek/sessions/two/code_snippets.json", &watched),
        ChangeKind::Irrelevant
    ));
}

#[test]
fn test_classify_notes() {
    let watched = PathSet::new();
    match kind_of("/ws/.snek/sessions/one/context/a.md", &watched) {
        ChangeKind::MarkdownChanged(p) => {
            assert_eq!(p.to_text().unwrap(), "/ws/.snek/sessions/one/context/a.md")
        }
        other => panic!("unexpected kind: {:?}", other),
    }
    assert!(matches!(
        kind_of("/ws/.snek/sessions/one/context/deep/b.md", &watched),
        ChangeKind::MarkdownChanged(_)
    ));
    assert!(matches!(
        kind_of("/ws/.snek/sessions/one/context/a.txt", &watched),
        ChangeKind::Irrelevant
    ));
    assert!(matches!(
        kind_of("/ws/.snek/sessions/two/context/a.md", &watched),
        ChangeKind::Irrelevant
    ));
    assert!(matches!(kind_of("/ws/.snek/sessions/one/a.md", &watched), ChangeKind::Irrelevant));
}

#[test]
fn test_classify_watched_source() {
    let watched = PathSet::new().insert(path("/src/a.rs"));
    match kind_of("/src/a.rs", &watched) {
        ChangeKind::SourceChanged(p) => assert_eq!(p.to_text().unwrap(), "/src/a.rs"),
        other => panic!("unexpected kind: {:?}", other),
    }
    assert!(matches!(kind_of("/src/b.rs", &watched), ChangeKind::Irrelevant));
}

#[test]
fn test_classify_order_of_the_cases() {
    // A watched path that is also the session pointer, the snippet list or
    // a note is classified by the earlier case.
    let watched = PathSet::new()
        .insert(path("/ws/.snek/active.json"))
        .insert(path("/ws/.snek/sessions/one/code_snippets.json"))
        .insert(path("/ws/.snek/sessions/one/context/a.md"));
    assert!(matches!(kind_of("/ws/.snek/active.json", &watched), ChangeKind::SessionSwitch));
    assert!(matches!(
        kind_of("/ws/.snek/sessions/one/code_snippets.json", &watched),
        ChangeKind::SnippetsChanged
    ));
    assert!(matches!(
        kind_of("/ws/.snek/sessions/one/context/a.md", &watched),
        ChangeKind::MarkdownChanged(_)
    ));
}

#[test]
fn test_pending_starts_empty() {
    let pending = PendingChanges::new();
    assert!(pending.is_empty());
    assert!(!pending.switch_pending());
    assert!(pending.plan().is_empty());
}

#[test]
fn test_irrelevant_changes_leave_nothing_pending() {
    let pending = PendingChanges::new().record(ChangeKind::Irrelevant);
    assert!(pending.is_empty());
}

#[test]
fn test_coalescing_same_source_path_once() {
    let mut pending = PendingChanges::new();
    for _ in 0..25 {
        pending = pending.record(ChangeKind::SourceChanged(path("/src/a.rs")));
    }
    assert!(!pending.is_empty());
    let plan = pending.plan();
    assert_eq!(plan.len(), 1);
    match &plan[0] {
        FlushStep::UpdateSource(source) => {
            assert_eq!(source.len(), 1);
            assert_eq!(source[0].to_text().unwrap(), "/src/a.rs");
        }
        other => panic!("unexpected step: {:?}", other),
    }
}

#[test]
fn test_plan_lists_every_pending_path_once() {
    let pending = PendingChanges::new()
        .record(ChangeKind::MarkdownChanged(path("/n/a.md")))
        .record(ChangeKind::SourceChanged(path("/src/a.rs")))
        .record(ChangeKind::MarkdownChanged(path("/n/b.md")))
        .record(ChangeKind::MarkdownChanged(path("/n/a.md")))
        .record(ChangeKind::SourceChanged(path("/src/b.rs")));
    assert_eq!(
        step_names(&pending.plan()),
        vec![
            "markdown [\"/n/a.md\", \"/n/b.md\"]".to_string(),
            "source [\"/src/a.rs\", \"/src/b.rs\"]".to_string(),
        ]
    );
}

#[test]
fn test_snippet_reload_supersedes_source_updates_not_notes() {
    let pending = PendingChanges::new()
        .record(ChangeKind::SourceChanged(path("/src/a.rs")))
        .record(ChangeKind::MarkdownChanged(path("/n/a.md")))
        .record(ChangeKind::SnippetsChanged);
    assert_eq!(
        step_names(&pending.plan()),
        vec!["reload".to_string(), "markdown [\"/n/a.md\"]".to_string()]
    );
}

#[test]
fn test_priority_session_switch_stands_alone() {
    let pending = PendingChanges::new()
        .record(ChangeKind::SourceChanged(path("/src/a.rs")))
        .record(ChangeKind::MarkdownChanged(path("/n/a.md")))
        .record(ChangeKind::SnippetsChanged)
        .record(ChangeKind::SessionSwitch);
    assert!(pending.switch_pending());
    assert_eq!(step_names(&pending.plan()), vec!["switch".to_string()]);
}

#[test]
fn test_required_watch_set_is_distinct_local_paths() {
    let set = required_watch_set(&vec![
        code("file:///src/a.rs"),
        code("file:///src/b.rs"),
        code("file://localhost/src/a.rs"),
        code("https://example.com/x.rs"),
        code("garbage"),
    ]);
    assert_eq!(shown(set.paths()), vec!["/src/a.rs", "/src/b.rs"]);
}

#[test]
fn test_plan_rewatch_moves_between_sets() {
    let old = PathSet::new().insert(path("/a")).insert(path("/b"));
    let new = PathSet::new().insert(path("/b")).insert(path("/c"));
    let WatchPlan { unwatch, watch } = plan_rewatch(
        vec![path("/fixed/off")],
        vec![WatchTarget { path: path("/fixed/on"), recursive: true }],
        &old,
        &new,
    );
    assert_eq!(
        unwatch.iter().map(|p| p.to_text().unwrap()).collect::<Vec<_>>(),
        vec!["/fixed/off", "/a"]
    );
    assert_eq!(
        shown_targets(&watch),
        vec![("/fixed/on".to_string(), true), ("/c".to_string(), false)]
    );
}

#[test]
fn test_start_watches_pointer_session_and_sources() {
    let snapshot = session(
        SESSION,
        "one",
        vec![code("file:///src/a.rs"), code("file:///src/a.rs"), code("file:///src/b.rs")],
        vec![],
        vec![read("/src/a.rs", "a")],
    );
    let pointer = pointer_to("sessions/one");
    let plan = SessionWatcher::start_plan(&path(ROOT), &pointer, &snapshot).unwrap();
    let watcher =
        SessionWatcher::start(path(ROOT), &pointer, SnapshotWriter::new(snapshot), &all_of(&plan))
            .unwrap();
    assert!(plan.unwatch.is_empty());
    assert_eq!(
        shown_targets(&plan.watch),
        vec![
            ("/ws/.snek/active.json".to_string(), false),
            ("/ws/.snek/sessions/one/code_snippets.json".to_string(), false),
            ("/ws/.snek/sessions/one/context".to_string(), true),
            ("/src/a.rs".to_string(), false),
            ("/src/b.rs".to_string(), false),
        ]
    );
    assert_eq!(shown(watcher.watched().paths()), vec!["/src/a.rs", "/src/b.rs"]);
    assert!(watcher.pending().is_empty());
    assert_eq!(watcher.root().to_text().unwrap(), ROOT);
    assert_eq!(watcher.session_dir().to_text().unwrap(), SESSION);
    assert_eq!(watcher.snapshot().session_id(), "one");
}

#[test]
fn test_observe_classifies_against_the_current_state() {
    let watcher = started(vec![code("file:///src/a.rs")], vec![], vec![read("/src/a.rs", "a")]);
    let watcher = watcher.observe(&paths(&[
        "/src/a.rs",
        "/src/other.rs",
        "/ws/.snek/sessions/one/context/n.md",
        "/src/a.rs",
    ]));
    let (watcher, plan) = watcher.begin_flush();
    assert_eq!(
        step_names(&plan),
        vec![
            "markdown [\"/ws/.snek/sessions/one/context/n.md\"]".to_string(),
            "source [\"/src/a.rs\"]".to_string(),
        ]
    );
    assert!(watcher.pending().is_empty());
}

#[test]
fn test_update_markdown_cache_upserts_and_removes() {
    let watcher = started(
        vec![],
        vec![read("/ws/.snek/sessions/one/context/a.md", "old"), read("/ws/.snek/sessions/one/context/b.md", "b")],
        vec![],
    );
    let reader = watcher.reader();
    let before = reader.load();
    let watcher = watcher.update_markdown_cache(&vec![
        read("/ws/.snek/sessions/one/context/a.md", "new"),
        gone("/ws/.snek/sessions/one/context/b.md"),
        read("/ws/.snek/sessions/one/context/c.md", "c"),
        unreadable("/ws/.snek/sessions/one/context/d.md"),
    ]);
    let after = reader.load();
    assert_eq!(after.markdown_cache().len(), 2);
    assert_eq!(after.markdown_cache().get("a.md").unwrap(), "new");
    assert_eq!(after.markdown_cache().get("c.md").unwrap(), "c");
    assert!(after.markdown_cache().get("b.md").is_none());
    // A reader that loaded before the update keeps what it loaded.
    assert_eq!(before.markdown_cache().get("a.md").unwrap(), "old");
    assert_eq!(before.markdown_cache().len(), 2);
    assert_eq!(watcher.snapshot().markdown_cache().len(), 2);
}

#[test]
fn test_idempotence_unchanged_note_gives_equal_snapshot() {
    let watcher = started(
        vec![code("file:///src/a.rs")],
        vec![read("/ws/.snek/sessions/one/context/a.md", "same")],
        vec![read("/src/a.rs", "a")],
    );
    let watcher =
        watcher.update_markdown_cache(&vec![read("/ws/.snek/sessions/one/context/a.md", "same")]);
    let snapshot = watcher.snapshot();
    assert_eq!(snapshot.session_id(), "one");
    assert_eq!(snapshot.markdown_cache().len(), 1);
    assert_eq!(snapshot.markdown_cache().get("a.md").unwrap(), "same");
    assert_eq!(snapshot.file_cache().len(), 1);
    assert_eq!(snapshot.file_cache().get("file:///src/a.rs").unwrap(), "a");
    assert_eq!(snapshot.code_snippets().len(), 1);
}

#[test]
fn test_update_code_cache_rereads_every_matching_uri() {
    let watcher = started(
        vec![code("file:///src/a.rs"), code("file://localhost/src/a.rs"), code("file:///src/b.rs")],
        vec![],
        vec![read("/src/a.rs", "a1"), read("/src/b.rs", "b1")],
    );
    let watcher = watcher.update_code_cache(&vec![read("/src/a.rs", "a2")]);
    let cache = watcher.snapshot().file_cache();
    assert_eq!(cache.len(), 3);
    assert_eq!(cache.get("file:///src/a.rs").unwrap(), "a2");
    assert_eq!(cache.get("file://localhost/src/a.rs").unwrap(), "a2");
    assert_eq!(cache.get("file:///src/b.rs").unwrap(), "b1");
}

#[test]
fn test_eviction_deleted_source_loses_its_entry_only() {
    let watcher = started(
        vec![code("file:///src/a.rs"), code("file:///src/b.rs")],
        vec![read("/ws/.snek/sessions/one/context/a.md", "note")],
        vec![read("/src/a.rs", "a"), read("/src/b.rs", "b")],
    );
    let watcher = watcher.observe(&paths(&["/src/a.rs"]));
    let (watcher, plan) = watcher.begin_flush();
    assert_eq!(step_names(&plan), vec!["source [\"/src/a.rs\"]".to_string()]);
    let watcher = watcher.update_code_cache(&vec![gone("/src/a.rs")]);
    let snapshot = watcher.reader().load();
    assert!(snapshot.file_cache().get("file:///src/a.rs").is_none());
    assert_eq!(snapshot.file_cache().get("file:///src/b.rs").unwrap(), "b");
    assert_eq!(snapshot.file_cache().len(), 1);
    assert_eq!(snapshot.markdown_cache().get("a.md").unwrap(), "note");
    assert_eq!(snapshot.code_snippets().len(), 2);
}

#[test]
fn test_unreadable_or_unreferenced_source_changes_nothing() {
    let watcher = started(vec![code("file:///src/a.rs")], vec![], vec![read("/src/a.rs", "a")]);
    let watcher = watcher
        .update_code_cache(&vec![unreadable("/src/a.rs"), read("/src/z.rs", "z"), gone("/src/y.rs")]);
    let cache = watcher.snapshot().file_cache();
    assert_eq!(cache.len(), 1);
    assert_eq!(cache.get("file:///src/a.rs").unwrap(), "a");
}

#[test]
fn test_scenario_dropped_snippet_leaves_watch_set_and_cache() {
    let watcher = started(
        vec![code("file:///src/a.rs"), code("file:///src/b.rs")],
        vec![],
        vec![read("/src/a.rs", "a"), read("/src/b.rs", "b")],
    );
    let watcher = watcher.observe(&paths(&["/ws/.snek/sessions/one/code_snippets.json"]));
    let (watcher, plan) = watcher.begin_flush();
    assert_eq!(step_names(&plan), vec!["reload".to_string()]);
    let reloaded = session(SESSION, "one", vec![code("file:///src/b.rs")], vec![], vec![read("/src/b.rs", "b")]);
    let reloaded = Ok(reloaded);
    let plan = watcher.reload_plan(&reloaded);
    assert_eq!(shown(&plan.unwatch), vec!["/src/a.rs"]);
    assert!(plan.watch.is_empty());
    let watcher = watcher.reload_code_snippets(reloaded, &all_of(&plan));
    assert!(!watcher.watched().contains(&path("/src/a.rs")));
    assert!(watcher.watched().contains(&path("/src/b.rs")));
    let snapshot = watcher.reader().load();
    assert!(snapshot.file_cache().get("file:///src/a.rs").is_none());
    assert_eq!(snapshot.file_cache().get("file:///src/b.rs").unwrap(), "b");
}

#[test]
fn test_failed_reload_keeps_snapshot_and_watch_set() {
    let watcher = started(vec![code("file:///src/a.rs")], vec![], vec![read("/src/a.rs", "a")]);
    let failed = Err(SessionReadError::SnippetsMalformed);
    let plan = watcher.reload_plan(&failed);
    assert!(plan.unwatch.is_empty());
    assert!(plan.watch.is_empty());
    let watcher = watcher.reload_code_snippets(failed, &PathSet::new());
    assert!(watcher.watched().contains(&path("/src/a.rs")));
    assert_eq!(watcher.reader().load().file_cache().get("file:///src/a.rs").unwrap(), "a");
}

#[test]
fn test_session_switch_discards_what_was_pending() {
    let watcher = started(
        vec![code("file:///src/a.rs")],
        vec![read("/ws/.snek/sessions/one/context/a.md", "one")],
        vec![read("/src/a.rs", "a")],
    );
    let watcher = watcher.observe(&paths(&[
        "/src/a.rs",
        "/ws/.snek/sessions/one/context/a.md",
        "/ws/.snek/sessions/one/code_snippets.json",
        "/ws/.snek/active.json",
    ]));
    let (watcher, plan) = watcher.begin_flush();
    assert_eq!(step_names(&plan), vec!["switch".to_string()]);
    assert!(!watcher.pending().is_empty());

    let (watcher, target) = watcher.begin_switch(&pointer_to("sessions/two"));
    assert_eq!(target.unwrap().to_text().unwrap(), OTHER_SESSION);
    let next = session(
        OTHER_SESSION,
        "two",
        vec![code("file:///src/c.rs")],
        vec![read("/ws/.snek/sessions/two/context/t.md", "two")],
        vec![read("/src/c.rs", "c")],
    );
    let next = Ok(next);
    let plan = watcher.switch_plan(&next);
    let watcher = watcher.switch_session(next, &all_of(&plan));

    assert!(watcher.pending().is_empty());
    assert_eq!(watcher.session_dir().to_text().unwrap(), OTHER_SESSION);
    assert_eq!(shown(watcher.watched().paths()), vec!["/src/c.rs"]);
    assert_eq!(
        plan.unwatch.iter().map(|p| p.to_text().unwrap()).collect::<Vec<_>>(),
        vec![
            "/ws/.snek/sessions/one/code_snippets.json",
            "/ws/.snek/sessions/one/context",
            "/src/a.rs",
        ]
    );
    assert_eq!(
        shown_targets(&plan.watch),
        vec![
            ("/ws/.snek/sessions/two/code_snippets.json".to_string(), false),
            ("/ws/.snek/sessions/two/context".to_string(), true),
            ("/src/c.rs".to_string(), false),
        ]
    );
    let snapshot = watcher.reader().load();
    assert_eq!(snapshot.session_id(), "two");
    assert_eq!(snapshot.markdown_cache().get("t.md").unwrap(), "two");
    assert!(snapshot.markdown_cache().get("a.md").is_none());
    assert!(watcher.pending().plan().is_empty());
}

#[test]
fn test_switch_to_the_active_session_changes_nothing_but_pending() {
    let watcher = started(vec![code("file:///src/a.rs")], vec![], vec![read("/src/a.rs", "a")]);
    let watcher = watcher.observe(&paths(&["/src/a.rs", "/ws/.snek/active.json"]));
    let (watcher, target) = watcher.begin_switch(&pointer_to("sessions/one"));
    assert!(target.is_none());
    assert!(watcher.pending().is_empty());
    assert_eq!(watcher.session_dir().to_text().unwrap(), SESSION);
    assert_eq!(watcher.snapshot().session_id(), "one");
}

#[test]
fn test_unresolvable_pointer_ends_the_switch_and_discards_the_rest() {
    for pointer in [Fetched::Missing, Fetched::Unreadable, Fetched::Malformed] {
        let watcher = started(
            vec![code("file:///src/a.rs")],
            vec![read("/ws/.snek/sessions/one/context/a.md", "n")],
            vec![read("/src/a.rs", "a")],
        );
        let watcher = watcher.observe(&paths(&[
            "/src/a.rs",
            "/ws/.snek/sessions/one/context/a.md",
            "/ws/.snek/sessions/one/code_snippets.json",
            "/ws/.snek/active.json",
        ]));
        let (watcher, plan) = watcher.begin_flush();
        assert_eq!(step_names(&plan), vec!["switch".to_string()]);
        let (watcher, target) = watcher.begin_switch(&pointer);
        assert!(target.is_none());
        assert!(watcher.pending().is_empty());
        // The flush that follows has nothing to do.
        let (watcher, plan) = watcher.begin_flush();
        assert!(plan.is_empty());
        assert_eq!(watcher.snapshot().session_id(), "one");
        assert!(watcher.watched().contains(&path("/src/a.rs")));
    }
}

#[test]
fn test_failed_switch_keeps_the_old_session_and_discards_what_was_pending() {
    let watcher = started(
        vec![code("file:///src/a.rs")],
        vec![read("/ws/.snek/sessions/one/context/a.md", "n")],
        vec![read("/src/a.rs", "a")],
    );
    let watcher = watcher.observe(&paths(&[
        "/src/a.rs",
        "/ws/.snek/sessions/one/context/a.md",
        "/ws/.snek/sessions/one/code_snippets.json",
        "/ws/.snek/active.json",
    ]));
    let (watcher, plan) = watcher.begin_flush();
    assert_eq!(step_names(&plan), vec!["switch".to_string()]);
    let (watcher, target) = watcher.begin_switch(&pointer_to("sessions/two"));
    assert!(target.is_some());
    let failed = Err(SessionReadError::MetadataUnreadable);
    let plan = watcher.switch_plan(&failed);
    assert!(plan.unwatch.is_empty());
    assert!(plan.watch.is_empty());
    let watcher = watcher.switch_session(failed, &PathSet::new());
    assert_eq!(watcher.session_dir().to_text().unwrap(), SESSION);
    assert_eq!(watcher.reader().load().session_id(), "one");
    assert!(watcher.watched().contains(&path("/src/a.rs")));
    assert!(watcher.pending().is_empty());
    // The flush that follows has nothing to do.
    let (watcher, plan) = watcher.begin_flush();
    assert!(plan.is_empty());
    assert_eq!(watcher.reader().load().markdown_cache().get("a.md").unwrap(), "n");
}

#[test]
fn test_consistency_every_load_is_a_whole_snapshot() {
    let watcher = started(
        vec![code("file:///src/a.rs")],
        vec![read("/ws/.snek/sessions/one/context/a.md", "n")],
        vec![read("/src/a.rs", "a")],
    );
    let reader = watcher.reader();
    let second = reader.clone();
    let mut loads = vec![reader.load()];
    let watcher = watcher.update_code_cache(&vec![gone("/src/a.rs")]);
    loads.push(reader.load());
    let watcher =
        watcher.reload_code_snippets(Err(SessionReadError::SnippetsUnreadable), &PathSet::new());
    loads.push(second.load());
    let watcher = watcher.switch_session(Err(SessionReadError::MetadataMalformed), &PathSet::new());
    loads.push(reader.load());
    let watcher = watcher.update_markdown_cache(&vec![gone("/ws/.snek/sessions/one/context/a.md")]);
    loads.push(second.load());
    for snapshot in &loads {
        assert_eq!(snapshot.session_id(), "one");
        assert!(snapshot.limits().max_tokens >= 1);
        assert_eq!(snapshot.code_snippets().len(), 1);
        assert!(snapshot.file_cache().len() <= 1);
    }
    assert_eq!(loads[0].file_cache().len(), 1);
    assert_eq!(loads[1].file_cache().len(), 0);
    assert_eq!(loads[3].markdown_cache().len(), 1);
    assert_eq!(loads[4].markdown_cache().len(), 0);
    assert_eq!(watcher.snapshot().markdown_cache().len(), 0);
}

#[test]
fn test_default_snapshot() {
    let snapshot = ContextSnapshot::default();
    assert_eq!(snapshot.session_id(), "default");
    assert_eq!(snapshot.version(), 0);
    assert_eq!(snapshot.limits().max_tokens, 1600);
    assert_eq!(snapshot.session_dir().to_text().unwrap(), "");
    assert!(snapshot.code_snippets().is_empty());
    assert_eq!(snapshot.markdown_cache().len(), 0);
    assert_eq!(snapshot.file_cache().len(), 0);
    assert_eq!(Limits::default().max_tokens, 1600);
    let copy = snapshot.clone();
    assert_eq!(copy.session_id(), "default");
}

#[test]
fn test_debounce_window() {
    assert_eq!(DEBOUNCE_MILLIS, 200);
}

#[test]
fn test_start_fails_when_the_pointer_cannot_be_resolved() {
    for (pointer, expected) in [
        (Fetched::Missing, ActiveSessionError::Unreadable),
        (Fetched::Unreadable, ActiveSessionError::Unreadable),
        (Fetched::Malformed, ActiveSessionError::Malformed),
    ] {
        let snapshot = session(SESSION, "one", vec![code("file:///src/a.rs")], vec![], vec![]);
        match SessionWatcher::start_plan(&path(ROOT), &pointer, &snapshot) {
            Err(e) => assert_eq!(e, expected),
            Ok(_) => panic!("planned without a session pointer"),
        }
        let writer = SnapshotWriter::new(snapshot);
        let reader = writer.reader();
        match SessionWatcher::start(path(ROOT), &pointer, writer, &PathSet::new()) {
            Err(e) => assert_eq!(e, expected),
            Ok(_) => panic!("started without a session pointer"),
        }
        // The store still holds the snapshot it was made with.
        assert_eq!(reader.load().session_id(), "one");
    }
}

#[test]
fn test_start_takes_the_session_from_the_pointer() {
    let snapshot = session(SESSION, "one", vec![], vec![], vec![]);
    let pointer = pointer_to("sessions/two");
    let plan = SessionWatcher::start_plan(&path(ROOT), &pointer, &snapshot).unwrap();
    let watcher =
        SessionWatcher::start(path(ROOT), &pointer, SnapshotWriter::new(snapshot), &all_of(&plan))
            .unwrap();
    assert_eq!(watcher.session_dir().to_text().unwrap(), OTHER_SESSION);
    assert_eq!(
        shown_targets(&plan.watch),
        vec![
            ("/ws/.snek/active.json".to_string(), false),
            ("/ws/.snek/sessions/two/code_snippets.json".to_string(), false),
            ("/ws/.snek/sessions/two/context".to_string(), true),
        ]
    );
}

#[test]
fn test_source_whose_path_is_not_utf8_is_cached_and_watched() {
    let uri = "file:///src/%FF.rs";
    let on_disk = FilePath::from_bytes(b"/src/\xff.rs");
    let first = FileRead { path: on_disk.clone(), state: FileState::Text("one".to_string()) };
    let watcher = started(vec![code(uri)], vec![], vec![first]);
    assert!(watcher.watched().contains(&on_disk));
    assert_eq!(watcher.snapshot().file_cache().get(uri).unwrap(), "one");
    let watcher = watcher.observe(&vec![on_disk.clone()]);
    let (watcher, plan) = watcher.begin_flush();
    assert_eq!(plan.len(), 1);
    let again = FileRead { path: on_disk.clone(), state: FileState::Text("two".to_string()) };
    let watcher = watcher.update_code_cache(&vec![again]);
    assert_eq!(watcher.reader().load().file_cache().get(uri).unwrap(), "two");
}

#[test]
fn test_note_whose_name_is_not_utf8_is_left_out() {
    let odd = FilePath::from_bytes(b"/ws/.snek/sessions/one/context/\xff.md");
    let watcher = started(
        vec![],
        vec![FileRead { path: odd.clone(), state: FileState::Text("x".to_string()) }],
        vec![],
    );
    assert_eq!(watcher.snapshot().markdown_cache().len(), 0);
    let watcher = watcher
        .update_markdown_cache(&vec![FileRead { path: odd, state: FileState::Text("y".to_string()) }]);
    assert_eq!(watcher.snapshot().markdown_cache().len(), 0);
}

#[test]
fn test_watch_set_holds_registered_paths_only() {
    // Of two referenced files one is not on disk at the start: it is offered
    // for registration, is not registered, and is not in the watch-set.
    let snapshot = session(
        SESSION,
        "one",
        vec![code("file:///src/a.rs"), code("file:///src/late.rs")],
        vec![],
        vec![read("/src/a.rs", "a")],
    );
    let pointer = pointer_to("sessions/one");
    let plan = SessionWatcher::start_plan(&path(ROOT), &pointer, &snapshot).unwrap();
    assert_eq!(plan.watch.len(), 5);
    let watcher = SessionWatcher::start(
        path(ROOT),
        &pointer,
        SnapshotWriter::new(snapshot),
        &set_of(&["/ws/.snek/active.json", "/src/a.rs", "/not/asked/for.rs"]),
    )
    .unwrap();
    assert_eq!(shown(watcher.watched().paths()), vec!["/src/a.rs"]);

    // A change of the unregistered file means nothing to the session.
    let watcher = watcher.observe(&paths(&["/src/late.rs", "/not/asked/for.rs"]));
    assert!(watcher.pending().is_empty());

    // The next reload offers the unregistered file again, and the
    // registered one not.
    let again = Ok(session(
        SESSION,
        "one",
        vec![code("file:///src/a.rs"), code("file:///src/late.rs")],
        vec![],
        vec![read("/src/a.rs", "a"), read("/src/late.rs", "l")],
    ));
    let plan = watcher.reload_plan(&again);
    assert!(plan.unwatch.is_empty());
    assert_eq!(shown_targets(&plan.watch), vec![("/src/late.rs".to_string(), false)]);
    let watcher = watcher.reload_code_snippets(again, &set_of(&["/src/late.rs"]));
    assert_eq!(shown(watcher.watched().paths()), vec!["/src/a.rs", "/src/late.rs"]);
    let watcher = watcher.observe(&paths(&["/src/late.rs"]));
    assert_eq!(step_names(&watcher.pending().plan()), vec!["source [\"/src/late.rs\"]".to_string()]);
}

#[test]
fn test_switch_keeps_registered_paths_of_the_new_session_only() {
    let watcher = started(
        vec![code("file:///src/a.rs"), code("file:///src/shared.rs")],
        vec![],
        vec![],
    );
    assert_eq!(shown(watcher.watched().paths()), vec!["/src/a.rs", "/src/shared.rs"]);
    let next = Ok(session(
        OTHER_SESSION,
        "two",
        vec![code("file:///src/shared.rs"), code("file:///src/c.rs"), code("file:///src/gone.rs")],
        vec![],
        vec![],
    ));
    let plan = watcher.switch_plan(&next);
    assert_eq!(
        plan.unwatch.iter().map(|p| p.to_text().unwrap()).collect::<Vec<_>>(),
        vec![
            "/ws/.snek/sessions/one/code_snippets.json",
            "/ws/.snek/sessions/one/context",
            "/src/a.rs",
        ]
    );
    assert_eq!(
        shown_targets(&plan.watch),
        vec![
            ("/ws/.snek/sessions/two/code_snippets.json".to_string(), false),
            ("/ws/.snek/sessions/two/context".to_string(), true),
            ("/src/c.rs".to_string(), false),
            ("/src/gone.rs".to_string(), false),
        ]
    );
    // "/src/gone.rs" is not on disk and was not registered.
    let watcher = watcher.switch_session(next, &set_of(&["/src/c.rs"]));
    assert_eq!(shown(watcher.watched().paths()), vec!["/src/c.rs", "/src/shared.rs"]);
    assert!(!watcher.watched().contains(&path("/src/a.rs")));
    assert!(!watcher.watched().contains(&path("/src/gone.rs")));
}

#[test]
fn test_registered_watch_set() {
    let required = set_of(&["/a", "/b", "/c"]);
    let old = set_of(&["/a", "/x"]);
    let registered = set_of(&["/c", "/y"]);
    assert_eq!(shown(registered_watch_set(&required, &old, &registered).paths()), vec!["/a", "/c"]);
    assert!(registered_watch_set(&required, &PathSet::new(), &PathSet::new()).is_empty());
}
