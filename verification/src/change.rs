//! Classifying a changed path, and batching classified changes until the
//! next flush.

use vstd::prelude::*;
use vstd::utf8::encode_utf8;
use crate::layout::{
    NOTE_EXTENSION, notes_dir, notes_path, pointer_file, pointer_path, snippets_file,
    snippets_path,
};
use crate::path::{FilePath, PathSet, PathView, clone_paths, has_extension, is_under, path_views};

verus! {

/// What a change on disk means for the session.
#[derive(Debug)]
pub enum ChangeKind {
    /// The session pointer changed: another session may be active now.
    SessionSwitch,
    /// The active session's snippet list changed.
    SnippetsChanged,
    /// A note of the active session changed.
    MarkdownChanged(FilePath),
    /// A watched source file changed.
    SourceChanged(FilePath),
    /// Nothing the session depends on.
    Irrelevant,
}

/// The mathematical value of a [`ChangeKind`].
pub enum ChangeView {
    SessionSwitch,
    SnippetsChanged,
    MarkdownChanged(PathView),
    SourceChanged(PathView),
    Irrelevant,
}

impl View for ChangeKind {
    type V = ChangeView;

    open spec fn view(&self) -> ChangeView {
        match self {
            ChangeKind::SessionSwitch => ChangeView::SessionSwitch,
            ChangeKind::SnippetsChanged => ChangeView::SnippetsChanged,
            ChangeKind::MarkdownChanged(p) => ChangeView::MarkdownChanged(p@),
            ChangeKind::SourceChanged(p) => ChangeView::SourceChanged(p@),
            ChangeKind::Irrelevant => ChangeView::Irrelevant,
        }
    }
}

/// Whether `path` is a note of the session in `session_dir`: a file with
/// the note extension below the notes directory.
pub open spec fn is_note(session_dir: PathView, path: PathView) -> bool {
    has_extension(path, encode_utf8(NOTE_EXTENSION@)) && is_under(path, notes_dir(session_dir))
}

/// The meaning of a change at `path`, by where the path stands. The cases
/// are tried in this order; the first that fits decides.
pub open spec fn classify_path(
    root: PathView,
    session_dir: PathView,
    watched: Set<PathView>,
    path: PathView,
) -> ChangeView {
    if path == pointer_file(root) {
        ChangeView::SessionSwitch
    } else if path == snippets_file(session_dir) {
        ChangeView::SnippetsChanged
    } else if is_note(session_dir, path) {
        ChangeView::MarkdownChanged(path)
    } else if watched.contains(path) {
        ChangeView::SourceChanged(path)
    } else {
        ChangeView::Irrelevant
    }
}

/// Classifies a change at `path` against the workspace root, the active
/// session directory and the watch-set as they are now.
pub fn classify(root: &FilePath, session_dir: &FilePath, watched: &PathSet, path: &FilePath) -> (r:
    ChangeKind)
    ensures
        r@ == classify_path(root@, session_dir@, watched@, path@),
{
    if path.same(&pointer_path(root)) {
        ChangeKind::SessionSwitch
    } else if path.same(&snippets_path(session_dir)) {
        ChangeKind::SnippetsChanged
    } else if path.has_extension(NOTE_EXTENSION) && path.starts_with(&notes_path(session_dir)) {
        ChangeKind::MarkdownChanged(path.clone())
    } else if watched.contains(path) {
        ChangeKind::SourceChanged(path.clone())
    } else {
        ChangeKind::Irrelevant
    }
}

/// The changes that wait for the next flush.
#[derive(Debug)]
pub struct PendingChanges {
    session_switch: bool,
    snippets_reload: bool,
    markdown: PathSet,
    source: PathSet,
}

/// The mathematical value of [`PendingChanges`]: two flags and two sets.
pub struct PendingView {
    pub session_switch: bool,
    pub snippets_reload: bool,
    pub markdown: Set<PathView>,
    pub source: Set<PathView>,
}

/// Nothing pending.
pub open spec fn nothing_pending() -> PendingView {
    PendingView {
        session_switch: false,
        snippets_reload: false,
        markdown: Set::empty(),
        source: Set::empty(),
    }
}

/// `pending` after a change of kind `kind` was folded in.
pub open spec fn record_change(pending: PendingView, kind: ChangeView) -> PendingView {
    match kind {
        ChangeView::SessionSwitch => PendingView { session_switch: true, ..pending },
        ChangeView::SnippetsChanged => PendingView { snippets_reload: true, ..pending },
        ChangeView::MarkdownChanged(p) => PendingView {
            markdown: pending.markdown.insert(p),
            ..pending
        },
        ChangeView::SourceChanged(p) => PendingView { source: pending.source.insert(p), ..pending },
        ChangeView::Irrelevant => pending,
    }
}

/// One step of a flush.
#[derive(Debug)]
pub enum FlushStep {
    /// Switch to the session that the pointer names now.
    SwitchSession,
    /// Load the snippet list of the active session again.
    ReloadSnippets,
    /// Read these notes again.
    UpdateMarkdown(Vec<FilePath>),
    /// Read these source files again.
    UpdateSource(Vec<FilePath>),
}

/// The mathematical value of a [`FlushStep`].
pub enum StepView {
    SwitchSession,
    ReloadSnippets,
    UpdateMarkdown(Seq<PathView>),
    UpdateSource(Seq<PathView>),
}

impl View for FlushStep {
    type V = StepView;

    open spec fn view(&self) -> StepView {
        match self {
            FlushStep::SwitchSession => StepView::SwitchSession,
            FlushStep::ReloadSnippets => StepView::ReloadSnippets,
            FlushStep::UpdateMarkdown(paths) => StepView::UpdateMarkdown(path_views(paths@)),
            FlushStep::UpdateSource(paths) => StepView::UpdateSource(path_views(paths@)),
        }
    }
}

/// The values of a sequence of steps.
pub open spec fn step_views(v: Seq<FlushStep>) -> Seq<StepView> {
    Seq::new(v.len(), |i: int| v[i]@)
}

/// Whether `paths` lists every path of `set` exactly once.
pub open spec fn lists_paths(paths: Seq<PathView>, set: Set<PathView>) -> bool {
    paths.no_duplicates() && paths.to_set() == set
}

/// The source files to read again in a flush of `pending`: none when the
/// snippet list is loaded again, which reads every referenced file anyway.
pub open spec fn sources_due(pending: PendingView) -> Set<PathView> {
    if pending.snippets_reload {
        Set::empty()
    } else {
        pending.source
    }
}

/// How many steps a flush of `pending` has, when no session switch is
/// pending: one for each kind of change that is due.
pub open spec fn steps_due(pending: PendingView) -> nat {
    (if pending.snippets_reload {
        1nat
    } else {
        0nat
    }) + (if pending.markdown != Set::<PathView>::empty() {
        1nat
    } else {
        0nat
    }) + (if sources_due(pending) != Set::<PathView>::empty() {
        1nat
    } else {
        0nat
    })
}

/// Whether `plan` is what a flush of `pending` has to do, step by step. A
/// pending session switch is the only step. Else the steps are, in this
/// order and each only when it is due: the reload of the snippet list, the
/// notes to read again, the source files to read again; every pending path
/// is listed exactly once.
pub open spec fn plan_for(pending: PendingView, plan: Seq<StepView>) -> bool {
    if pending.session_switch {
        plan == seq![StepView::SwitchSession]
    } else {
        let first = if pending.snippets_reload {
            1int
        } else {
            0int
        };
        let second = if pending.markdown != Set::<PathView>::empty() {
            first + 1
        } else {
            first
        };
        &&& plan.len() == steps_due(pending)
        &&& pending.snippets_reload ==> plan[0] == StepView::ReloadSnippets
        &&& pending.markdown != Set::<PathView>::empty() ==> (plan[first] matches StepView::UpdateMarkdown(
            paths,
        ) && lists_paths(paths, pending.markdown))
        &&& sources_due(pending) != Set::<PathView>::empty() ==> (plan[second] matches StepView::UpdateSource(
            paths,
        ) && lists_paths(paths, pending.source))
    }
}

impl View for PendingChanges {
    type V = PendingView;

    closed spec fn view(&self) -> PendingView {
        PendingView {
            session_switch: self.session_switch,
            snippets_reload: self.snippets_reload,
            markdown: self.markdown@,
            source: self.source@,
        }
    }
}

impl PendingChanges {
    /// Nothing pending.
    pub fn new() -> (r: Self)
        ensures
            r@ == nothing_pending(),
    {
        PendingChanges {
            session_switch: false,
            snippets_reload: false,
            markdown: PathSet::new(),
            source: PathSet::new(),
        }
    }

    /// Whether nothing is pending.
    pub fn is_empty(&self) -> (r: bool)
        ensures
            r == (self@ == nothing_pending()),
    {
        !self.session_switch && !self.snippets_reload && self.markdown.is_empty()
            && self.source.is_empty()
    }

    /// These changes with one more folded in. A path that is pending already
    /// stays pending once.
    pub fn record(self, kind: ChangeKind) -> (r: Self)
        ensures
            r@ == record_change(self@, kind@),
    {
        let PendingChanges { session_switch, snippets_reload, markdown, source } = self;
        match kind {
            ChangeKind::SessionSwitch => PendingChanges {
                session_switch: true,
                snippets_reload,
                markdown,
                source,
            },
            ChangeKind::SnippetsChanged => PendingChanges {
                session_switch,
                snippets_reload: true,
                markdown,
                source,
            },
            ChangeKind::MarkdownChanged(p) => PendingChanges {
                session_switch,
                snippets_reload,
                markdown: markdown.insert(p),
                source,
            },
            ChangeKind::SourceChanged(p) => PendingChanges {
                session_switch,
                snippets_reload,
                markdown,
                source: source.insert(p),
            },
            ChangeKind::Irrelevant => PendingChanges {
                session_switch,
                snippets_reload,
                markdown,
                source,
            },
        }
    }

    /// Whether a session switch is pending.
    pub fn switch_pending(&self) -> (r: bool)
        ensures
            r == self@.session_switch,
    {
        self.session_switch
    }

    /// What a flush has to do now, step by step.
    pub fn plan(&self) -> (r: Vec<FlushStep>)
        ensures
            plan_for(self@, step_views(r@)),
    {
        let mut steps: Vec<FlushStep> = Vec::new();
        if self.session_switch {
            steps.push(FlushStep::SwitchSession);
            assert(step_views(steps@) =~= seq![StepView::SwitchSession]);
            return steps;
        }
        if self.snippets_reload {
            steps.push(FlushStep::ReloadSnippets);
        }
        if !self.markdown.is_empty() {
            steps.push(FlushStep::UpdateMarkdown(clone_paths(self.markdown.paths())));
        }
        if !self.snippets_reload && !self.source.is_empty() {
            steps.push(FlushStep::UpdateSource(clone_paths(self.source.paths())));
        }
        steps
    }
}

} // verus!
