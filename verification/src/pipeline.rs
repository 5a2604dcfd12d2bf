//! The run: an optional compile phase, then a delete phase.
//!
//! The pipeline decides and its caller acts. The caller hands over what happened as an
//! `Event` and gets back the `Action` to perform: which tree to walk, which file to
//! compile or delete, what to report. The pipeline itself touches no file and starts
//! no process.

use vstd::prelude::*;
use crate::file_matcher::{match_result, rule_map, well_formed, FileMatcher, MatchError};
use crate::summary::Summary;

verus! {

/// What a run is asked to do.
#[derive(Debug, Clone, PartialEq, Eq)]
pub struct Args {
    /// The directory to clean.
    pub path: String,
    /// Whether to compile the documents before cleaning.
    pub update: bool,
}

/// Where a run stands.
#[derive(Debug, Clone, Copy, PartialEq, Eq, Structural)]
pub enum Phase {
    /// Not started.
    Idle,
    /// Walking the tree to compile documents.
    Compiling,
    /// Walking the tree to delete byproducts.
    Deleting,
    /// Over.
    Done,
}

/// How a compilation ended.
#[derive(Debug, Clone, Copy, PartialEq, Eq, Structural)]
pub enum CompileOutcome {
    /// The compiler ran and reported success.
    Succeeded,
    /// The compiler ran and reported failure.
    Failed,
    /// The compiler could not be started.
    NotStarted,
}

/// What there is to tell about one file.
#[derive(Debug, Clone, Copy, PartialEq, Eq, Structural)]
pub enum Notice {
    /// The document has no parent directory to compile it in; it was skipped.
    NoParent,
    /// The document was compiled.
    Compiled,
    /// The compiler failed on the document.
    CompileFailed,
    /// The compiler could not be started for the document.
    CompilerNotStarted,
    /// The file was removed.
    Removed,
    /// The file could not be removed.
    RemoveFailed,
}

/// What happened outside the pipeline.
#[derive(Debug, Clone, PartialEq, Eq)]
pub enum Event {
    /// The run is to begin.
    Start,
    /// The walk came upon `path`, whose parent directory is `parent`.
    Entry { path: String, parent: Option<String> },
    /// The compilation of `path` ended.
    Compiled { path: String, outcome: CompileOutcome },
    /// The deletion of `path` was tried.
    Deleted { path: String, removed: bool },
    /// The walk has handed over its last entry.
    WalkEnded,
    /// The user asked the run to stop.
    Interrupt,
}

/// What the caller is to do next.
#[derive(Debug, Clone, PartialEq, Eq)]
pub enum Action {
    /// Nothing.
    Nothing,
    /// `phase` begins: report `summary`, where there is one, then walk the tree under
    /// `root` and hand over each entry.
    Walk { phase: Phase, summary: Option<Summary>, root: String },
    /// Compile the document `file` in the directory `dir`, and hand over the outcome.
    Compile { dir: String, file: String },
    /// Delete the file `path`, and hand over whether it went.
    Delete { path: String },
    /// Tell the user `notice` about `path`.
    Report { notice: Notice, path: String },
    /// Report `summary`, where there is one, and end the run.
    Stop { summary: Option<Summary> },
}

/// An event as the contracts see it.
pub enum EventView {
    Start,
    Entry { path: Seq<char>, parent: Option<Seq<char>> },
    Compiled { path: Seq<char>, outcome: CompileOutcome },
    Deleted { path: Seq<char>, removed: bool },
    WalkEnded,
    Interrupt,
}

/// An action as the contracts see it. A summary is the list of the files that failed.
pub enum ActionView {
    Nothing,
    Walk { phase: Phase, summary: Option<Seq<Seq<char>>>, root: Seq<char> },
    Compile { dir: Seq<char>, file: Seq<char> },
    Delete { path: Seq<char> },
    Report { notice: Notice, path: Seq<char> },
    Stop { summary: Option<Seq<Seq<char>>> },
}

/// The text of an optional string.
pub open spec fn text_of(s: Option<String>) -> Option<Seq<char>> {
    match s {
        Some(s) => Some(s@),
        None => None,
    }
}

/// The failed files of an optional summary.
pub open spec fn failed_of(s: Option<Summary>) -> Option<Seq<Seq<char>>> {
    match s {
        Some(s) => Some(s@),
        None => None,
    }
}

impl View for Event {
    type V = EventView;

    open spec fn view(&self) -> EventView {
        match *self {
            Event::Start => EventView::Start,
            Event::Entry { path, parent } => EventView::Entry {
                path: path@,
                parent: text_of(parent),
            },
            Event::Compiled { path, outcome } => EventView::Compiled { path: path@, outcome },
            Event::Deleted { path, removed } => EventView::Deleted { path: path@, removed },
            Event::WalkEnded => EventView::WalkEnded,
            Event::Interrupt => EventView::Interrupt,
        }
    }
}

impl View for Action {
    type V = ActionView;

    open spec fn view(&self) -> ActionView {
        match *self {
            Action::Nothing => ActionView::Nothing,
            Action::Walk { phase, summary, root } => ActionView::Walk {
                phase,
                summary: failed_of(summary),
                root: root@,
            },
            Action::Compile { dir, file } => ActionView::Compile { dir: dir@, file: file@ },
            Action::Delete { path } => ActionView::Delete { path: path@ },
            Action::Report { notice, path } => ActionView::Report { notice, path: path@ },
            Action::Stop { summary } => ActionView::Stop { summary: failed_of(summary) },
        }
    }
}

/// What a run was set up with. It stays the same throughout the run.
pub struct Config {
    /// The directory to clean.
    pub root: Seq<char>,
    /// Whether the run has a compile phase.
    pub update: bool,
    /// The rules that select the documents to compile.
    pub compile_rules: Map<Seq<char>, Seq<Seq<char>>>,
    /// The rules that select the files to delete.
    pub delete_rules: Map<Seq<char>, Seq<Seq<char>>>,
}

/// What changes during a run.
pub struct State {
    /// Where the run stands.
    pub phase: Phase,
    /// The files that failed in the current phase so far, in the order of their failing.
    pub failures: Seq<Seq<char>>,
}

/// The rules select `path`. A path that the rules cannot judge is not selected.
pub open spec fn selected(rules: Map<Seq<char>, Seq<Seq<char>>>, path: Seq<char>) -> bool {
    match_result(rules, path) == Ok::<bool, MatchError>(true)
}

/// The state before the run begins.
pub open spec fn initial() -> State {
    State { phase: Phase::Idle, failures: Seq::empty() }
}

/// The state after `event` and the action that answers it.
///
/// - `Start` begins the compile phase where the run has one, else the delete phase.
/// - An `Entry` that the rules of the phase select is answered by `Compile` or `Delete`.
///   A document without a parent directory is reported and passed over.
/// - A compilation or deletion that failed is recorded and reported; the phase goes on.
/// - `WalkEnded` ends the phase. The compile phase hands out what failed in it for the
///   summary and the delete phase begins with nothing recorded; after the delete phase
///   the run is over.
/// - `Interrupt` ends the run. In a phase it hands out what has failed there so far;
///   before the start, and once the run is over, it hands out nothing.
/// - An event that does not belong to the phase changes nothing and is answered by
///   `Nothing`.
pub open spec fn next(c: Config, s: State, event: EventView) -> (State, ActionView) {
    match (s.phase, event) {
        (Phase::Idle, EventView::Start) => {
            let phase = if c.update {
                Phase::Compiling
            } else {
                Phase::Deleting
            };
            (
                State { phase, failures: Seq::empty() },
                ActionView::Walk { phase, summary: None, root: c.root },
            )
        },
        (Phase::Compiling, EventView::Entry { path, parent }) => {
            if !selected(c.compile_rules, path) {
                (s, ActionView::Nothing)
            } else {
                match parent {
                    Some(dir) => (s, ActionView::Compile { dir, file: path }),
                    None => (s, ActionView::Report { notice: Notice::NoParent, path }),
                }
            }
        },
        (Phase::Compiling, EventView::Compiled { path, outcome }) => {
            let failed = State { phase: s.phase, failures: s.failures.push(path) };
            match outcome {
                CompileOutcome::Succeeded => (
                    s,
                    ActionView::Report { notice: Notice::Compiled, path },
                ),
                CompileOutcome::Failed => (
                    failed,
                    ActionView::Report { notice: Notice::CompileFailed, path },
                ),
                CompileOutcome::NotStarted => (
                    failed,
                    ActionView::Report { notice: Notice::CompilerNotStarted, path },
                ),
            }
        },
        (Phase::Compiling, EventView::WalkEnded) => (
            State { phase: Phase::Deleting, failures: Seq::empty() },
            ActionView::Walk { phase: Phase::Deleting, summary: Some(s.failures), root: c.root },
        ),
        (Phase::Deleting, EventView::Entry { path, .. }) => {
            if selected(c.delete_rules, path) {
                (s, ActionView::Delete { path })
            } else {
                (s, ActionView::Nothing)
            }
        },
        (Phase::Deleting, EventView::Deleted { path, removed }) => {
            if removed {
                (s, ActionView::Report { notice: Notice::Removed, path })
            } else {
                (
                    State { phase: s.phase, failures: s.failures.push(path) },
                    ActionView::Report { notice: Notice::RemoveFailed, path },
                )
            }
        },
        (Phase::Deleting, EventView::WalkEnded) => (
            State { phase: Phase::Done, failures: Seq::empty() },
            ActionView::Stop { summary: None },
        ),
        (Phase::Compiling, EventView::Interrupt) | (Phase::Deleting, EventView::Interrupt) => (
            State { phase: Phase::Done, failures: Seq::empty() },
            ActionView::Stop { summary: Some(s.failures) },
        ),
        (_, EventView::Interrupt) => (
            State { phase: Phase::Done, failures: Seq::empty() },
            ActionView::Stop { summary: None },
        ),
        _ => (s, ActionView::Nothing),
    }
}

/// How far along the run a phase is.
pub open spec fn rank(phase: Phase) -> int {
    match phase {
        Phase::Idle => 0,
        Phase::Compiling => 1,
        Phase::Deleting => 2,
        Phase::Done => 3,
    }
}

/// The state that `events`, taken in one after the other, lead to from `s`.
pub open spec fn state_after(c: Config, s: State, events: Seq<EventView>) -> State
    decreases events.len(),
{
    if events.len() == 0 {
        s
    } else {
        next(c, state_after(c, s, events.drop_last()), events.last()).0
    }
}

/// The action that answers the event at position `i` of a run that starts in `s`.
pub open spec fn action_at(c: Config, s: State, events: Seq<EventView>, i: int) -> ActionView {
    next(c, state_after(c, s, events.take(i)), events[i]).1
}

/// A run never goes back to an earlier phase, and only the start, the end of a walk and
/// an interrupt take it to another one.
pub proof fn lemma_phases_in_order(c: Config, s: State, event: EventView)
    ensures
        rank(s.phase) <= rank(next(c, s, event).0.phase),
        next(c, s, event).0.phase != s.phase ==> event is Start || event is WalkEnded
            || event is Interrupt,
{
}

/// A document is handed to the compiler only in the compile phase, and only one that the
/// compile rules select; a file is handed over for deletion only in the delete phase,
/// and only one that the delete rules select.
pub proof fn lemma_action_belongs_to_phase(c: Config, s: State, event: EventView)
    ensures
        next(c, s, event).1 matches ActionView::Compile { file, .. } ==> s.phase
            == Phase::Compiling && selected(c.compile_rules, file),
        next(c, s, event).1 matches ActionView::Delete { path } ==> s.phase == Phase::Deleting
            && selected(c.delete_rules, path),
{
}

/// Over a run the phase only moves forward.
pub proof fn lemma_run_moves_forward(c: Config, s: State, events: Seq<EventView>, i: int, j: int)
    requires
        0 <= i <= j <= events.len(),
    ensures
        rank(state_after(c, s, events.take(i)).phase) <= rank(
            state_after(c, s, events.take(j)).phase,
        ),
    decreases j - i,
{
    if i < j {
        lemma_run_moves_forward(c, s, events, i, j - 1);
        let upto = events.take(j);
        assert(upto.drop_last() =~= events.take(j - 1));
        lemma_phases_in_order(c, state_after(c, s, events.take(j - 1)), upto.last());
    }
}

/// Once the delete phase has begun, no document is compiled any more: no `Compile` follows
/// the action that begins the delete phase, and none follows a `Delete`.
pub proof fn lemma_no_compile_after_delete(
    c: Config,
    s: State,
    events: Seq<EventView>,
    i: int,
    j: int,
)
    requires
        0 <= i < j < events.len(),
        action_at(c, s, events, i) is Delete || (action_at(c, s, events, i) matches ActionView::Walk {
            phase,
            ..
        } && phase == Phase::Deleting),
    ensures
        !(action_at(c, s, events, j) is Compile),
{
    let upto = events.take(i + 1);
    assert(upto.drop_last() =~= events.take(i));
    assert(upto.last() == events[i]);
    lemma_action_belongs_to_phase(c, state_after(c, s, events.take(i)), events[i]);
    lemma_phases_in_order(c, state_after(c, s, events.take(i)), events[i]);
    lemma_action_belongs_to_phase(c, state_after(c, s, events.take(j)), events[j]);
    lemma_run_moves_forward(c, s, events, i + 1, j);
}

/// In a run with a compile phase, the delete phase is entered by the action that reports
/// the summary of the compile phase, and nowhere else.
proof fn lemma_deleting_follows_summary(c: Config, events: Seq<EventView>, n: int)
    requires
        c.update,
        0 <= n <= events.len(),
        state_after(c, initial(), events.take(n)).phase == Phase::Deleting,
    ensures
        exists|i: int|
            0 <= i < n && state_after(c, initial(), events.take(i)).phase == Phase::Compiling
                && #[trigger] action_at(c, initial(), events, i) == (ActionView::Walk {
                phase: Phase::Deleting,
                summary: Some(state_after(c, initial(), events.take(i)).failures),
                root: c.root,
            }),
    decreases n,
{
    if n == 0 {
        assert(events.take(0) =~= Seq::empty());
    } else {
        let upto = events.take(n);
        assert(upto.drop_last() =~= events.take(n - 1));
        assert(upto.last() == events[n - 1]);
        let before = state_after(c, initial(), events.take(n - 1));
        if before.phase == Phase::Deleting {
            lemma_deleting_follows_summary(c, events, n - 1);
        } else {
            assert(before.phase == Phase::Compiling);
            assert(action_at(c, initial(), events, n - 1) == (ActionView::Walk {
                phase: Phase::Deleting,
                summary: Some(before.failures),
                root: c.root,
            }));
        }
    }
}

/// In a run with a compile phase, before any file is handed over for deletion the compile
/// phase has ended and its failures have been handed out for the summary.
pub proof fn lemma_summary_before_delete(c: Config, events: Seq<EventView>, j: int)
    requires
        c.update,
        0 <= j < events.len(),
        action_at(c, initial(), events, j) is Delete,
    ensures
        exists|i: int|
            0 <= i < j && state_after(c, initial(), events.take(i)).phase == Phase::Compiling
                && #[trigger] action_at(c, initial(), events, i) == (ActionView::Walk {
                phase: Phase::Deleting,
                summary: Some(state_after(c, initial(), events.take(i)).failures),
                root: c.root,
            }),
{
    lemma_action_belongs_to_phase(c, state_after(c, initial(), events.take(j)), events[j]);
    lemma_deleting_follows_summary(c, events, j);
}

/// A run without a compile phase never hands a document to the compiler.
pub proof fn lemma_no_compile_without_update(c: Config, events: Seq<EventView>, j: int)
    requires
        !c.update,
        0 <= j < events.len(),
    ensures
        !(action_at(c, initial(), events, j) is Compile),
        state_after(c, initial(), events.take(j)).phase != Phase::Compiling,
    decreases j,
{
    if j == 0 {
        assert(events.take(0) =~= Seq::empty());
    } else {
        lemma_no_compile_without_update(c, events, j - 1);
        let upto = events.take(j);
        assert(upto.drop_last() =~= events.take(j - 1));
        assert(upto.last() == events[j - 1]);
    }
}

/// The files that `events` report as failed to a run in `phase`, in the order of the
/// events: failed compilations in the compile phase, failed deletions in the delete phase.
pub open spec fn failed_in(phase: Phase, events: Seq<EventView>) -> Seq<Seq<char>>
    decreases events.len(),
{
    if events.len() == 0 {
        Seq::empty()
    } else {
        let earlier = failed_in(phase, events.drop_last());
        match (phase, events.last()) {
            (Phase::Compiling, EventView::Compiled { path, outcome }) => {
                if outcome == CompileOutcome::Succeeded {
                    earlier
                } else {
                    earlier.push(path)
                }
            },
            (Phase::Deleting, EventView::Deleted { path, removed }) => {
                if removed {
                    earlier
                } else {
                    earlier.push(path)
                }
            },
            _ => earlier,
        }
    }
}

/// While a walk goes on, the run stays in its phase and records exactly the files that
/// failed, in the order in which they failed.
pub proof fn lemma_phase_records_its_failures(c: Config, s: State, events: Seq<EventView>)
    requires
        s.phase == Phase::Compiling || s.phase == Phase::Deleting,
        forall|i: int|
            0 <= i < events.len() ==> !(#[trigger] events[i] is WalkEnded) && !(events[i]
                is Interrupt),
    ensures
        state_after(c, s, events) == (State {
            phase: s.phase,
            failures: s.failures + failed_in(s.phase, events),
        }),
    decreases events.len(),
{
    if events.len() == 0 {
        assert(s.failures + Seq::<Seq<char>>::empty() =~= s.failures);
    } else {
        let front = events.drop_last();
        assert forall|i: int| 0 <= i < front.len() implies !(#[trigger] front[i] is WalkEnded)
            && !(front[i] is Interrupt) by {
            assert(front[i] == events[i]);
        }
        lemma_phase_records_its_failures(c, s, front);
        assert(events.last() == events[events.len() - 1]);
        let earlier = failed_in(s.phase, front);
        match events.last() {
            EventView::Compiled { path, .. } => {
                assert((s.failures + earlier).push(path) =~= s.failures + earlier.push(path));
            },
            EventView::Deleted { path, .. } => {
                assert((s.failures + earlier).push(path) =~= s.failures + earlier.push(path));
            },
            _ => {},
        }
    }
}

/// A failure does not end the phase: the failed file is recorded, the run stays in its
/// phase, and an entry that comes afterwards is answered as it would have been before.
pub proof fn lemma_failure_does_not_stop_phase(
    c: Config,
    s: State,
    failure: EventView,
    entry: EventView,
)
    requires
        s.phase == Phase::Compiling || s.phase == Phase::Deleting,
        match failure {
            EventView::Compiled { outcome, .. } => outcome != CompileOutcome::Succeeded,
            EventView::Deleted { removed, .. } => !removed,
            _ => false,
        },
        entry is Entry,
    ensures
        next(c, s, failure).0.phase == s.phase,
        next(c, next(c, s, failure).0, entry).1 == next(c, s, entry).1,
        next(c, next(c, s, failure).0, entry).0 == next(c, s, failure).0,
{
}

/// In its phase every selected entry is acted upon, whatever has failed before: a
/// selected document with a parent directory is compiled, a selected file is deleted.
pub proof fn lemma_selected_entry_is_processed(
    c: Config,
    s: State,
    path: Seq<char>,
    parent: Option<Seq<char>>,
)
    ensures
        s.phase == Phase::Compiling && selected(c.compile_rules, path) ==> next(
            c,
            s,
            EventView::Entry { path, parent },
        ).1 == match parent {
            Some(dir) => ActionView::Compile { dir, file: path },
            None => ActionView::Report { notice: Notice::NoParent, path },
        },
        s.phase == Phase::Deleting && selected(c.delete_rules, path) ==> next(
            c,
            s,
            EventView::Entry { path, parent },
        ).1 == (ActionView::Delete { path }),
{
}

/// The rules for the documents to compile: every file with the extension `tex`.
pub open spec fn compile_rule_map() -> Map<Seq<char>, Seq<Seq<char>>> {
    map!["tex"@ => Seq::empty()]
}

/// The rules for the files to delete: every file with the extension `aux` or `log`, and
/// every file with the extension `gz` whose path contains `synctex`.
pub open spec fn delete_rule_map() -> Map<Seq<char>, Seq<Seq<char>>> {
    map!["aux"@ => Seq::empty(), "log"@ => Seq::empty(), "gz"@ => seq!["synctex"@]]
}

/// The matcher for the documents to compile.
pub fn compile_rules() -> (r: Result<FileMatcher, MatchError>)
    ensures
        r matches Ok(m) && m@ == compile_rule_map(),
{
    let tex: [&str; 1] = ["tex"];
    let defs: [&[&str]; 1] = [tex.as_slice()];
    let list = defs.as_slice();
    let r = FileMatcher::try_from(list);
    proof {
        let d = list.deep_view();
        assert(d.len() == 1);
        assert(d[0] =~= seq!["tex"@]);
        assert(d[0].skip(1) =~= Seq::empty());
        assert(d.drop_last() =~= Seq::empty());
        assert(well_formed(d));
        reveal_with_fuel(rule_map, 2);
        assert(rule_map(d) =~= compile_rule_map());
    }
    r
}

/// The matcher for the files to delete.
pub fn delete_rules() -> (r: Result<FileMatcher, MatchError>)
    ensures
        r matches Ok(m) && m@ == delete_rule_map(),
{
    let aux: [&str; 1] = ["aux"];
    let log: [&str; 1] = ["log"];
    let gz: [&str; 2] = ["gz", "synctex"];
    let defs: [&[&str]; 3] = [aux.as_slice(), log.as_slice(), gz.as_slice()];
    let list = defs.as_slice();
    let r = FileMatcher::try_from(list);
    proof {
        let d = list.deep_view();
        assert(d.len() == 3);
        assert(d[0] =~= seq!["aux"@]);
        assert(d[1] =~= seq!["log"@]);
        assert(d[2] =~= seq!["gz"@, "synctex"@]);
        assert(d[0].skip(1) =~= Seq::empty());
        assert(d[1].skip(1) =~= Seq::empty());
        assert(d[2].skip(1) =~= seq!["synctex"@]);
        assert(well_formed(d));
        let d2 = d.drop_last();
        let d1 = d2.drop_last();
        assert(d2.last() == d[1] && d1.last() == d[0]);
        assert(d1.drop_last() =~= Seq::empty());
        assert(rule_map(d1.drop_last()) =~= Map::empty());
        assert(rule_map(d1) =~= Map::empty().insert("aux"@, Seq::empty()));
        assert(rule_map(d2) =~= rule_map(d1).insert("log"@, Seq::empty()));
        assert(rule_map(d) =~= rule_map(d2).insert("gz"@, seq!["synctex"@]));
        assert(rule_map(d) =~= delete_rule_map());
    }
    r
}

/// A run: its rules, where it stands, and what has failed in the current phase.
pub struct Pipeline {
    root: String,
    update: bool,
    compile_rules: FileMatcher,
    delete_rules: FileMatcher,
    phase: Phase,
    failures: Vec<String>,
}

impl Pipeline {
    /// What the run was set up with.
    pub closed spec fn config(&self) -> Config {
        Config {
            root: self.root@,
            update: self.update,
            compile_rules: self.compile_rules@,
            delete_rules: self.delete_rules@,
        }
    }

    /// Where the run stands and what has failed.
    pub closed spec fn state(&self) -> State {
        State { phase: self.phase, failures: self.failures.deep_view() }
    }

    /// A run over `args.path` that has not begun. It compiles what `compile_rules` select,
    /// if `args.update` asks for it, and then deletes what `delete_rules` select.
    pub fn new(args: Args, compile_rules: FileMatcher, delete_rules: FileMatcher) -> (p: Pipeline)
        ensures
            p.config() == (Config {
                root: args.path@,
                update: args.update,
                compile_rules: compile_rules@,
                delete_rules: delete_rules@,
            }),
            p.state() == initial(),
    {
        let p = Pipeline {
            root: args.path,
            update: args.update,
            compile_rules,
            delete_rules,
            phase: Phase::Idle,
            failures: Vec::new(),
        };
        assert(p.failures.deep_view() =~= Seq::empty());
        p
    }

    /// Where the run stands.
    pub fn phase(&self) -> (phase: Phase)
        ensures
            phase == self.state().phase,
    {
        self.phase
    }

    /// Takes the failures recorded so far out of the pipeline, as a summary.
    fn take_failures(&mut self) -> (s: Summary)
        ensures
            s@ == old(self).state().failures,
            final(self).state() == (State { phase: old(self).state().phase, failures: Seq::empty() }),
            final(self).config() == old(self).config(),
    {
        let mut failed: Vec<String> = Vec::new();
        core::mem::swap(&mut self.failures, &mut failed);
        assert(self.failures.deep_view() =~= Seq::empty());
        Summary::new(failed)
    }

    /// Records that `path` failed in the current phase.
    fn record_failure(&mut self, path: String)
        ensures
            final(self).state() == (State {
                phase: old(self).state().phase,
                failures: old(self).state().failures.push(path@),
            }),
            final(self).config() == old(self).config(),
    {
        let ghost before = self.failures.deep_view();
        self.failures.push(path);
        assert(self.failures.deep_view() =~= before.push(path@));
    }

    /// Takes in `event`, moves on, and answers with the action to perform.
    pub fn step(&mut self, event: Event) -> (action: Action)
        ensures
            final(self).config() == old(self).config(),
            (final(self).state(), action@) == next(old(self).config(), old(self).state(), event@),
    {
        match event {
            Event::Start => {
                match self.phase {
                    Phase::Idle => {
                        let phase = if self.update {
                            Phase::Compiling
                        } else {
                            Phase::Deleting
                        };
                        let _ = self.take_failures();
                        self.phase = phase;
                        Action::Walk { phase, summary: None, root: self.root.clone() }
                    },
                    _ => Action::Nothing,
                }
            },
            Event::Entry { path, parent } => {
                match self.phase {
                    Phase::Compiling => {
                        match self.compile_rules.matches(path.as_str()) {
                            Ok(true) => match parent {
                                Some(dir) => Action::Compile { dir, file: path },
                                None => Action::Report { notice: Notice::NoParent, path },
                            },
                            _ => Action::Nothing,
                        }
                    },
                    Phase::Deleting => {
                        match self.delete_rules.matches(path.as_str()) {
                            Ok(true) => Action::Delete { path },
                            _ => Action::Nothing,
                        }
                    },
                    _ => Action::Nothing,
                }
            },
            Event::Compiled { path, outcome } => {
                match self.phase {
                    Phase::Compiling => {
                        match outcome {
                            CompileOutcome::Succeeded => Action::Report {
                                notice: Notice::Compiled,
                                path,
                            },
                            CompileOutcome::Failed => {
                                self.record_failure(path.clone());
                                Action::Report { notice: Notice::CompileFailed, path }
                            },
                            CompileOutcome::NotStarted => {
                                self.record_failure(path.clone());
                                Action::Report { notice: Notice::CompilerNotStarted, path }
                            },
                        }
                    },
                    _ => Action::Nothing,
                }
            },
            Event::Deleted { path, removed } => {
                match self.phase {
                    Phase::Deleting => {
                        if removed {
                            Action::Report { notice: Notice::Removed, path }
                        } else {
                            self.record_failure(path.clone());
                            Action::Report { notice: Notice::RemoveFailed, path }
                        }
                    },
                    _ => Action::Nothing,
                }
            },
            Event::WalkEnded => {
                match self.phase {
                    Phase::Compiling => {
                        let summary = self.take_failures();
                        self.phase = Phase::Deleting;
                        Action::Walk {
                            phase: Phase::Deleting,
                            summary: Some(summary),
                            root: self.root.clone(),
                        }
                    },
                    Phase::Deleting => {
                        let _ = self.take_failures();
                        self.phase = Phase::Done;
                        Action::Stop { summary: None }
                    },
                    _ => Action::Nothing,
                }
            },
            Event::Interrupt => {
                let summary = self.take_failures();
                let running = match self.phase {
                    Phase::Compiling => true,
                    Phase::Deleting => true,
                    _ => false,
                };
                self.phase = Phase::Done;
                if running {
                    Action::Stop { summary: Some(summary) }
                } else {
                    Action::Stop { summary: None }
                }
            },
        }
    }
}

} // verus!
