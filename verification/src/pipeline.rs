//! The pipeline executor, as a step-by-step decision machine.
//!
//! The machine walks the parsed stages in order. At each point it offers
//! the next action — skip a no-op stage, change directory, stop on `exit`,
//! spawn an external command with its stream wiring, or wait on the last
//! spawned process — and the caller, having performed the action against
//! the operating system, reports the outcome, which advances the machine.
//! At most one spawned process is tracked at a time: the producer side of
//! the in-flight pipe.

use vstd::prelude::*;
use crate::parse::{Stage, StageView, parse_line_spec, stage_views_of};
use crate::cwd::{spec_tilde_expand, raw_cd_target, resolve_cd_target};

verus! {

/// The command name of the directory-change built-in.
pub open spec fn cd_name() -> Seq<char> {
    seq!['c', 'd']
}

/// The command name of the terminate built-in.
pub open spec fn exit_name() -> Seq<char> {
    seq!['e', 'x', 'i', 't']
}

/// A stage that is dispatched to the operating system: its command is
/// non-empty and names neither built-in.
pub open spec fn is_external(st: StageView) -> bool {
    st.command.len() > 0 && st.command != cd_name() && st.command != exit_name()
}

/// What the executor asks of its caller next.
pub enum Action {
    /// The stage has no command: nothing to do.
    NoOp,
    /// Change the working directory to `target` (already tilde-expanded);
    /// report failure to the error stream, and carry on either way.
    ChangeDir { target: String },
    /// Stop this pipeline at once, skipping the remaining stages.
    Exit,
    /// Spawn the external command. Its standard input is the previous
    /// stage's output pipe when `stdin_from_pipe`, else the terminal; its
    /// standard output is a pipe for the next stage when `stdout_to_pipe`,
    /// else the terminal. Report a failed spawn to the error stream, and
    /// carry on either way.
    Spawn { command: String, args: Vec<String>, stdin_from_pipe: bool, stdout_to_pipe: bool },
    /// Block until the last spawned process exits; its status is dropped.
    Wait,
    /// The pipeline is fully processed and drained.
    Done,
}

/// What the caller reports back after performing an action.
pub enum Outcome {
    /// A no-op stage was passed over.
    Skipped,
    /// The directory change was attempted; `ok` says whether the operating
    /// system accepted it.
    DirChanged { ok: bool },
    /// The `exit` built-in was acknowledged.
    Exited,
    /// The spawn was attempted; `ok` says whether a process started.
    Spawned { ok: bool },
    /// The last spawned process has exited.
    Waited,
}

/// The executor's state, at the specification level.
pub struct ExecModel {
    pub stages: Seq<StageView>,
    pub home: Option<Seq<char>>,
    pub index: int,
    pub has_prev: bool,
    pub finished: bool,
}

/// The state a pipeline execution starts from.
pub open spec fn init_model(stages: Seq<StageView>, home: Option<Seq<char>>) -> ExecModel {
    ExecModel { stages, home, index: 0, has_prev: false, finished: false }
}

/// An action, at the specification level.
pub enum ActView {
    NoOp,
    Cd { target: Seq<char> },
    Exit,
    Spawn { command: Seq<char>, args: Seq<Seq<char>>, stdin_from_pipe: bool, stdout_to_pipe: bool },
    Wait,
    Done,
}

/// The view of an action.
pub open spec fn act_view(a: Action) -> ActView {
    match a {
        Action::NoOp => ActView::NoOp,
        Action::ChangeDir { target } => ActView::Cd { target: target@ },
        Action::Exit => ActView::Exit,
        Action::Spawn { command, args, stdin_from_pipe, stdout_to_pipe } => ActView::Spawn {
            command: command@,
            args: args.deep_view(),
            stdin_from_pipe,
            stdout_to_pipe,
        },
        Action::Wait => ActView::Wait,
        Action::Done => ActView::Done,
    }
}

/// The action the executor offers in a given state: the current stage's
/// dispatch while stages remain, then one wait if a process is in flight,
/// then done. An `exit` already seen means done at once, without draining.
pub open spec fn model_next(m: ExecModel) -> ActView {
    if m.finished {
        ActView::Done
    } else if 0 <= m.index < m.stages.len() {
        let st = m.stages[m.index];
        if st.command.len() == 0 {
            ActView::NoOp
        } else if st.command == cd_name() {
            ActView::Cd { target: spec_tilde_expand(raw_cd_target(st), m.home) }
        } else if st.command == exit_name() {
            ActView::Exit
        } else {
            ActView::Spawn {
                command: st.command,
                args: st.args,
                stdin_from_pipe: m.has_prev,
                stdout_to_pipe: m.index + 1 < m.stages.len(),
            }
        }
    } else if m.has_prev {
        ActView::Wait
    } else {
        ActView::Done
    }
}

/// The outcome answers the offered action.
pub open spec fn outcome_fits(a: ActView, o: Outcome) -> bool {
    match a {
        ActView::NoOp => o is Skipped,
        ActView::Cd { .. } => o is DirChanged,
        ActView::Exit => o is Exited,
        ActView::Spawn { .. } => o is Spawned,
        ActView::Wait => o is Waited,
        ActView::Done => false,
    }
}

/// How an outcome advances the state: a passed stage moves the index on;
/// `cd` clears the previous-process slot whether or not it succeeded; a
/// spawn fills the slot exactly when a process started; `exit` and the
/// final wait finish the run.
pub open spec fn model_apply(m: ExecModel, o: Outcome) -> ExecModel {
    match o {
        Outcome::Skipped => ExecModel { index: m.index + 1, ..m },
        Outcome::DirChanged { ok: _ } => ExecModel { index: m.index + 1, has_prev: false, ..m },
        Outcome::Exited => ExecModel { finished: true, ..m },
        Outcome::Spawned { ok } => ExecModel { index: m.index + 1, has_prev: ok, ..m },
        Outcome::Waited => ExecModel { has_prev: false, finished: true, ..m },
    }
}

/// A bound on how many steps a run has left, used to show that every run
/// of the machine terminates.
pub open spec fn model_rank(m: ExecModel) -> nat {
    if m.finished {
        0
    } else {
        ((if m.index <= m.stages.len() {
            2 * (m.stages.len() - m.index)
        } else {
            0
        }) + 1 + (if m.has_prev {
            1int
        } else {
            0int
        })) as nat
    }
}

/// The whole run of the machine from a given state, as the sequence of
/// actions it offers, given the result each spawn would have: `spawn_ok[i]`
/// says whether the stage at index `i` starts a process when asked to. The
/// outcome of a directory change does not bear on the run, so successful
/// ones are fed in.
pub open spec fn model_trace(m: ExecModel, spawn_ok: Seq<bool>) -> Seq<ActView>
    decreases model_rank(m),
{
    let a = model_next(m);
    match a {
        ActView::Done => Seq::<ActView>::empty(),
        ActView::NoOp => seq![a] + model_trace(model_apply(m, Outcome::Skipped), spawn_ok),
        ActView::Cd { .. } => seq![a] + model_trace(
            model_apply(m, Outcome::DirChanged { ok: true }),
            spawn_ok,
        ),
        ActView::Exit => seq![a] + model_trace(model_apply(m, Outcome::Exited), spawn_ok),
        ActView::Spawn { .. } => seq![a] + model_trace(
            model_apply(m, Outcome::Spawned { ok: spawn_ok[m.index] }),
            spawn_ok,
        ),
        ActView::Wait => seq![a] + model_trace(model_apply(m, Outcome::Waited), spawn_ok),
    }
}

/// From a state whose remaining stages are all external commands and whose
/// spawns all succeed, the run offers one spawn per remaining stage and a
/// single final wait: the stage at `index + j` reads the terminal only when
/// it is the very first and no process is in flight, and writes to a pipe
/// exactly when a stage follows it.
pub proof fn lemma_external_run(m: ExecModel, spawn_ok: Seq<bool>)
    requires
        !m.finished,
        0 <= m.index <= m.stages.len(),
        forall|j: int| m.index <= j < m.stages.len() ==> is_external(#[trigger] m.stages[j]),
        forall|j: int| m.index <= j < m.stages.len() ==> #[trigger] spawn_ok[j] == true,
    ensures
        ({
            let k = m.stages.len() - m.index;
            let t = model_trace(m, spawn_ok);
            if k == 0 && !m.has_prev {
                t == Seq::<ActView>::empty()
            } else {
                t.len() == k + 1 && t[k] == ActView::Wait && (forall|j: int|
                    0 <= j < k ==> t[j] == (ActView::Spawn {
                        command: m.stages[m.index + j].command,
                        args: m.stages[m.index + j].args,
                        stdin_from_pipe: if j == 0 {
                            m.has_prev
                        } else {
                            true
                        },
                        stdout_to_pipe: m.index + j + 1 < m.stages.len(),
                    }))
            }
        }),
    decreases m.stages.len() - m.index,
{
    let t = model_trace(m, spawn_ok);
    if m.index < m.stages.len() {
        let a = model_next(m);
        assert(spawn_ok[m.index] == true);
        let m2 = model_apply(m, Outcome::Spawned { ok: true });
        lemma_external_run(m2, spawn_ok);
        assert(t == seq![a] + model_trace(m2, spawn_ok));
        assert forall|j: int| 0 <= j < m.stages.len() - m.index implies t[j]
            == (ActView::Spawn {
            command: m.stages[m.index + j].command,
            args: m.stages[m.index + j].args,
            stdin_from_pipe: if j == 0 {
                m.has_prev
            } else {
                true
            },
            stdout_to_pipe: m.index + j + 1 < m.stages.len(),
        }) by {
            if j > 0 {
                assert(t[j] == model_trace(m2, spawn_ok)[j - 1]);
            }
        }
    } else if m.has_prev {
        let m2 = model_apply(m, Outcome::Waited);
        assert(model_trace(m2, spawn_ok) == Seq::<ActView>::empty());
        assert(t == seq![ActView::Wait] + model_trace(m2, spawn_ok));
    }
}

/// A pipeline of external commands that all spawn performs exactly one
/// spawn per stage, wired so that every stage after the first reads the
/// previous stage's output and every stage before the last writes to a
/// pipe, and then waits once on the last process.
pub proof fn theorem_pipeline_wiring(
    stages: Seq<StageView>,
    home: Option<Seq<char>>,
    spawn_ok: Seq<bool>,
)
    requires
        stages.len() > 0,
        forall|j: int| 0 <= j < stages.len() ==> is_external(#[trigger] stages[j]),
        forall|j: int| 0 <= j < stages.len() ==> #[trigger] spawn_ok[j] == true,
    ensures
        ({
            let t = model_trace(init_model(stages, home), spawn_ok);
            t.len() == stages.len() + 1 && t[stages.len() as int] == ActView::Wait && (forall|
                j: int,
            |
                0 <= j < stages.len() ==> t[j] == (ActView::Spawn {
                    command: stages[j].command,
                    args: stages[j].args,
                    stdin_from_pipe: j > 0,
                    stdout_to_pipe: j + 1 < stages.len(),
                }))
        }),
{
    lemma_external_run(init_model(stages, home), spawn_ok);
}

/// The same, stated of the raw input line: a line that parses to external
/// commands only, all of which spawn, runs as one spawn per stage with the
/// chain wired stage to stage, and one final wait.
pub proof fn theorem_line_wiring(line: Seq<char>, home: Option<Seq<char>>, spawn_ok: Seq<bool>)
    requires
        parse_line_spec(line).len() > 0,
        forall|j: int|
            0 <= j < parse_line_spec(line).len() ==> is_external(
                #[trigger] parse_line_spec(line)[j],
            ),
        forall|j: int|
            0 <= j < parse_line_spec(line).len() ==> #[trigger] spawn_ok[j] == true,
    ensures
        ({
            let stages = parse_line_spec(line);
            let t = model_trace(init_model(stages, home), spawn_ok);
            t.len() == stages.len() + 1 && t[stages.len() as int] == ActView::Wait && (forall|
                j: int,
            |
                0 <= j < stages.len() ==> t[j] == (ActView::Spawn {
                    command: stages[j].command,
                    args: stages[j].args,
                    stdin_from_pipe: j > 0,
                    stdout_to_pipe: j + 1 < stages.len(),
                }))
        }),
{
    theorem_pipeline_wiring(parse_line_spec(line), home, spawn_ok);
}

/// A pipeline whose first stage is the `exit` built-in offers the exit
/// action and nothing further: no stage is spawned and nothing is waited
/// on, whatever the remaining stages hold.
pub proof fn theorem_exit_short_circuits(
    stages: Seq<StageView>,
    home: Option<Seq<char>>,
    spawn_ok: Seq<bool>,
)
    requires
        stages.len() > 0,
        stages[0].command == exit_name(),
    ensures
        model_trace(init_model(stages, home), spawn_ok) == seq![ActView::Exit],
{
    let m = init_model(stages, home);
    let m2 = model_apply(m, Outcome::Exited);
    assert(model_trace(m2, spawn_ok) == Seq::<ActView>::empty());
    assert(model_trace(m, spawn_ok) =~= seq![ActView::Exit]);
}

/// A failed spawn leaves no producer behind: the stage is passed, the
/// previous-process slot is cleared, and when the next stage is an external
/// command it reads the terminal, not the failed stage.
pub proof fn theorem_spawn_failure_isolates(m: ExecModel)
    requires
        model_next(m) is Spawn,
    ensures
        ({
            let m2 = model_apply(m, Outcome::Spawned { ok: false });
            !m2.has_prev && m2.index == m.index + 1 && m2.finished == m.finished && (m2.index
                < m2.stages.len() && is_external(m2.stages[m2.index])
                ==> model_next(m2) == (ActView::Spawn {
                command: m2.stages[m2.index].command,
                args: m2.stages[m2.index].args,
                stdin_from_pipe: false,
                stdout_to_pipe: m2.index + 1 < m2.stages.len(),
            }))
        }),
{
}

/// Whether the `cd` built-in succeeds or fails makes no difference to the
/// rest of the run: either way the stage is passed, the previous-process
/// slot is cleared, and the following stages are still reached.
pub proof fn theorem_cd_failure_nonfatal(m: ExecModel)
    ensures
        model_apply(m, Outcome::DirChanged { ok: false }) == model_apply(
            m,
            Outcome::DirChanged { ok: true },
        ),
        model_apply(m, Outcome::DirChanged { ok: false }).index == m.index + 1,
        !model_apply(m, Outcome::DirChanged { ok: false }).has_prev,
        model_apply(m, Outcome::DirChanged { ok: false }).finished == m.finished,
        model_apply(m, Outcome::DirChanged { ok: false }).stages == m.stages,
{
}

/// The pipeline executor.
pub struct Executor {
    stages: Vec<Stage>,
    home: Option<String>,
    index: usize,
    has_prev: bool,
    finished: bool,
}

impl View for Executor {
    type V = ExecModel;

    closed spec fn view(&self) -> ExecModel {
        ExecModel {
            stages: stage_views_of(self.stages@),
            home: self.home.deep_view(),
            index: self.index as int,
            has_prev: self.has_prev,
            finished: self.finished,
        }
    }
}

impl Executor {
    /// An executor over the given stages, with the home directory that `cd`
    /// targets are expanded against.
    pub fn new(stages: Vec<Stage>, home: Option<String>) -> (e: Executor)
        ensures
            e@ == init_model(stage_views_of(stages@), home.deep_view()),
    {
        Executor { stages, home, index: 0, has_prev: false, finished: false }
    }

    /// The next action to perform.
    pub fn next_action(&self) -> (a: Action)
        ensures
            act_view(a) == model_next(self@),
    {
        proof {
            assert(self@.stages.len() == self.stages@.len());
        }
        if self.finished {
            Action::Done
        } else if self.index < self.stages.len() {
            let st = &self.stages[self.index];
            let cd = String::from_str("cd");
            let exit_word = String::from_str("exit");
            proof {
                reveal_strlit("cd");
                reveal_strlit("exit");
                assert(self@.stages[self.index as int] == self.stages@[self.index as int]@);
                assert(cd@ == cd_name());
                assert(exit_word@ == exit_name());
            }
            if st.command.as_str().is_empty() {
                proof {
                    assert(st@.command.len() == 0);
                }
                Action::NoOp
            } else if st.command == cd {
                Action::ChangeDir { target: resolve_cd_target(st, &self.home) }
            } else if st.command == exit_word {
                Action::Exit
            } else {
                Action::Spawn {
                    command: st.command.clone(),
                    args: st.args.clone(),
                    stdin_from_pipe: self.has_prev,
                    stdout_to_pipe: self.index + 1 < self.stages.len(),
                }
            }
        } else if self.has_prev {
            Action::Wait
        } else {
            Action::Done
        }
    }

    /// Advances the machine by the outcome of the action it offered.
    pub fn apply(&mut self, o: Outcome)
        requires
            outcome_fits(model_next(old(self)@), o),
        ensures
            final(self)@ == model_apply(old(self)@, o),
    {
        let n = self.stages.len();
        proof {
            assert(self@.stages.len() == n as int);
        }
        match o {
            Outcome::Skipped => {
                self.index = self.index + 1;
            },
            Outcome::DirChanged { ok: _ } => {
                self.index = self.index + 1;
                self.has_prev = false;
            },
            Outcome::Exited => {
                self.finished = true;
            },
            Outcome::Spawned { ok } => {
                self.index = self.index + 1;
                self.has_prev = ok;
            },
            Outcome::Waited => {
                self.has_prev = false;
                self.finished = true;
            },
        }
    }
}

} // verus!
