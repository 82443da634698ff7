//! Decision logic of the execution pipeline. The engine walks the command
//! list once, carrying the exit code of the last waited command and whether
//! an unwaited pipe predecessor is pending. The embedding program performs
//! the process work (spawning, waiting, changing directory) and feeds the
//! outcome of each step back through [`apply_step`]; every decision — joiner
//! gating, dispatch order, stdio wiring, exit-code accounting — is made
//! here.

use vstd::prelude::*;

use crate::builtin::BrBuiltin;
use crate::chars::str_eq;
use crate::parser::Command;
use crate::parser::CommandView;
use crate::parser::OutputType;

verus! {

/// State carried across the command list: the last waited exit code and
/// whether an unwaited pipe stage's stdout is pending as the next stdin.
#[derive(Debug, Clone, Copy, PartialEq, Eq, Structural)]
pub struct ExecState {
    pub last_output: i32,
    pub has_pending_pipe: bool,
}

/// The state a pipeline starts in: success, nothing pending.
pub open spec fn spec_initial_state() -> ExecState {
    ExecState { last_output: 0, has_pending_pipe: false }
}

pub fn initial_state() -> (st: ExecState)
    ensures
        st == spec_initial_state(),
{
    ExecState { last_output: 0, has_pending_pipe: false }
}

/// Whether a command runs, given the joiner of the command before it:
/// `&&` demands a zero last exit code, `||` a non-zero one; every other
/// joiner always runs the command.
pub open spec fn spec_should_run(prev_joiner: OutputType, last_output: i32) -> bool {
    match prev_joiner {
        OutputType::Depend => last_output == 0,
        OutputType::DependNot => last_output != 0,
        _ => true,
    }
}

pub fn should_run(prev_joiner: OutputType, last_output: i32) -> (b: bool)
    ensures
        b == spec_should_run(prev_joiner, last_output),
{
    match prev_joiner {
        OutputType::Depend => last_output == 0,
        OutputType::DependNot => last_output != 0,
        _ => true,
    }
}

/// A command whose first path segment begins with `.` or `/`.
pub open spec fn spec_is_path_command(name: Seq<char>) -> bool {
    name.len() > 0 && (name[0] == '.' || name[0] == '/')
}

/// The dispatch rewrite: a path-like name that the host resolved to an
/// existing directory becomes the directory-change builtin with that path
/// prepended to the arguments.
pub open spec fn spec_rewrite_dir_command(c: CommandView, is_existing_dir: bool) -> CommandView {
    if spec_is_path_command(c.command) && is_existing_dir {
        CommandView {
            command: "cd"@,
            args: seq![c.command] + c.args,
            background: c.background,
            output_type: c.output_type,
        }
    } else {
        c
    }
}

pub fn rewrite_dir_command(cmd: Command, is_existing_dir: bool) -> (r: Command)
    ensures
        r@ == spec_rewrite_dir_command(cmd@, is_existing_dir),
{
    let mut cmd = cmd;
    let path_like = cmd.command.as_str().unicode_len() > 0 && (cmd.command.as_str().get_char(0)
        == '.' || cmd.command.as_str().get_char(0) == '/');
    if path_like && is_existing_dir {
        let ghost prev = cmd@;
        let path = cmd.command;
        cmd.command = "cd".to_owned();
        cmd.args.insert(0, path);
        proof {
            assert(cmd@.args =~= seq![prev.command] + prev.args);
        }
    }
    cmd
}

/// Whether the command is the session-termination directive.
pub fn is_exit(cmd: &Command) -> (b: bool)
    ensures
        b == (cmd@.command == "exit"@),
{
    str_eq(cmd.command.as_str(), "exit")
}

/// The first catalog entry bearing this name, if any.
pub fn find_builtin(builtins: &Vec<BrBuiltin>, name: &str) -> (r: Option<usize>)
    ensures
        match r {
            Some(j) => j < builtins@.len() && builtins@[j as int].name@ == name@ && (forall|k: int|
                0 <= k < j ==> builtins@[k].name@ != name@),
            None => forall|k: int| 0 <= k < builtins@.len() ==> builtins@[k].name@ != name@,
        },
{
    let n = builtins.len();
    let mut i: usize = 0;
    while i < n
        invariant
            n == builtins@.len(),
            i <= n,
            forall|k: int| 0 <= k < i ==> builtins@[k].name@ != name@,
        decreases n - i,
    {
        if str_eq(builtins[i].name.as_str(), name) {
            return Some(i);
        }
        i = i + 1;
    }
    None
}

/// Where a spawned command's standard output goes.
#[derive(Debug, Clone, Copy, PartialEq, Eq, Structural)]
pub enum StdoutMode {
    Inherit,
    Piped,
    Null,
}

/// How a spawned command's stdio is wired.
#[derive(Debug, Clone, Copy, PartialEq, Eq, Structural)]
pub struct SpawnPlan {
    pub stdin_from_pipe: bool,
    pub stdout: StdoutMode,
}

/// Stdio wiring: stdin comes from a pending pipe predecessor when there is
/// one; stdout is discarded for a background command, piped when a pipe
/// joiner has a following command, and inherited otherwise.
pub open spec fn spec_spawn_plan(c: CommandView, has_next: bool, has_pending: bool) -> SpawnPlan {
    SpawnPlan {
        stdin_from_pipe: has_pending,
        stdout: if c.background {
            StdoutMode::Null
        } else if has_next && c.output_type == OutputType::Pipe {
            StdoutMode::Piped
        } else {
            StdoutMode::Inherit
        },
    }
}

pub fn spawn_plan(cmd: &Command, has_next: bool, has_pending: bool) -> (p: SpawnPlan)
    ensures
        p == spec_spawn_plan(cmd@, has_next, has_pending),
{
    SpawnPlan {
        stdin_from_pipe: has_pending,
        stdout: if cmd.background {
            StdoutMode::Null
        } else if has_next && matches!(cmd.output_type, OutputType::Pipe) {
            StdoutMode::Piped
        } else {
            StdoutMode::Inherit
        },
    }
}

/// What the engine does with a successfully spawned child: a pipe stage is
/// stored unwaited as the next stdin, a background command is released, and
/// anything else is waited on synchronously. The pipe joiner wins over the
/// background flag.
#[derive(Debug, Clone, Copy, PartialEq, Eq, Structural)]
pub enum SpawnFate {
    StorePipe,
    Background,
    Wait,
}

pub open spec fn spec_spawn_fate(c: CommandView) -> SpawnFate {
    if c.output_type == OutputType::Pipe {
        SpawnFate::StorePipe
    } else if c.background {
        SpawnFate::Background
    } else {
        SpawnFate::Wait
    }
}

pub fn spawn_fate(cmd: &Command) -> (f: SpawnFate)
    ensures
        f == spec_spawn_fate(cmd@),
{
    if matches!(cmd.output_type, OutputType::Pipe) {
        SpawnFate::StorePipe
    } else if cmd.background {
        SpawnFate::Background
    } else {
        SpawnFate::Wait
    }
}

/// How a waited child ended.
#[derive(Debug, Clone, Copy, PartialEq, Eq, Structural)]
pub enum WaitOutcome {
    /// Normal exit with this code.
    Exited(i32),
    /// Terminated by this signal number.
    Signaled(i32),
    /// Ended with neither an exit code nor a signal.
    NoStatus,
    /// The wait itself failed.
    WaitFailed,
}

/// Signal numbers are small non-negative values; the bound keeps
/// `128 + signal` representable.
pub open spec fn wait_outcome_wf(o: WaitOutcome) -> bool {
    match o {
        WaitOutcome::Signaled(s) => 0 <= s <= i32::MAX - 128,
        _ => true,
    }
}

/// The exit code a waited child contributes: its code on a normal exit,
/// `128 + signal` on signal termination, `0` when no status was reported,
/// and the previous code unchanged when the wait failed.
pub open spec fn spec_code_of_wait(o: WaitOutcome, prev: i32) -> i32 {
    match o {
        WaitOutcome::Exited(c) => c,
        WaitOutcome::Signaled(s) => (128 + s) as i32,
        WaitOutcome::NoStatus => 0,
        WaitOutcome::WaitFailed => prev,
    }
}

pub fn code_of_wait(o: &WaitOutcome, prev: i32) -> (r: i32)
    requires
        wait_outcome_wf(*o),
    ensures
        r == spec_code_of_wait(*o, prev),
{
    match o {
        WaitOutcome::Exited(c) => *c,
        WaitOutcome::Signaled(s) => 128 + *s,
        WaitOutcome::NoStatus => 0,
        WaitOutcome::WaitFailed => prev,
    }
}

/// What one command's processing came to, as the embedder reports it.
#[derive(Debug, Clone, Copy, PartialEq, Eq, Structural)]
pub enum StepEvent {
    /// The joiner gate skipped the command.
    Skipped,
    /// A builtin ran in-process and returned this code.
    BuiltinRan(i32),
    /// The spawn failed; the failure is reported and the line goes on.
    SpawnFailed,
    /// A pipe stage was spawned and stored unwaited.
    SpawnedPipe,
    /// A background command was spawned and released.
    SpawnedBackground,
    /// A foreground command was waited on, ending this way.
    Waited(WaitOutcome),
}

pub open spec fn step_event_wf(e: StepEvent) -> bool {
    match e {
        StepEvent::Waited(o) => wait_outcome_wf(o),
        _ => true,
    }
}

/// The state transition one command causes. A skip changes nothing. A
/// builtin's code becomes the last output; the stored pipe, if any, stays
/// for the next spawned command. A failed spawn records code 0 and drops the
/// stored pipe. A stored pipe stage leaves the last output unchanged. A
/// released background command counts as success. A waited command
/// contributes [`spec_code_of_wait`]. Every spawn consumes the stored pipe.
pub open spec fn spec_apply_step(st: ExecState, e: StepEvent) -> ExecState {
    match e {
        StepEvent::Skipped => st,
        StepEvent::BuiltinRan(code) => ExecState { last_output: code, ..st },
        StepEvent::SpawnFailed => ExecState { last_output: 0, has_pending_pipe: false },
        StepEvent::SpawnedPipe => ExecState { last_output: st.last_output, has_pending_pipe: true },
        StepEvent::SpawnedBackground => ExecState { last_output: 0, has_pending_pipe: false },
        StepEvent::Waited(o) => ExecState {
            last_output: spec_code_of_wait(o, st.last_output),
            has_pending_pipe: false,
        },
    }
}

pub fn apply_step(st: ExecState, e: &StepEvent) -> (r: ExecState)
    requires
        step_event_wf(*e),
    ensures
        r == spec_apply_step(st, *e),
{
    match e {
        StepEvent::Skipped => st,
        StepEvent::BuiltinRan(code) => ExecState { last_output: *code, ..st },
        StepEvent::SpawnFailed => ExecState { last_output: 0, has_pending_pipe: false },
        StepEvent::SpawnedPipe => ExecState {
            last_output: st.last_output,
            has_pending_pipe: true,
        },
        StepEvent::SpawnedBackground => ExecState { last_output: 0, has_pending_pipe: false },
        StepEvent::Waited(o) => ExecState {
            last_output: code_of_wait(o, st.last_output),
            has_pending_pipe: false,
        },
    }
}

/// The joiner gating command `i`: the joiner of the command before it, with
/// the first command always run.
pub open spec fn spec_prev_joiner(cmds: Seq<CommandView>, i: int) -> OutputType {
    if i == 0 {
        OutputType::Ignore
    } else {
        cmds[i - 1].output_type
    }
}

/// The whole pipeline as a fold over the command list and the events the
/// embedder reports: each command is gated by the preceding command's
/// joiner, and a gated-off command contributes nothing — its event is
/// ignored, whatever it would have been.
pub open spec fn spec_pipeline_run(
    cmds: Seq<CommandView>,
    events: Seq<StepEvent>,
    i: int,
    st: ExecState,
) -> ExecState
    decreases cmds.len() - i,
{
    if i < 0 || i >= cmds.len() || i >= events.len() {
        st
    } else {
        let st2 = if spec_should_run(spec_prev_joiner(cmds, i), st.last_output) {
            spec_apply_step(st, events[i])
        } else {
            st
        };
        spec_pipeline_run(cmds, events, i + 1, st2)
    }
}

/// Law (`a && b`, whole pipeline): once `a`'s waited code is `c`, the
/// pipeline's final state does not depend on `b`'s event when `c != 0` —
/// `b` never runs and the final code is `c` — and equals applying `b`'s
/// event when `c == 0`.
pub proof fn lemma_pipeline_depend(a: CommandView, b: CommandView, c: i32, e2: StepEvent)
    requires
        a.output_type == OutputType::Depend,
    ensures
        ({
            let st1 = spec_apply_step(
                spec_initial_state(),
                StepEvent::Waited(WaitOutcome::Exited(c)),
            );
            let r = spec_pipeline_run(
                seq![a, b],
                seq![StepEvent::Waited(WaitOutcome::Exited(c)), e2],
                0,
                spec_initial_state(),
            );
            &&& c != 0 ==> r == st1 && r.last_output == c
            &&& c == 0 ==> r == spec_apply_step(st1, e2)
        }),
{
    let cmds = seq![a, b];
    let events = seq![StepEvent::Waited(WaitOutcome::Exited(c)), e2];
    assert(spec_prev_joiner(cmds, 1) == OutputType::Depend);
    let st1 = spec_apply_step(spec_initial_state(), events[0]);
    assert(spec_pipeline_run(cmds, events, 0, spec_initial_state()) == spec_pipeline_run(
        cmds,
        events,
        1,
        st1,
    ));
    let st2 = if spec_should_run(spec_prev_joiner(cmds, 1), st1.last_output) {
        spec_apply_step(st1, events[1])
    } else {
        st1
    };
    assert(spec_pipeline_run(cmds, events, 1, st1) == spec_pipeline_run(cmds, events, 2, st2));
    assert(spec_pipeline_run(cmds, events, 2, st2) == st2);
}

/// Law (`a || b`, whole pipeline): once `a`'s waited code is `c`, the final
/// state does not depend on `b`'s event when `c == 0` — `b` never runs and
/// the final code stays `c` — and equals applying `b`'s event when `c != 0`.
pub proof fn lemma_pipeline_depend_not(a: CommandView, b: CommandView, c: i32, e2: StepEvent)
    requires
        a.output_type == OutputType::DependNot,
    ensures
        ({
            let st1 = spec_apply_step(
                spec_initial_state(),
                StepEvent::Waited(WaitOutcome::Exited(c)),
            );
            let r = spec_pipeline_run(
                seq![a, b],
                seq![StepEvent::Waited(WaitOutcome::Exited(c)), e2],
                0,
                spec_initial_state(),
            );
            &&& c == 0 ==> r == st1 && r.last_output == c
            &&& c != 0 ==> r == spec_apply_step(st1, e2)
        }),
{
    let cmds = seq![a, b];
    let events = seq![StepEvent::Waited(WaitOutcome::Exited(c)), e2];
    assert(spec_prev_joiner(cmds, 1) == OutputType::DependNot);
    let st1 = spec_apply_step(spec_initial_state(), events[0]);
    assert(spec_pipeline_run(cmds, events, 0, spec_initial_state()) == spec_pipeline_run(
        cmds,
        events,
        1,
        st1,
    ));
    let st2 = if spec_should_run(spec_prev_joiner(cmds, 1), st1.last_output) {
        spec_apply_step(st1, events[1])
    } else {
        st1
    };
    assert(spec_pipeline_run(cmds, events, 1, st1) == spec_pipeline_run(cmds, events, 2, st2));
    assert(spec_pipeline_run(cmds, events, 2, st2) == st2);
}

/// Law (`a | b`, whole pipeline): `a` is spawned with its stdout piped and
/// stored unwaited, so its own status never reaches the pipeline's code; `b`
/// draws its stdin from the stored pipe and the pipeline's final code is
/// `b`'s waited code alone, for every code `b` may exit with.
pub proof fn lemma_pipeline_pipe(a: CommandView, b: CommandView, code: i32)
    requires
        a.output_type == OutputType::Pipe,
        !a.background,
        !b.background,
        b.output_type != OutputType::Pipe,
    ensures
        spec_spawn_plan(a, true, spec_initial_state().has_pending_pipe).stdout
            == StdoutMode::Piped,
        spec_spawn_fate(a) == SpawnFate::StorePipe,
        ({
            let st1 = spec_apply_step(spec_initial_state(), StepEvent::SpawnedPipe);
            &&& st1.last_output == spec_initial_state().last_output
            &&& st1.has_pending_pipe
            &&& spec_spawn_plan(b, false, st1.has_pending_pipe).stdin_from_pipe
            &&& spec_spawn_fate(b) == SpawnFate::Wait
            &&& (spec_pipeline_run(
                seq![a, b],
                seq![StepEvent::SpawnedPipe, StepEvent::Waited(WaitOutcome::Exited(code))],
                0,
                spec_initial_state(),
            ) == ExecState { last_output: code, has_pending_pipe: false })
        }),
{
    let cmds = seq![a, b];
    let events = seq![StepEvent::SpawnedPipe, StepEvent::Waited(WaitOutcome::Exited(code))];
    assert(spec_prev_joiner(cmds, 1) == OutputType::Pipe);
    let st1 = spec_apply_step(spec_initial_state(), events[0]);
    assert(spec_pipeline_run(cmds, events, 0, spec_initial_state()) == spec_pipeline_run(
        cmds,
        events,
        1,
        st1,
    ));
    let st2 = spec_apply_step(st1, events[1]);
    assert(spec_pipeline_run(cmds, events, 1, st1) == spec_pipeline_run(cmds, events, 2, st2));
    assert(spec_pipeline_run(cmds, events, 2, st2) == st2);
}

/// Law (`c &`, whole pipeline): a background command is spawned with its
/// stdout discarded, released unwaited, and the pipeline's code is 0 as soon
/// as the spawn succeeds.
pub proof fn lemma_pipeline_background(c: CommandView)
    requires
        c.background,
        c.output_type != OutputType::Pipe,
    ensures
        spec_spawn_plan(c, false, spec_initial_state().has_pending_pipe).stdout
            == StdoutMode::Null,
        spec_spawn_fate(c) == SpawnFate::Background,
        (spec_pipeline_run(
            seq![c],
            seq![StepEvent::SpawnedBackground],
            0,
            spec_initial_state(),
        ) == ExecState { last_output: 0, has_pending_pipe: false }),
{
    let cmds = seq![c];
    let events = seq![StepEvent::SpawnedBackground];
    let st1 = spec_apply_step(spec_initial_state(), events[0]);
    assert(spec_pipeline_run(cmds, events, 0, spec_initial_state()) == spec_pipeline_run(
        cmds,
        events,
        1,
        st1,
    ));
}

/// Law: in `a && b`, after `a` exits with code `c`, `b` runs exactly when
/// `c == 0`; when `b` is skipped the pipeline's code stays `c`.
pub proof fn lemma_depend_semantics(st0: ExecState, c: i32)
    ensures
        ({
            let st1 = spec_apply_step(st0, StepEvent::Waited(WaitOutcome::Exited(c)));
            &&& st1.last_output == c
            &&& spec_should_run(OutputType::Depend, st1.last_output) == (c == 0)
            &&& spec_apply_step(st1, StepEvent::Skipped).last_output == c
        }),
{
}

/// Law: in `a || b`, after `a` exits with code `c`, `b` runs exactly when
/// `c != 0`; when `b` is skipped the pipeline's code stays `c`.
pub proof fn lemma_depend_not_semantics(st0: ExecState, c: i32)
    ensures
        ({
            let st1 = spec_apply_step(st0, StepEvent::Waited(WaitOutcome::Exited(c)));
            &&& st1.last_output == c
            &&& spec_should_run(OutputType::DependNot, st1.last_output) == (c != 0)
            &&& spec_apply_step(st1, StepEvent::Skipped).last_output == c
        }),
{
}

/// Law: in `a | b` with both commands foreground, `a` is spawned with its
/// stdout piped and is never waited on (its stage leaves the last output
/// unchanged and stores the pipe); `b` is spawned with its stdin drawn from
/// the stored pipe; the pipeline's code is `b`'s waited code alone.
pub proof fn lemma_pipe_semantics(st0: ExecState, a: CommandView, b: CommandView, code: i32)
    requires
        a.output_type == OutputType::Pipe,
        !a.background,
        !b.background,
        b.output_type != OutputType::Pipe,
        !st0.has_pending_pipe,
    ensures
        spec_spawn_plan(a, true, st0.has_pending_pipe).stdout == StdoutMode::Piped,
        spec_spawn_plan(a, true, st0.has_pending_pipe).stdin_from_pipe == false,
        spec_spawn_fate(a) == SpawnFate::StorePipe,
        spec_apply_step(st0, StepEvent::SpawnedPipe).last_output == st0.last_output,
        ({
            let st1 = spec_apply_step(st0, StepEvent::SpawnedPipe);
            &&& spec_spawn_plan(b, false, st1.has_pending_pipe).stdin_from_pipe
            &&& spec_spawn_fate(b) == SpawnFate::Wait
            &&& spec_apply_step(
                st1,
                StepEvent::Waited(WaitOutcome::Exited(code)),
            ).last_output == code
        }),
{
}

/// Law: a background command is spawned with its stdout discarded, is never
/// waited on, and counts as success: the last output becomes 0 as soon as
/// the spawn succeeds.
pub proof fn lemma_background_semantics(st: ExecState, c: CommandView, has_next: bool)
    requires
        c.background,
        c.output_type != OutputType::Pipe,
    ensures
        spec_spawn_plan(c, has_next, st.has_pending_pipe).stdout == StdoutMode::Null,
        spec_spawn_fate(c) == SpawnFate::Background,
        spec_apply_step(st, StepEvent::SpawnedBackground).last_output == 0,
{
}

} // verus!
