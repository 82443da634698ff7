use bransh::builtins::load_builtins;
use bransh::context::Context;
use bransh::parser::{Command, OutputType};
use bransh::pipeline::{
    apply_step, code_of_wait, find_builtin, initial_state, is_exit, rewrite_dir_command,
    should_run, spawn_fate, spawn_plan, SpawnFate, StdoutMode, StepEvent, WaitOutcome,
};

fn cmd(name: &str, args: Vec<&str>, background: bool, joiner: OutputType) -> Command {
    Command {
        command: name.to_string(),
        args: args.into_iter().map(|a| a.to_string()).collect(),
        background,
        output_type: joiner,
    }
}

#[test]
fn depend_runs_only_on_success() {
    // `echo a && echo b`: if `echo a` exits 0, `echo b` runs.
    let st = initial_state();
    let st = apply_step(st, &StepEvent::Waited(WaitOutcome::Exited(0)));
    assert!(should_run(OutputType::Depend, st.last_output));

    // If it exits nonzero, `echo b` is skipped and the final code stays.
    let st = initial_state();
    let st = apply_step(st, &StepEvent::Waited(WaitOutcome::Exited(3)));
    assert!(!should_run(OutputType::Depend, st.last_output));
    let st = apply_step(st, &StepEvent::Skipped);
    assert_eq!(st.last_output, 3);
}

#[test]
fn depend_not_runs_only_on_failure() {
    // `echo a || echo b`: `echo b` runs iff `echo a`'s code is nonzero.
    let st = initial_state();
    let st = apply_step(st, &StepEvent::Waited(WaitOutcome::Exited(0)));
    assert!(!should_run(OutputType::DependNot, st.last_output));

    let st = initial_state();
    let st = apply_step(st, &StepEvent::Waited(WaitOutcome::Exited(1)));
    assert!(should_run(OutputType::DependNot, st.last_output));
}

#[test]
fn pipe_wiring_and_result() {
    // `cmd1 | cmd2`: cmd1 spawns with stdout piped and is never waited.
    let st0 = initial_state();
    let c1 = cmd("cmd1", vec![], false, OutputType::Pipe);
    let c2 = cmd("cmd2", vec![], false, OutputType::Ignore);

    let p1 = spawn_plan(&c1, true, st0.has_pending_pipe);
    assert_eq!(p1.stdout, StdoutMode::Piped);
    assert!(!p1.stdin_from_pipe);
    assert_eq!(spawn_fate(&c1), SpawnFate::StorePipe);

    let st1 = apply_step(st0, &StepEvent::SpawnedPipe);
    assert_eq!(st1.last_output, st0.last_output);
    assert!(st1.has_pending_pipe);

    // cmd2's stdin is cmd1's stdout; the pipeline's code is cmd2's alone.
    let p2 = spawn_plan(&c2, false, st1.has_pending_pipe);
    assert!(p2.stdin_from_pipe);
    assert_eq!(spawn_fate(&c2), SpawnFate::Wait);
    let st2 = apply_step(st1, &StepEvent::Waited(WaitOutcome::Exited(7)));
    assert_eq!(st2.last_output, 7);
    assert!(!st2.has_pending_pipe);
}

#[test]
fn background_returns_immediately() {
    // `sleep 5 &`: stdout discarded, never waited, counts as success.
    let c = cmd("sleep", vec!["5"], true, OutputType::Ignore);
    let p = spawn_plan(&c, false, false);
    assert_eq!(p.stdout, StdoutMode::Null);
    assert_eq!(spawn_fate(&c), SpawnFate::Background);
    let st = apply_step(initial_state(), &StepEvent::SpawnedBackground);
    assert_eq!(st.last_output, 0);
}

#[test]
fn signal_termination_code() {
    assert_eq!(code_of_wait(&WaitOutcome::Signaled(9), 0), 137);
    assert_eq!(code_of_wait(&WaitOutcome::Exited(42), 0), 42);
    // A failed wait leaves the last code unchanged.
    assert_eq!(code_of_wait(&WaitOutcome::WaitFailed, 5), 5);
    assert_eq!(code_of_wait(&WaitOutcome::NoStatus, 5), 0);
}

#[test]
fn spawn_failure_records_zero() {
    let st = apply_step(initial_state(), &StepEvent::Waited(WaitOutcome::Exited(9)));
    let st = apply_step(st, &StepEvent::SpawnFailed);
    assert_eq!(st.last_output, 0);
    assert!(!st.has_pending_pipe);
}

#[test]
fn exit_dispatch() {
    assert!(is_exit(&cmd("exit", vec![], false, OutputType::Ignore)));
    assert!(!is_exit(&cmd("exit2", vec![], false, OutputType::Ignore)));
}

#[test]
fn directory_rewrite() {
    let c = cmd("./proj", vec!["x"], false, OutputType::Ignore);
    let r = rewrite_dir_command(c, true);
    assert_eq!(r.command, "cd".to_string());
    assert_eq!(r.args, vec!["./proj".to_string(), "x".to_string()]);

    let c = cmd("./proj", vec![], false, OutputType::Ignore);
    let r = rewrite_dir_command(c.clone(), false);
    assert_eq!(r.command, "./proj".to_string());

    let c = cmd("ls", vec![], false, OutputType::Ignore);
    let r = rewrite_dir_command(c, true);
    assert_eq!(r.command, "ls".to_string());
}

#[test]
fn builtin_lookup_order() {
    let mut ctx = Context::default();
    load_builtins(&mut ctx);
    assert_eq!(find_builtin(&ctx.builtins, "alias"), Some(0));
    assert_eq!(find_builtin(&ctx.builtins, "cd"), Some(1));
    assert_eq!(find_builtin(&ctx.builtins, "exit"), Some(2));
    assert_eq!(find_builtin(&ctx.builtins, "get"), Some(3));
    assert_eq!(find_builtin(&ctx.builtins, "set"), Some(4));
    assert_eq!(find_builtin(&ctx.builtins, "ls"), None);
}
