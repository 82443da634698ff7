use bransh::builtins::cd::CdPlan;
use bransh::builtins::{alias, cd, exit, get};
use bransh::context::Context;

fn args(v: Vec<&str>) -> Vec<String> {
    v.into_iter().map(|a| a.to_string()).collect()
}

#[test]
fn alias_set_get_del_list() {
    let mut ctx = Context::default();
    assert_eq!(alias::execute(args(vec!["set", "ll", "ls -la"]), &mut ctx), 0);
    assert!(ctx.aliases.contains_key("ll"));

    assert_eq!(alias::execute(args(vec!["get", "ll"]), &mut ctx), 0);
    assert_eq!(ctx.out_lines.last().unwrap(), &"ls -la".to_string());

    assert_eq!(alias::execute(args(vec!["get", "nope"]), &mut ctx), 1);
    assert_eq!(alias::execute(args(vec!["list"]), &mut ctx), 0);

    assert_eq!(alias::execute(args(vec!["del", "ll"]), &mut ctx), 0);
    assert!(!ctx.aliases.contains_key("ll"));
    assert_eq!(alias::execute(args(vec!["del", "ll"]), &mut ctx), 1);
}

#[test]
fn alias_arity_errors() {
    let mut ctx = Context::default();
    assert_eq!(alias::execute(args(vec![]), &mut ctx), 1);
    assert_eq!(alias::execute(args(vec!["set", "only"]), &mut ctx), 1);
    assert_eq!(alias::execute(args(vec!["frobnicate"]), &mut ctx), 1);
    assert_eq!(alias::execute(args(vec!["get"]), &mut ctx), 1);
}

#[test]
fn set_and_get_variable() {
    let mut ctx = Context::default();
    assert_eq!(bransh::builtins::set::execute(args(vec!["FOO", "bar"]), &mut ctx), 0);
    assert_eq!(get::execute(args(vec!["FOO"]), &mut ctx), 0);
    assert_eq!(ctx.out_lines.last().unwrap(), &"bar".to_string());

    // A missing variable prints its empty default and still succeeds.
    assert_eq!(get::execute(args(vec!["NOSUCH"]), &mut ctx), 0);
    assert_eq!(ctx.out_lines.last().unwrap(), &String::new());
}

#[test]
fn set_invalid_name_rejected() {
    // `set 1bad value`: a name may not begin with a digit; nothing is stored.
    let mut ctx = Context::default();
    let before = ctx.variables.len();
    assert_eq!(bransh::builtins::set::execute(args(vec!["1bad", "value"]), &mut ctx), 1);
    assert_eq!(ctx.variables.len(), before);
    assert!(!ctx.variables.contains_key("1bad"));

    // A character outside alphanumerics and `_` is rejected too.
    assert_eq!(bransh::builtins::set::execute(args(vec!["a-b", "value"]), &mut ctx), 1);
    assert!(!ctx.variables.contains_key("a-b"));

    // Digits elsewhere in the name are fine.
    assert_eq!(bransh::builtins::set::execute(args(vec!["bad1", "value"]), &mut ctx), 0);
    assert!(ctx.variables.contains_key("bad1"));
}

#[test]
fn set_env_records_write() {
    let mut ctx = Context::default();
    assert_eq!(bransh::builtins::set::execute(args(vec!["ENV:MARKER", "7"]), &mut ctx), 0);
    assert_eq!(ctx.env_writes.len(), 1);
    assert_eq!(ctx.env_writes[0], ("MARKER".to_string(), "7".to_string()));
    assert!(ctx.env_vars.contains_key("MARKER"));
    assert!(!ctx.variables.contains_key("MARKER"));
}

#[test]
fn set_wrong_arity() {
    let mut ctx = Context::default();
    assert_eq!(bransh::builtins::set::execute(args(vec!["FOO"]), &mut ctx), 1);
    assert_eq!(bransh::builtins::set::execute(args(vec!["FOO", "a", "b"]), &mut ctx), 1);
    assert!(!ctx.variables.contains_key("FOO"));
}

#[test]
fn get_rejects_bad_name_and_arity() {
    let mut ctx = Context::default();
    assert_eq!(get::execute(args(vec!["a", "b"]), &mut ctx), 1);
    assert_eq!(get::execute(args(vec!["no good"]), &mut ctx), 1);
    assert_eq!(get::execute(args(vec!["1bad"]), &mut ctx), 1);
    // With no argument the variable names are listed.
    assert_eq!(get::execute(args(vec![]), &mut ctx), 0);
}

#[test]
fn get_env_reads_snapshot() {
    let mut ctx = Context::default();
    ctx.env_vars.insert("HOME".to_string(), "/home/me".to_string());
    assert_eq!(get::execute(args(vec!["ENV:HOME"]), &mut ctx), 0);
    assert_eq!(ctx.out_lines.last().unwrap(), &"/home/me".to_string());
}

#[test]
fn exit_is_inert() {
    let mut ctx = Context::default();
    assert_eq!(exit::execute(args(vec![]), &mut ctx), 0);
}

#[test]
fn cd_plain_move_and_history() {
    let mut ctx = Context::default();
    // A plain move: target taken as given, stack advances past the old dir.
    match cd::cd_plan(&args(vec!["/tmp"]), &ctx, &None) {
        CdPlan::Go(g) => {
            assert_eq!(g.target, "/tmp".to_string());
            assert!(!g.stepped);
            cd::cd_commit(&mut ctx, "/start".to_string(), g.new_idx, g.stepped);
        }
        _ => panic!("expected a move"),
    }
    assert_eq!(ctx.prev_dirs, vec!["/start".to_string()]);
    assert_eq!(ctx.dir_idx, 1);

    // `cd -` steps back to the stored directory.
    match cd::cd_plan(&args(vec!["-"]), &ctx, &None) {
        CdPlan::Go(g) => {
            assert_eq!(g.target, "/start".to_string());
            assert!(g.stepped);
            assert_eq!(g.new_idx, 0);
            cd::cd_commit(&mut ctx, "/tmp".to_string(), g.new_idx, g.stepped);
        }
        _ => panic!("expected a step back"),
    }
    assert_eq!(ctx.dir_idx, 0);

    // Another `cd -` is at the end of the history.
    match cd::cd_plan(&args(vec!["-"]), &ctx, &None) {
        CdPlan::AtHistoryEnd => {}
        _ => panic!("expected the end of the history"),
    }
}

#[test]
fn cd_tilde_needs_home() {
    let ctx = Context::default();
    match cd::cd_plan(&args(vec![]), &ctx, &None) {
        CdPlan::NoHome => {}
        _ => panic!("a bare cd without a home directory fails"),
    }
    match cd::cd_plan(&args(vec!["~/sub"]), &ctx, &Some("/home/me".to_string())) {
        CdPlan::Go(g) => assert_eq!(g.target, "/home/me/sub".to_string()),
        _ => panic!("expected a move"),
    }
}

#[test]
fn cd_forward_at_top() {
    let ctx = Context::default();
    match cd::cd_plan(&args(vec!["+"]), &ctx, &None) {
        CdPlan::AtHistoryStart => {}
        _ => panic!("expected the start of the history"),
    }
}
