use bransh::builtins::load_builtins;
use bransh::chars::{chars_to_string, sort_strings, str_eq, str_starts_with, usize_to_string};
use bransh::completion::{
    file_candidates, get_comp, get_tab_completion, split_path_arg, CompResult, DirEntry, FileType,
};
use bransh::context::Context;
use bransh::options::load_options;
use bransh::strmap::StrMap;
use bransh::valid::{get_valid_commands, is_valid_command};

fn args(v: Vec<&str>) -> Vec<String> {
    v.into_iter().map(|a| a.to_string()).collect()
}

#[test]
fn strmap_basics() {
    let mut m = StrMap::new();
    assert!(!m.contains_key("a"));
    m.insert("a".to_string(), "1".to_string());
    m.insert("b".to_string(), "2".to_string());
    m.insert("a".to_string(), "3".to_string());
    assert_eq!(m.get("a"), Some(&"3".to_string()));
    assert_eq!(m.get("b"), Some(&"2".to_string()));
    assert_eq!(m.len(), 2);
    m.remove("a");
    assert!(!m.contains_key("a"));
    assert_eq!(m.len(), 1);
    let keys = m.keys();
    assert_eq!(keys, vec!["b".to_string()]);
}

#[test]
fn string_helpers() {
    assert!(str_eq("abc", "abc"));
    assert!(!str_eq("abc", "abd"));
    assert!(str_starts_with("ENV:HOME", "ENV:"));
    assert!(!str_starts_with("EN", "ENV:"));
    assert_eq!(chars_to_string(&vec!['h', 'i']), "hi".to_string());
    assert_eq!(usize_to_string(0), "0".to_string());
    assert_eq!(usize_to_string(9), "9".to_string());
    assert_eq!(usize_to_string(1203), "1203".to_string());
}

#[test]
fn sorting_is_lexicographic() {
    let sorted = sort_strings(args(vec!["pear", "apple", "fig", "apple"]));
    assert_eq!(sorted, args(vec!["apple", "apple", "fig", "pear"]));
}

#[test]
fn alias_del_dynamic_completion() {
    // With stored aliases {"ll": "ls -la"}, `alias del` and partial "l"
    // resolves through the alias builtin's dynamic source to ["ll"].
    let mut ctx = Context::default();
    load_builtins(&mut ctx);
    ctx.aliases.insert("ll".to_string(), "ls -la".to_string());
    match get_tab_completion("alias".to_string(), args(vec!["del", "l"]), &ctx) {
        CompResult::Done(v) => assert_eq!(v, vec!["ll".to_string()]),
        _ => panic!("expected finished candidates"),
    }
}

#[test]
fn static_completion_filters_by_prefix() {
    let mut ctx = Context::default();
    load_builtins(&mut ctx);
    // The alias builtin's first level offers its sub-commands.
    match get_tab_completion("alias".to_string(), args(vec!["de"]), &ctx) {
        CompResult::Done(v) => assert_eq!(v, vec!["del".to_string()]),
        _ => panic!("expected finished candidates"),
    }
    match get_comp(
        &ctx.builtins[0].tab_completion,
        &args(vec!["nosuch", "x"]),
        &ctx,
    ) {
        CompResult::Done(v) => assert!(v.is_empty()),
        _ => panic!("expected an empty candidate list"),
    }
}

#[test]
fn var_completion_env_prefix() {
    let mut ctx = Context::default();
    load_builtins(&mut ctx);
    ctx.env_vars.insert("PATH".to_string(), "/bin".to_string());
    match get_tab_completion("get".to_string(), args(vec!["ENV:PA"]), &ctx) {
        CompResult::Done(v) => assert_eq!(v, vec!["PATH".to_string()]),
        _ => panic!("expected finished candidates"),
    }
    match get_tab_completion("get".to_string(), args(vec!["PROM"]), &ctx) {
        CompResult::Done(v) => assert_eq!(v, vec!["PROMPT".to_string()]),
        _ => panic!("expected finished candidates"),
    }
}

#[test]
fn unknown_command_falls_back_to_paths() {
    let mut ctx = Context::default();
    load_builtins(&mut ctx);
    match get_tab_completion("vim".to_string(), args(vec!["src/ma"]), &ctx) {
        CompResult::NeedsPath(kind, arg) => {
            assert_eq!(kind, FileType::Both);
            assert_eq!(arg, "src/ma".to_string());
        }
        _ => panic!("expected a path-completion request"),
    }
}

#[test]
fn path_split_and_candidates() {
    let q = split_path_arg(&"src/ma".to_string(), &None);
    assert_eq!(q.dir, "src".to_string());
    assert_eq!(q.entry_prefix, "ma".to_string());
    assert!(q.prepend);
    assert_eq!(q.shown_prefix, "src".to_string());

    let bare = split_path_arg(&"ma".to_string(), &None);
    assert_eq!(bare.dir, ".".to_string());
    assert!(!bare.prepend);

    let home = split_path_arg(&"~/pro/x".to_string(), &Some("/home/me".to_string()));
    assert_eq!(home.dir, "/home/me/pro".to_string());
    assert_eq!(home.entry_prefix, "x".to_string());
    assert_eq!(home.shown_prefix, "~/pro".to_string());

    let entries = vec![
        DirEntry { name: "main.rs".to_string(), is_dir: false, is_file: true },
        DirEntry { name: "maps".to_string(), is_dir: true, is_file: false },
        DirEntry { name: "other.rs".to_string(), is_dir: false, is_file: true },
    ];
    let all = file_candidates(FileType::Both, &q, &entries);
    assert_eq!(all, vec!["src/main.rs".to_string(), "src/maps".to_string()]);
    let dirs_only = file_candidates(FileType::Directory, &q, &entries);
    assert_eq!(dirs_only, vec!["src/maps".to_string()]);
    let files_only = file_candidates(FileType::File, &q, &entries);
    assert_eq!(files_only, vec!["src/main.rs".to_string()]);
}

#[test]
fn command_validity() {
    let mut ctx = Context::default();
    load_builtins(&mut ctx);
    ctx.aliases.insert("gs".to_string(), "git status".to_string());
    assert!(is_valid_command("alias", &ctx, false, false));
    assert!(is_valid_command("gs", &ctx, false, false));
    assert!(is_valid_command("ls", &ctx, false, true));
    assert!(!is_valid_command("nope", &ctx, false, false));
    // A path-like name counts only when the host resolved it.
    assert!(is_valid_command("./run", &ctx, true, false));
    assert!(!is_valid_command("./run", &ctx, false, false));
    assert!(!is_valid_command("run", &ctx, true, false));
}

#[test]
fn valid_commands_are_sorted() {
    let mut ctx = Context::default();
    load_builtins(&mut ctx);
    ctx.aliases.insert("zz".to_string(), "ls".to_string());
    let cmds = get_valid_commands(&ctx, args(vec!["awk", "ls"]));
    assert_eq!(
        cmds,
        args(vec!["alias", "awk", "cd", "exit", "get", "ls", "set", "zz"])
    );
}

#[test]
fn default_options() {
    let o = load_options();
    assert!(o.syntax_highlighting);
    assert!(o.paths.is_empty());
    assert_eq!(o.prompt.format, "{WD} | ".to_string());
    assert_eq!(o.prompt.truncate_directories, 2);
}

#[test]
fn default_context_variables() {
    let ctx = Context::default();
    assert_eq!(ctx.variables.get("PROMPT"), Some(&"{WD} | ".to_string()));
    assert_eq!(ctx.variables.get("P_DIR_TRUNC"), Some(&"2".to_string()));
    assert_eq!(ctx.variables.len(), 6);
    assert_eq!(ctx.builtins.len(), 0);
}

#[test]
fn get_variable_default_and_env() {
    let mut ctx = Context::default();
    ctx.env_vars.insert("TERM".to_string(), "dumb".to_string());
    assert_eq!(
        ctx.get_variable("TERM", "none".to_string(), true),
        "dumb".to_string()
    );
    assert_eq!(
        ctx.get_variable("TERM", "none".to_string(), false),
        "none".to_string()
    );
    ctx.set_variable("TERM", "smart".to_string(), false);
    assert_eq!(
        ctx.get_variable("TERM", "none".to_string(), false),
        "smart".to_string()
    );
}
