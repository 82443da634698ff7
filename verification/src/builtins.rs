//! The in-process commands and the catalog that names them, in order:
//! `alias`, `cd`, `exit`, `get`, `set`.

pub mod alias;
pub mod cd;
pub mod exit;
pub mod get;
pub mod set;

use vstd::prelude::*;

use crate::builtin::BrBuiltin;
use crate::builtin::BuiltinKind;
use crate::builtin::DynamicCompletion;
use crate::builtin::TabCompletion;
use crate::builtin::TabCompletionType;
use crate::chars::copy_char_range;
use crate::chars::is_digit_char;
use crate::chars::is_name_char;
use crate::chars::name_char;
use crate::chars::chars_to_string;
use crate::chars::digit_char;
use crate::chars::str_to_chars;
use crate::context::Context;
use crate::context::cli_and_dirs_unchanged;

verus! {

/// The alias sub-command names are pairwise distinct words.
pub proof fn lemma_op_literals_distinct()
    ensures
        "get"@ != "set"@,
        "get"@ != "del"@,
        "get"@ != "list"@,
        "set"@ != "del"@,
        "set"@ != "list"@,
        "del"@ != "list"@,
{
    reveal_strlit("get");
    reveal_strlit("set");
    reveal_strlit("del");
    reveal_strlit("list");
    assert("get"@[0] == 'g');
    assert("set"@[0] == 's');
    assert("del"@[0] == 'd');
    assert("list"@[0] == 'l');
}

/// The view of an argument vector.
pub open spec fn strings_view(s: Seq<String>) -> Seq<Seq<char>> {
    s.map_values(|x: String| x@)
}

/// Whether a variable argument names the process environment.
pub open spec fn env_prefixed(name: Seq<char>) -> bool {
    name.len() >= 4 && name.take(4) == "ENV:"@
}

/// The variable name with any `ENV:` prefix removed.
pub open spec fn strip_env_name(name: Seq<char>) -> Seq<char> {
    if env_prefixed(name) {
        name.skip(4)
    } else {
        name
    }
}

/// A variable name holds only alphanumerics and `_`, and may not begin with
/// a digit.
pub open spec fn valid_var_name(name: Seq<char>) -> bool {
    &&& forall|i: int| 0 <= i < name.len() ==> is_name_char(name[i])
    &&& !(name.len() > 0 && is_digit_char(name[0]))
}

/// Splits the `ENV:` prefix off a variable argument.
pub fn split_env_prefix(name: &String) -> (r: (String, bool))
    ensures
        r.1 == env_prefixed(name@),
        r.0@ == strip_env_name(name@),
{
    let v = str_to_chars(name.as_str());
    let pref = v.len() >= 4 && v[0] == 'E' && v[1] == 'N' && v[2] == 'V' && v[3] == ':';
    proof {
        reveal_strlit("ENV:");
        if v@.len() >= 4 {
            if pref {
                assert(name@.take(4) =~= "ENV:"@);
            } else {
                assert(name@.take(4) != "ENV:"@) by {
                    if name@.take(4) == "ENV:"@ {
                        assert(name@.take(4)[0] == 'E');
                        assert(name@.take(4)[1] == 'N');
                        assert(name@.take(4)[2] == 'V');
                        assert(name@.take(4)[3] == ':');
                    }
                }
            }
        }
    }
    if pref {
        let c = copy_char_range(&v, 4, v.len());
        (chars_to_string(&c), true)
    } else {
        (name.clone(), false)
    }
}

/// The first character a variable name may not hold, with its position: a
/// leading digit, or any character outside alphanumerics and `_`.
pub fn find_invalid_char(name: &String) -> (r: Option<(usize, char)>)
    ensures
        match r {
            Some(p) => p.0 < name@.len() && p.1 == name@[p.0 as int] && !valid_var_name(name@)
                && (name@.len() > 0 && is_digit_char(name@[0]) ==> p.0 == 0),
            None => valid_var_name(name@),
        },
{
    let v = str_to_chars(name.as_str());
    let n = v.len();
    if n > 0 && digit_char(v[0]) {
        return Some((0, v[0]));
    }
    let mut i: usize = 0;
    while i < n
        invariant
            n == name@.len(),
            v@ == name@,
            i <= n,
            !(n > 0 && is_digit_char(name@[0])),
            forall|j: int| 0 <= j < i ==> is_name_char(name@[j]),
        decreases n - i,
    {
        if !name_char(v[i]) {
            return Some((i, v[i]));
        }
        i = i + 1;
    }
    None
}

/// The shape of the `alias` builtin's completion tree: its four
/// sub-commands, with the stored alias names offered after `del` and `get`.
pub open spec fn is_alias_tree(t: TabCompletionType) -> bool {
    &&& t matches TabCompletionType::Static(cs)
    &&& cs@.len() == 4
    &&& cs@[0].arg@ == "list"@
    &&& cs@[0].subargs is Terminal
    &&& cs@[1].arg@ == "del"@
    &&& cs@[1].subargs matches TabCompletionType::Dynamic(d) && d == DynamicCompletion::AliasList
    &&& cs@[2].arg@ == "get"@
    &&& cs@[2].subargs matches TabCompletionType::Dynamic(d) && d == DynamicCompletion::AliasList
    &&& cs@[3].arg@ == "set"@
    &&& cs@[3].subargs is Terminal
}

/// Builds the builtin catalog: `alias`, `cd`, `exit`, `get`, `set`, in that
/// order, each with its completion tree.
pub fn load_builtins(ctx: &mut Context)
    ensures
        final(ctx).builtins@.len() == 5,
        final(ctx).builtins@[0].name@ == "alias"@,
        final(ctx).builtins@[0].kind == BuiltinKind::Alias,
        is_alias_tree(final(ctx).builtins@[0].tab_completion),
        final(ctx).builtins@[1].name@ == "cd"@,
        final(ctx).builtins@[1].kind == BuiltinKind::Cd,
        final(ctx).builtins@[1].tab_completion matches TabCompletionType::Directory(cs) && cs@.len()
            == 0,
        final(ctx).builtins@[2].name@ == "exit"@,
        final(ctx).builtins@[2].kind == BuiltinKind::Exit,
        final(ctx).builtins@[2].tab_completion is Terminal,
        final(ctx).builtins@[3].name@ == "get"@,
        final(ctx).builtins@[3].kind == BuiltinKind::GetVar,
        final(ctx).builtins@[3].tab_completion matches TabCompletionType::Dynamic(d) && d
            == DynamicCompletion::VarList,
        final(ctx).builtins@[4].name@ == "set"@,
        final(ctx).builtins@[4].kind == BuiltinKind::SetVar,
        final(ctx).builtins@[4].tab_completion matches TabCompletionType::Dynamic(d) && d
            == DynamicCompletion::VarList,
        final(ctx).variables == old(ctx).variables,
        final(ctx).env_vars == old(ctx).env_vars,
        final(ctx).env_writes == old(ctx).env_writes,
        final(ctx).aliases == old(ctx).aliases,
        final(ctx).out_lines == old(ctx).out_lines,
        final(ctx).err_lines == old(ctx).err_lines,
        cli_and_dirs_unchanged(*old(ctx), *final(ctx)),
{
    let mut children: Vec<TabCompletion> = Vec::new();
    children.push(TabCompletion::new("list", TabCompletionType::Terminal));
    children.push(
        TabCompletion::new("del", TabCompletionType::Dynamic(DynamicCompletion::AliasList)),
    );
    children.push(
        TabCompletion::new("get", TabCompletionType::Dynamic(DynamicCompletion::AliasList)),
    );
    children.push(TabCompletion::new("set", TabCompletionType::Terminal));

    let mut b: Vec<BrBuiltin> = Vec::new();
    b.push(
        BrBuiltin {
            name: "alias".to_owned(),
            kind: BuiltinKind::Alias,
            tab_completion: TabCompletionType::Static(children),
        },
    );
    b.push(
        BrBuiltin {
            name: "cd".to_owned(),
            kind: BuiltinKind::Cd,
            tab_completion: TabCompletionType::Directory(Vec::new()),
        },
    );
    b.push(
        BrBuiltin {
            name: "exit".to_owned(),
            kind: BuiltinKind::Exit,
            tab_completion: TabCompletionType::Terminal,
        },
    );
    b.push(
        BrBuiltin {
            name: "get".to_owned(),
            kind: BuiltinKind::GetVar,
            tab_completion: TabCompletionType::Dynamic(DynamicCompletion::VarList),
        },
    );
    b.push(
        BrBuiltin {
            name: "set".to_owned(),
            kind: BuiltinKind::SetVar,
            tab_completion: TabCompletionType::Dynamic(DynamicCompletion::VarList),
        },
    );
    ctx.builtins = b;
}

} // verus!
