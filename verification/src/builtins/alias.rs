//! The `alias` builtin: stores, retrieves, removes and lists name-to-text
//! mappings. The stored text is looked up and listed only; the execution
//! pipeline does not substitute it into command text.

use vstd::prelude::*;

use crate::builtins::lemma_op_literals_distinct;
use crate::context::cli_and_dirs_unchanged;
use crate::builtins::strings_view;
use crate::chars::usize_to_string;
use crate::chars::str_eq;
use crate::context::Context;

verus! {

/// The alias store after the call: `alias set NAME TEXT` binds, `alias del
/// NAME` removes a stored name, everything else leaves the store alone.
pub open spec fn spec_alias_aliases(
    args: Seq<Seq<char>>,
    aliases: Map<Seq<char>, Seq<char>>,
) -> Map<Seq<char>, Seq<char>> {
    if args.len() == 3 && args[0] == "set"@ {
        aliases.insert(args[1], args[2])
    } else if args.len() >= 2 && args[0] == "del"@ && aliases.contains_key(args[1]) {
        aliases.remove(args[1])
    } else {
        aliases
    }
}

/// The exit code: 0 for a well-formed `get` of a stored name, a three-word
/// `set`, a `del` of a stored name, and `list`; 1 for everything else.
pub open spec fn spec_alias_code(args: Seq<Seq<char>>, aliases: Map<Seq<char>, Seq<char>>) -> i32 {
    if args.len() == 0 {
        1
    } else if args[0] == "get"@ {
        if args.len() >= 2 && aliases.contains_key(args[1]) {
            0
        } else {
            1
        }
    } else if args[0] == "set"@ {
        if args.len() == 3 {
            0
        } else {
            1
        }
    } else if args[0] == "del"@ {
        if args.len() >= 2 && aliases.contains_key(args[1]) {
            0
        } else {
            1
        }
    } else if args[0] == "list"@ {
        0
    } else {
        1
    }
}

/// Runs `alias get|set|del|list ...` against the store.
pub fn execute(args: Vec<String>, ctx: &mut Context) -> (code: i32)
    requires
        old(ctx).wf(),
    ensures
        final(ctx).wf(),
        final(ctx).aliases@ == spec_alias_aliases(strings_view(args@), old(ctx).aliases@),
        code == spec_alias_code(strings_view(args@), old(ctx).aliases@),
        final(ctx).variables == old(ctx).variables,
        final(ctx).env_vars == old(ctx).env_vars,
        final(ctx).env_writes == old(ctx).env_writes,
        final(ctx).builtins == old(ctx).builtins,
        cli_and_dirs_unchanged(*old(ctx), *final(ctx)),
        ({
            let a = strings_view(args@);
            a.len() >= 2 && a[0] == "get"@ && old(ctx).aliases@.contains_key(a[1])
                ==> strings_view(final(ctx).out_lines@) == strings_view(
                old(ctx).out_lines@,
            ).push(old(ctx).aliases@[a[1]])
        }),
{
    if args.len() == 0 {
        ctx.err_lines.push("Invalid arguments! Expected 1-2, got 0".to_owned());
        return 1;
    }
    proof {
        lemma_op_literals_distinct();
    }
    let operator = &args[0];
    if str_eq(operator.as_str(), "get") {
        get_alias(&args, ctx)
    } else if str_eq(operator.as_str(), "set") {
        set_alias(&args, ctx)
    } else if str_eq(operator.as_str(), "del") {
        del_alias(&args, ctx)
    } else if str_eq(operator.as_str(), "list") {
        list_aliases(ctx)
    } else {
        ctx.err_lines.push(
            "Invalid argument at pos 1! Expected one of 'get', 'set', 'del' or 'list'".to_owned(),
        );
        1
    }
}

fn get_alias(args: &Vec<String>, ctx: &mut Context) -> (code: i32)
    requires
        old(ctx).wf(),
        args@.len() >= 1,
        strings_view(args@)[0] == "get"@,
    ensures
        final(ctx).aliases@ == spec_alias_aliases(strings_view(args@), old(ctx).aliases@),
        final(ctx).wf(),
        final(ctx).aliases == old(ctx).aliases,
        code == spec_alias_code(strings_view(args@), old(ctx).aliases@),
        final(ctx).variables == old(ctx).variables,
        final(ctx).env_vars == old(ctx).env_vars,
        final(ctx).env_writes == old(ctx).env_writes,
        final(ctx).builtins == old(ctx).builtins,
        cli_and_dirs_unchanged(*old(ctx), *final(ctx)),
        ({
            let a = strings_view(args@);
            a.len() >= 2 && old(ctx).aliases@.contains_key(a[1]) ==> strings_view(
                final(ctx).out_lines@,
            ) == strings_view(old(ctx).out_lines@).push(old(ctx).aliases@[a[1]])
        }),
{
    proof {
        lemma_op_literals_distinct();
    }
    if args.len() < 2 {
        ctx.err_lines.push("Invalid arguments! Expected 2, got 1".to_owned());
        return 1;
    }
    let key = &args[1];
    let found = match ctx.aliases.get(key.as_str()) {
        Some(v) => Some(v.clone()),
        None => None,
    };
    match found {
        Some(v) => {
            ctx.out_lines.push(v);
            0
        },
        None => {
            let mut msg = "Unable to find alias '".to_owned();
            msg.append(key.as_str());
            msg.append("'!");
            ctx.err_lines.push(msg);
            1
        },
    }
}

fn set_alias(args: &Vec<String>, ctx: &mut Context) -> (code: i32)
    requires
        old(ctx).wf(),
        args@.len() >= 1,
        strings_view(args@)[0] == "set"@,
    ensures
        final(ctx).wf(),
        final(ctx).aliases@ == spec_alias_aliases(strings_view(args@), old(ctx).aliases@),
        code == spec_alias_code(strings_view(args@), old(ctx).aliases@),
        final(ctx).variables == old(ctx).variables,
        final(ctx).env_vars == old(ctx).env_vars,
        final(ctx).env_writes == old(ctx).env_writes,
        final(ctx).builtins == old(ctx).builtins,
        cli_and_dirs_unchanged(*old(ctx), *final(ctx)),
        final(ctx).out_lines == old(ctx).out_lines,
{
    proof {
        lemma_op_literals_distinct();
    }
    if args.len() != 3 {
        let mut msg = "Invalid arguments! Expected 3, got ".to_owned();
        msg.append(usize_to_string(args.len()).as_str());
        ctx.err_lines.push(msg);
        return 1;
    }
    ctx.aliases.insert(args[1].clone(), args[2].clone());
    0
}

fn del_alias(args: &Vec<String>, ctx: &mut Context) -> (code: i32)
    requires
        old(ctx).wf(),
        args@.len() >= 1,
        strings_view(args@)[0] == "del"@,
    ensures
        final(ctx).wf(),
        final(ctx).aliases@ == spec_alias_aliases(strings_view(args@), old(ctx).aliases@),
        code == spec_alias_code(strings_view(args@), old(ctx).aliases@),
        final(ctx).variables == old(ctx).variables,
        final(ctx).env_vars == old(ctx).env_vars,
        final(ctx).env_writes == old(ctx).env_writes,
        final(ctx).builtins == old(ctx).builtins,
        cli_and_dirs_unchanged(*old(ctx), *final(ctx)),
        final(ctx).out_lines == old(ctx).out_lines,
{
    proof {
        lemma_op_literals_distinct();
    }
    if args.len() < 2 {
        ctx.err_lines.push("Invalid arguments! Expected 2, got 1".to_owned());
        return 1;
    }
    let key = &args[1];
    if ctx.aliases.contains_key(key.as_str()) {
        ctx.aliases.remove(key.as_str());
        0
    } else {
        let mut msg = "Unable to find alias '".to_owned();
        msg.append(key.as_str());
        msg.append("'!");
        ctx.err_lines.push(msg);
        1
    }
}

fn list_aliases(ctx: &mut Context) -> (code: i32)
    requires
        old(ctx).wf(),
    ensures
        final(ctx).wf(),
        final(ctx).aliases == old(ctx).aliases,
        code == 0,
        final(ctx).variables == old(ctx).variables,
        final(ctx).env_vars == old(ctx).env_vars,
        final(ctx).env_writes == old(ctx).env_writes,
        final(ctx).builtins == old(ctx).builtins,
        cli_and_dirs_unchanged(*old(ctx), *final(ctx)),
        final(ctx).out_lines@.len() == old(ctx).out_lines@.len() + 1,
{
    let keys = ctx.aliases.keys();
    let mut line = String::new();
    let n = keys.len();
    let mut i: usize = 0;
    while i < n
        invariant
            n == keys@.len(),
            i <= n,
        decreases n - i,
    {
        if i > 0 {
            line.append(", ");
        }
        line.append(keys[i].as_str());
        i = i + 1;
    }
    ctx.out_lines.push(line);
    0
}

} // verus!
