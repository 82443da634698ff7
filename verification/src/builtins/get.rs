//! The `get` builtin: prints a session variable, or a process-environment
//! variable when the name carries the `ENV:` prefix. With no argument it
//! lists the session-variable names.

use vstd::prelude::*;

use crate::builtins::env_prefixed;
use crate::builtins::find_invalid_char;
use crate::builtins::split_env_prefix;
use crate::builtins::strings_view;
use crate::builtins::strip_env_name;
use crate::builtins::valid_var_name;
use crate::chars::chars_to_string;
use crate::chars::usize_to_string;
use crate::context::Context;
use crate::context::cli_and_dirs_unchanged;
use crate::context::spec_get_variable;

verus! {

/// The exit code: more than one argument, or a name with a character outside
/// alphanumerics and `_` or a leading digit, is rejected; a missing variable
/// still succeeds, printing its empty default.
pub open spec fn spec_get_code(args: Seq<Seq<char>>) -> i32 {
    if args.len() > 1 {
        1
    } else if args.len() == 0 {
        0
    } else if valid_var_name(strip_env_name(args[0])) {
        0
    } else {
        1
    }
}

/// Runs `get [ENV:]NAME`.
pub fn execute(args: Vec<String>, ctx: &mut Context) -> (code: i32)
    requires
        old(ctx).wf(),
    ensures
        final(ctx).wf(),
        code == spec_get_code(strings_view(args@)),
        final(ctx).variables == old(ctx).variables,
        final(ctx).env_vars == old(ctx).env_vars,
        final(ctx).env_writes == old(ctx).env_writes,
        final(ctx).aliases == old(ctx).aliases,
        final(ctx).builtins == old(ctx).builtins,
        final(ctx).err_lines == old(ctx).err_lines,
        cli_and_dirs_unchanged(*old(ctx), *final(ctx)),
        ({
            let a = strings_view(args@);
            a.len() == 1 && valid_var_name(strip_env_name(a[0])) ==> strings_view(
                final(ctx).out_lines@,
            ) == strings_view(old(ctx).out_lines@).push(
                spec_get_variable(
                    *old(ctx),
                    strip_env_name(a[0]),
                    Seq::<char>::empty(),
                    env_prefixed(a[0]),
                ),
            )
        }),
{
    if args.len() > 1 {
        let mut msg = "Invalid arguments! Expected less than 2, got ".to_owned();
        msg.append(usize_to_string(args.len()).as_str());
        ctx.out_lines.push(msg);
        return 1;
    }
    if args.len() == 0 {
        let keys = ctx.variables.keys();
        let mut line = String::new();
        let n = keys.len();
        let mut i: usize = 0;
        while i < n
            invariant
                n == keys@.len(),
                i <= n,
            decreases n - i,
        {
            if i > 0 {
                line.append(", ");
            }
            line.append(keys[i].as_str());
            i = i + 1;
        }
        ctx.out_lines.push(line);
        return 0;
    }
    let (var_name, is_env) = split_env_prefix(&args[0]);
    match find_invalid_char(&var_name) {
        Some((pos, ch)) => {
            let mut msg = "Invalid character at position ".to_owned();
            msg.append(usize_to_string(pos).as_str());
            msg.append(", '");
            let cv = vec![ch];
            msg.append(chars_to_string(&cv).as_str());
            msg.append("'");
            ctx.out_lines.push(msg);
            1
        },
        None => {
            let val = ctx.get_variable(var_name.as_str(), String::new(), is_env);
            ctx.out_lines.push(val);
            0
        },
    }
}

} // verus!
