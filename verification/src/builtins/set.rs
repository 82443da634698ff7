//! The `set` builtin: binds a session variable, or a process-environment
//! variable when the name carries the `ENV:` prefix. A name holding anything
//! but alphanumerics and `_`, or beginning with a digit, is rejected and
//! nothing is stored.

use vstd::prelude::*;

use crate::builtins::env_prefixed;
use crate::builtins::find_invalid_char;
use crate::builtins::split_env_prefix;
use crate::builtins::strings_view;
use crate::builtins::strip_env_name;
use crate::builtins::valid_var_name;
use crate::chars::chars_to_string;
use crate::chars::usize_to_string;
use crate::context::Context;
use crate::context::cli_and_dirs_unchanged;

verus! {

/// The exit code: exactly two arguments and a well-formed name succeed.
pub open spec fn spec_set_code(args: Seq<Seq<char>>) -> i32 {
    if args.len() != 2 {
        1
    } else if valid_var_name(strip_env_name(args[0])) {
        0
    } else {
        1
    }
}

/// Runs `set [ENV:]NAME VALUE`.
pub fn execute(args: Vec<String>, ctx: &mut Context) -> (code: i32)
    requires
        old(ctx).wf(),
    ensures
        final(ctx).wf(),
        code == spec_set_code(strings_view(args@)),
        ({
            let a = strings_view(args@);
            if a.len() == 2 && valid_var_name(strip_env_name(a[0])) {
                if env_prefixed(a[0]) {
                    &&& final(ctx).env_vars@ == old(ctx).env_vars@.insert(
                        strip_env_name(a[0]),
                        a[1],
                    )
                    &&& final(ctx).variables == old(ctx).variables
                    &&& final(ctx).env_writes@.len() == old(ctx).env_writes@.len() + 1
                    &&& final(ctx).env_writes@.last().0@ == strip_env_name(a[0])
                    &&& final(ctx).env_writes@.last().1@ == a[1]
                } else {
                    &&& final(ctx).variables@ == old(ctx).variables@.insert(
                        strip_env_name(a[0]),
                        a[1],
                    )
                    &&& final(ctx).env_vars == old(ctx).env_vars
                    &&& final(ctx).env_writes == old(ctx).env_writes
                }
            } else {
                &&& final(ctx).variables == old(ctx).variables
                &&& final(ctx).env_vars == old(ctx).env_vars
                &&& final(ctx).env_writes == old(ctx).env_writes
            }
        }),
        final(ctx).aliases == old(ctx).aliases,
        final(ctx).builtins == old(ctx).builtins,
        final(ctx).err_lines == old(ctx).err_lines,
        cli_and_dirs_unchanged(*old(ctx), *final(ctx)),
{
    if args.len() != 2 {
        let mut msg = "Invalid arguments! Expected 2, got ".to_owned();
        msg.append(usize_to_string(args.len()).as_str());
        ctx.out_lines.push(msg);
        return 1;
    }
    let (var_name, is_env) = split_env_prefix(&args[0]);
    match find_invalid_char(&var_name) {
        Some((pos, ch)) => {
            let mut msg = "Invalid character at position ".to_owned();
            msg.append(usize_to_string(pos).as_str());
            msg.append(", '");
            let cv = vec![ch];
            msg.append(chars_to_string(&cv).as_str());
            msg.append("'");
            ctx.out_lines.push(msg);
            1
        },
        None => {
            ctx.set_variable(var_name.as_str(), args[1].clone(), is_env);
            0
        },
    }
}

} // verus!
