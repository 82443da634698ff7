//! Which command names the shell accepts, for validation and completion.
//! The filesystem facts — whether a path-like name is an executable file or
//! a directory, and which executables the search paths hold — are the
//! host's to report; the rules that combine them are decided here.

use vstd::prelude::*;

use crate::builtin::BrBuiltin;
use crate::builtins::strings_view;
use crate::chars::sort_strings;
use crate::chars::sorted_strs;
use crate::chars::str_eq;
use crate::chars::views_of;
use crate::context::Context;
use crate::completion::spec_keys;
use crate::pipeline::spec_is_path_command;

verus! {

/// The catalog's names, in order.
pub open spec fn builtin_names(s: Seq<BrBuiltin>) -> Seq<Seq<char>> {
    s.map_values(|b: BrBuiltin| b.name@)
}

/// Whether any stored alias or catalog builtin bears this name.
pub open spec fn spec_known_name(ctx: Context, name: Seq<char>) -> bool {
    ctx.aliases@.contains_key(name) || exists|i: int|
        0 <= i < ctx.builtins@.len() && ctx.builtins@[i].name@ == name
}

/// A command name is valid when a path-like name resolves to an executable
/// file or a directory (as the host reports), when a builtin or alias bears
/// it, or when the search paths hold an executable of that name (as the host
/// reports).
pub open spec fn spec_is_valid_command(
    ctx: Context,
    name: Seq<char>,
    path_resolves: bool,
    on_search_path: bool,
) -> bool {
    (spec_is_path_command(name) && path_resolves) || spec_known_name(ctx, name) || on_search_path
}

/// Decides validity from the stores and the host's two filesystem reports:
/// `path_resolves` says whether the name, read as a path, is an executable
/// file or a directory; `on_search_path` says whether some search-path
/// directory holds an executable of this name.
pub fn is_valid_command(
    command: &str,
    ctx: &Context,
    path_resolves: bool,
    on_search_path: bool,
) -> (r: bool)
    requires
        ctx.wf(),
    ensures
        r == spec_is_valid_command(*ctx, command@, path_resolves, on_search_path),
{
    let cv = crate::chars::str_to_chars(command);
    if cv.len() > 0 && (cv[0] == '.' || cv[0] == '/') && path_resolves {
        return true;
    }
    let n = ctx.builtins.len();
    let mut i: usize = 0;
    while i < n
        invariant
            n == ctx.builtins@.len(),
            i <= n,
            forall|k: int| 0 <= k < i ==> ctx.builtins@[k].name@ != command@,
        decreases n - i,
    {
        if str_eq(ctx.builtins[i].name.as_str(), command) {
            return true;
        }
        i = i + 1;
    }
    if ctx.aliases.contains_key(command) {
        return true;
    }
    on_search_path
}

/// All the names the shell accepts: the builtins, the aliases, and the
/// executables the host found on the search paths, together and sorted.
pub fn get_valid_commands(ctx: &Context, path_commands: Vec<String>) -> (r: Vec<String>)
    ensures
        sorted_strs(views_of(r@)),
        views_of(r@).to_multiset() == (builtin_names(ctx.builtins@) + spec_keys(ctx.aliases)
            + views_of(path_commands@)).to_multiset(),
{
    let n = ctx.builtins.len();
    let mut cmds: Vec<String> = Vec::new();
    let mut i: usize = 0;
    while i < n
        invariant
            n == ctx.builtins@.len(),
            i <= n,
            views_of(cmds@) =~= builtin_names(ctx.builtins@).take(i as int),
        decreases n - i,
    {
        let ghost prev = views_of(cmds@);
        cmds.push(ctx.builtins[i].name.clone());
        i = i + 1;
        proof {
            assert(views_of(cmds@) =~= prev.push(ctx.builtins@[i - 1].name@));
            assert(builtin_names(ctx.builtins@).take(i as int) =~= prev.push(
                ctx.builtins@[i - 1].name@,
            ));
        }
    }
    let ghost bnames = builtin_names(ctx.builtins@);
    proof {
        assert(views_of(cmds@) =~= bnames);
    }
    let mut aliases = ctx.aliases.keys();
    proof {
        assert(strings_view(aliases@) =~= spec_keys(ctx.aliases));
    }
    let ghost alias_names = strings_view(aliases@);
    cmds.append(&mut aliases);
    proof {
        assert(views_of(cmds@) =~= bnames + alias_names);
    }
    let mut path_commands = path_commands;
    let ghost path_names = views_of(path_commands@);
    cmds.append(&mut path_commands);
    proof {
        assert(views_of(cmds@) =~= (bnames + alias_names) + path_names);
        assert((bnames + alias_names) + path_names =~= bnames + alias_names + path_names);
    }
    sort_strings(cmds)
}

} // verus!
