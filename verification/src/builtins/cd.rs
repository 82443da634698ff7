//! The `cd` builtin's decisions: which directory to move to — `-` and `+`
//! step backward and forward through the visited-directory stack, anything
//! else names a target, a missing argument meaning home — and how the stack
//! advances once the host has performed the move. The move itself, and the
//! reading of the directory left behind, are the host's work.

use vstd::prelude::*;

use crate::builtins::strings_view;
use crate::chars::chars_to_string;
use crate::chars::copy_char_range;
use crate::chars::str_eq;
use crate::chars::str_to_chars;
use crate::chars::views_of;
use crate::context::Context;
use crate::parser::home_view;

verus! {

/// A resolved move: the directory to change to, the stack position it
/// belongs to, and whether it came from stepping through the stack.
#[derive(Debug, Clone)]
pub struct GoPlan {
    pub target: String,
    pub new_idx: usize,
    pub stepped: bool,
}

/// What `cd`'s arguments call for.
#[derive(Debug, Clone)]
pub enum CdPlan {
    /// `-` at the bottom of the stack: report, succeed, move nowhere.
    AtHistoryEnd,
    /// `+` at the top of the stack: report, succeed, move nowhere.
    AtHistoryStart,
    /// A step landed on no stored directory: report, succeed, move nowhere.
    MissingEntry,
    /// A `~` target with no known home directory: fail with code 1.
    NoHome,
    /// Change to this directory.
    Go(GoPlan),
}

pub struct GoPlanView {
    pub target: Seq<char>,
    pub new_idx: int,
    pub stepped: bool,
}

pub enum CdPlanView {
    AtHistoryEnd,
    AtHistoryStart,
    MissingEntry,
    NoHome,
    Go(GoPlanView),
}

impl View for CdPlan {
    type V = CdPlanView;

    open spec fn view(&self) -> CdPlanView {
        match self {
            CdPlan::AtHistoryEnd => CdPlanView::AtHistoryEnd,
            CdPlan::AtHistoryStart => CdPlanView::AtHistoryStart,
            CdPlan::MissingEntry => CdPlanView::MissingEntry,
            CdPlan::NoHome => CdPlanView::NoHome,
            CdPlan::Go(g) => CdPlanView::Go(
                GoPlanView { target: g.target@, new_idx: g.new_idx as int, stepped: g.stepped },
            ),
        }
    }
}

/// A target with a leading `~` resolves against the home directory; with no
/// home directory known, the move fails.
pub open spec fn spec_tilde_cd(t: Seq<char>, home: Option<Seq<char>>) -> Option<Seq<char>> {
    if t.len() > 0 && t[0] == '~' {
        match home {
            Some(h) => Some(h + t.skip(1)),
            None => None,
        }
    } else {
        Some(t)
    }
}

/// The move the arguments call for, against the stack `dirs` at position
/// `idx`: the first argument names the target (`~` when absent); `-` steps
/// to `dirs[idx - 1]`, `+` to `dirs[idx + 1]`.
pub open spec fn spec_cd_plan(
    args: Seq<Seq<char>>,
    dirs: Seq<Seq<char>>,
    idx: int,
    home: Option<Seq<char>>,
) -> CdPlanView {
    let original = if args.len() > 0 {
        args[0]
    } else {
        "~"@
    };
    if original == "-"@ {
        if idx == 0 {
            CdPlanView::AtHistoryEnd
        } else if 0 <= idx - 1 < dirs.len() {
            match spec_tilde_cd(dirs[idx - 1], home) {
                Some(t) => CdPlanView::Go(GoPlanView { target: t, new_idx: idx - 1, stepped: true }),
                None => CdPlanView::NoHome,
            }
        } else {
            CdPlanView::MissingEntry
        }
    } else if original == "+"@ {
        if idx == dirs.len() {
            CdPlanView::AtHistoryStart
        } else if 0 <= idx + 1 < dirs.len() {
            match spec_tilde_cd(dirs[idx + 1], home) {
                Some(t) => CdPlanView::Go(GoPlanView { target: t, new_idx: idx + 1, stepped: true }),
                None => CdPlanView::NoHome,
            }
        } else {
            CdPlanView::MissingEntry
        }
    } else {
        match spec_tilde_cd(original, home) {
            Some(t) => CdPlanView::Go(GoPlanView { target: t, new_idx: idx, stepped: false }),
            None => CdPlanView::NoHome,
        }
    }
}

fn tilde_cd(t: &String, home: &Option<String>) -> (r: Option<String>)
    ensures
        match r {
            Some(s) => spec_tilde_cd(t@, home_view(*home)) == Some(s@),
            None => spec_tilde_cd(t@, home_view(*home)) is None,
        },
{
    let tc = str_to_chars(t.as_str());
    if tc.len() > 0 && tc[0] == '~' {
        match home {
            Some(h) => {
                let mut out = str_to_chars(h.as_str());
                let mut rest = copy_char_range(&tc, 1, tc.len());
                out.append(&mut rest);
                proof {
                    assert(out@ =~= h@ + t@.skip(1));
                }
                Some(chars_to_string(&out))
            },
            None => None,
        }
    } else {
        Some(t.clone())
    }
}

/// Resolves `cd`'s arguments against the stack, without moving.
pub fn cd_plan(args: &Vec<String>, ctx: &Context, home: &Option<String>) -> (r: CdPlan)
    ensures
        r@ == spec_cd_plan(
            strings_view(args@),
            views_of(ctx.prev_dirs@),
            ctx.dir_idx as int,
            home_view(*home),
        ),
{
    let original: String = if args.len() > 0 {
        args[0].clone()
    } else {
        "~".to_owned()
    };
    let ghost origv = if strings_view(args@).len() > 0 {
        strings_view(args@)[0]
    } else {
        "~"@
    };
    proof {
        assert(original@ == origv);
    }
    let idx = ctx.dir_idx;
    let dirs_len = ctx.prev_dirs.len();
    if str_eq(original.as_str(), "-") {
        if idx == 0 {
            CdPlan::AtHistoryEnd
        } else if idx - 1 < dirs_len {
            match tilde_cd(&ctx.prev_dirs[idx - 1], home) {
                Some(t) => CdPlan::Go(GoPlan { target: t, new_idx: idx - 1, stepped: true }),
                None => CdPlan::NoHome,
            }
        } else {
            CdPlan::MissingEntry
        }
    } else if str_eq(original.as_str(), "+") {
        if idx == dirs_len {
            CdPlan::AtHistoryStart
        } else if idx < usize::MAX && idx + 1 < dirs_len {
            match tilde_cd(&ctx.prev_dirs[idx + 1], home) {
                Some(t) => CdPlan::Go(GoPlan { target: t, new_idx: idx + 1, stepped: true }),
                None => CdPlan::NoHome,
            }
        } else {
            CdPlan::MissingEntry
        }
    } else {
        match tilde_cd(&original, home) {
            Some(t) => CdPlan::Go(GoPlan { target: t, new_idx: idx, stepped: false }),
            None => CdPlan::NoHome,
        }
    }
}

/// Advances the stack after a successful move: a plain move discards the
/// forward part of the stack and steps past the directory just left; a
/// history step keeps the stack. The directory just left is pushed either
/// way.
pub fn cd_commit(ctx: &mut Context, old_dir: String, new_idx: usize, stepped: bool)
    requires
        old(ctx).wf(),
        !stepped ==> new_idx <= old(ctx).prev_dirs@.len(),
        new_idx < usize::MAX,
    ensures
        final(ctx).wf(),
        stepped ==> views_of(final(ctx).prev_dirs@) == views_of(old(ctx).prev_dirs@).push(old_dir@)
            && final(ctx).dir_idx == new_idx,
        !stepped ==> views_of(final(ctx).prev_dirs@) == views_of(old(ctx).prev_dirs@).take(
            new_idx as int,
        ).push(old_dir@) && final(ctx).dir_idx == new_idx + 1,
        final(ctx).variables == old(ctx).variables,
        final(ctx).env_vars == old(ctx).env_vars,
        final(ctx).env_writes == old(ctx).env_writes,
        final(ctx).aliases == old(ctx).aliases,
        final(ctx).builtins == old(ctx).builtins,
        final(ctx).out_lines == old(ctx).out_lines,
        final(ctx).err_lines == old(ctx).err_lines,
        final(ctx).command_buffer == old(ctx).command_buffer,
        final(ctx).completion == old(ctx).completion,
        final(ctx).history == old(ctx).history,
{
    let ghost prev = views_of(ctx.prev_dirs@);
    if !stepped {
        if new_idx != ctx.prev_dirs.len() {
            ctx.prev_dirs.truncate(new_idx);
        }
        ctx.dir_idx = new_idx + 1;
        proof {
            assert(views_of(ctx.prev_dirs@) =~= prev.take(new_idx as int));
        }
    } else {
        ctx.dir_idx = new_idx;
    }
    let ghost mid = views_of(ctx.prev_dirs@);
    ctx.prev_dirs.push(old_dir);
    proof {
        assert(views_of(ctx.prev_dirs@) =~= mid.push(old_dir@));
    }
}

} // verus!
