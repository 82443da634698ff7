//! The `exit` builtin: a placeholder entry, since session termination is
//! decided by the execution pipeline before builtin dispatch. The entry
//! exists for command validation and tab completion.

use vstd::prelude::*;

use crate::context::Context;

verus! {

pub fn execute(args: Vec<String>, ctx: &mut Context) -> (code: i32)
    ensures
        code == 0,
        *final(ctx) == *old(ctx),
{
    let _ = args;
    0
}

} // verus!
