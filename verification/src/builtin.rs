//! The builtin catalog: each builtin pairs a name with an in-process
//! behaviour and a tab-completion tree describing its argument shapes.

use vstd::prelude::*;

verus! {

/// The computed completion sources: candidates drawn from live context
/// rather than a fixed list.
#[derive(Debug, Clone, Copy, PartialEq, Eq, Structural)]
pub enum DynamicCompletion {
    /// The stored alias names.
    AliasList,
    /// The session-variable names, or the environment snapshot's names when
    /// the partial argument carries the `ENV:` prefix.
    VarList,
}

/// A completion tree: what may follow at each argument position.
#[derive(Debug)]
pub enum TabCompletionType {
    /// A terminal position: no candidates follow.
    Terminal,
    Directory(Vec<TabCompletion>),
    File(Vec<TabCompletion>),
    FileOrDirectory(Vec<TabCompletion>),
    Static(Vec<TabCompletion>),
    Dynamic(DynamicCompletion),
}

/// One completion-tree edge: a literal argument and the subtree that
/// describes what may follow it.
#[derive(Debug)]
pub struct TabCompletion {
    pub arg: String,
    pub subargs: TabCompletionType,
}

impl TabCompletion {
    pub fn new(arg: &str, subargs: TabCompletionType) -> (r: Self)
        ensures
            r.arg@ == arg@,
            r.subargs == subargs,
    {
        TabCompletion { arg: arg.to_owned(), subargs }
    }
}

/// The in-process behaviours a builtin may dispatch to.
#[derive(Debug, Clone, Copy, PartialEq, Eq, Structural)]
pub enum BuiltinKind {
    Alias,
    Cd,
    Exit,
    GetVar,
    SetVar,
}

/// One entry of the builtin catalog.
#[derive(Debug)]
pub struct BrBuiltin {
    pub name: String,
    pub kind: BuiltinKind,
    pub tab_completion: TabCompletionType,
}

} // verus!
