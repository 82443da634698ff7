//! The shared session state: variable and alias stores, a snapshot of the
//! process environment, the builtin catalog, and the plain-text output the
//! engine produced for the embedder to print.
//!
//! The engine itself performs no input or output: reads of the process
//! environment go through the `env_vars` snapshot, which the embedding
//! program fills, and writes to it are recorded in `env_writes` for the
//! embedder to apply.

use vstd::prelude::*;

use crate::builtin::BrBuiltin;
use crate::strmap::StrMap;

verus! {

/// A saved command buffer and cursor position, restored when the user
/// abandons a history walk or a completion cycle.
#[derive(Debug, Clone)]
pub struct CommandBufferBackup {
    pub buffer: String,
    pub cursor: u16,
}

impl CommandBufferBackup {
    pub fn new(buffer: String, cursor: u16) -> (r: Self)
        ensures
            r.buffer == buffer,
            r.cursor == cursor,
    {
        CommandBufferBackup { buffer, cursor }
    }
}

impl Default for CommandBufferBackup {
    fn default() -> (r: Self)
        ensures
            r.buffer@ == Seq::<char>::empty(),
            r.cursor == 0,
    {
        CommandBufferBackup { buffer: String::new(), cursor: 0 }
    }
}

/// The state of a completion cycle: the candidate list, the index of the
/// candidate currently shown, the buffer to restore, and the delimiter
/// appended to a lone path candidate.
#[derive(Debug, Clone)]
pub struct CompletionContext {
    pub list: Vec<String>,
    pub index: u16,
    pub backup: CommandBufferBackup,
    pub delim: String,
}

impl Default for CompletionContext {
    fn default() -> (r: Self)
        ensures
            r.list@.len() == 0,
            r.index == 0,
            r.backup.buffer@ == Seq::<char>::empty(),
            r.backup.cursor == 0,
            r.delim@ == Seq::<char>::empty(),
    {
        CompletionContext {
            list: Vec::new(),
            index: 0,
            backup: CommandBufferBackup::default(),
            delim: String::new(),
        }
    }
}

/// The state of a history walk: the matching lines, the line currently
/// shown, and the buffer to restore.
#[derive(Debug, Clone)]
pub struct HistoryContext {
    pub lines: Vec<String>,
    pub index: u16,
    pub backup: CommandBufferBackup,
}

impl Default for HistoryContext {
    fn default() -> (r: Self)
        ensures
            r.lines@.len() == 0,
            r.index == 0,
            r.backup.buffer@ == Seq::<char>::empty(),
            r.backup.cursor == 0,
    {
        HistoryContext { lines: Vec::new(), index: 0, backup: CommandBufferBackup::default() }
    }
}

/// The session variables a fresh context starts with.
pub open spec fn default_variables() -> Map<Seq<char>, Seq<char>> {
    Map::<Seq<char>, Seq<char>>::empty().insert("PROMPT"@, "{WD} | "@).insert(
        "P_HOME_TRUNC"@,
        "true"@,
    ).insert("P_HOME_CHAR"@, "~"@).insert("P_DIR_TRUNC"@, "2"@).insert(
        "P_DIR_CHAR"@,
        "\u{2026}"@,
    ).insert("SYN_HIGHLIGHTING"@, "true"@)
}

/// Process-lifetime state of the shell session, owned by the read-eval loop.
pub struct Context {
    /// The line being edited or executed.
    pub command_buffer: String,
    /// Completion-cycle bookkeeping.
    pub completion: CompletionContext,
    /// History-walk bookkeeping.
    pub history: HistoryContext,
    /// Session variables.
    pub variables: StrMap,
    /// Snapshot of the process environment, maintained by the embedder.
    pub env_vars: StrMap,
    /// Environment assignments the engine made, for the embedder to apply.
    pub env_writes: Vec<(String, String)>,
    /// Alias store.
    pub aliases: StrMap,
    /// The ordered builtin catalog.
    pub builtins: Vec<BrBuiltin>,
    /// Lines the builtins wrote to standard output, oldest first.
    pub out_lines: Vec<String>,
    /// Lines the builtins wrote to standard error, oldest first.
    pub err_lines: Vec<String>,
    /// The visited-directory stack the `cd` builtin walks with `-` and `+`.
    pub prev_dirs: Vec<String>,
    /// The current position in the visited-directory stack.
    pub dir_idx: usize,
}

/// The fields the variable and alias builtins never touch: the line being
/// edited, the completion and history bookkeeping, and the directory stack.
pub open spec fn cli_and_dirs_unchanged(a: Context, b: Context) -> bool {
    &&& a.command_buffer == b.command_buffer
    &&& a.completion == b.completion
    &&& a.history == b.history
    &&& a.prev_dirs == b.prev_dirs
    &&& a.dir_idx == b.dir_idx
}

/// What a variable lookup yields: the stored value, or the default when the
/// name is unbound. An `ENV:` lookup reads the environment snapshot.
pub open spec fn spec_get_variable(
    ctx: Context,
    name: Seq<char>,
    default: Seq<char>,
    is_env: bool,
) -> Seq<char> {
    if is_env {
        if ctx.env_vars@.contains_key(name) {
            ctx.env_vars@[name]
        } else {
            default
        }
    } else {
        if ctx.variables@.contains_key(name) {
            ctx.variables@[name]
        } else {
            default
        }
    }
}

impl Context {
    /// The stores hold distinct keys.
    pub open spec fn wf(&self) -> bool {
        self.variables.wf() && self.env_vars.wf() && self.aliases.wf()
    }

    pub fn get_variable(&self, var_name: &str, default: String, is_env: bool) -> (r: String)
        requires
            self.wf(),
        ensures
            r@ == spec_get_variable(*self, var_name@, default@, is_env),
    {
        if is_env {
            match self.env_vars.get(var_name) {
                Some(v) => v.clone(),
                None => default,
            }
        } else {
            match self.variables.get(var_name) {
                Some(v) => v.clone(),
                None => default,
            }
        }
    }

    /// Binds a variable. An `ENV:` assignment updates the environment
    /// snapshot and records the write for the embedder.
    pub fn set_variable(&mut self, var_name: &str, var_value: String, is_env: bool)
        requires
            old(self).wf(),
        ensures
            final(self).wf(),
            is_env ==> ({
                &&& final(self).env_vars@ == old(self).env_vars@.insert(var_name@, var_value@)
                &&& final(self).variables == old(self).variables
                &&& final(self).env_writes@.len() == old(self).env_writes@.len() + 1
                &&& final(self).env_writes@.take(old(self).env_writes@.len() as int) == old(
                    self,
                ).env_writes@
                &&& final(self).env_writes@.last().0@ == var_name@
                &&& final(self).env_writes@.last().1 == var_value
            }),
            !is_env ==> final(self).variables@ == old(self).variables@.insert(
                var_name@,
                var_value@,
            ) && final(self).env_vars == old(self).env_vars && final(self).env_writes == old(
                self,
            ).env_writes,
            final(self).aliases == old(self).aliases,
            final(self).builtins == old(self).builtins,
            final(self).out_lines == old(self).out_lines,
            final(self).err_lines == old(self).err_lines,
            cli_and_dirs_unchanged(*old(self), *final(self)),
    {
        if is_env {
            self.env_vars.insert(var_name.to_owned(), var_value.clone());
            self.env_writes.push((var_name.to_owned(), var_value));
        } else {
            self.variables.insert(var_name.to_owned(), var_value);
        }
    }
}

impl Default for Context {
    /// A fresh session: the default prompt and display variables are bound,
    /// everything else is empty. The embedder fills `env_vars` and loads the
    /// builtin catalog.
    fn default() -> (r: Self)
        ensures
            r.wf(),
            r.variables@ == default_variables(),
            r.env_vars@ == Map::<Seq<char>, Seq<char>>::empty(),
            r.aliases@ == Map::<Seq<char>, Seq<char>>::empty(),
            r.builtins@.len() == 0,
            r.env_writes@.len() == 0,
            r.out_lines@.len() == 0,
            r.err_lines@.len() == 0,
            r.command_buffer@ == Seq::<char>::empty(),
            r.prev_dirs@.len() == 0,
            r.dir_idx == 0,
    {
        let mut variables = StrMap::new();
        variables.insert("PROMPT".to_owned(), "{WD} | ".to_owned());
        variables.insert("P_HOME_TRUNC".to_owned(), "true".to_owned());
        variables.insert("P_HOME_CHAR".to_owned(), "~".to_owned());
        variables.insert("P_DIR_TRUNC".to_owned(), "2".to_owned());
        variables.insert("P_DIR_CHAR".to_owned(), "\u{2026}".to_owned());
        variables.insert("SYN_HIGHLIGHTING".to_owned(), "true".to_owned());
        Context {
            command_buffer: String::new(),
            completion: CompletionContext::default(),
            history: HistoryContext::default(),
            variables,
            env_vars: StrMap::new(),
            env_writes: Vec::new(),
            aliases: StrMap::new(),
            builtins: Vec::new(),
            out_lines: Vec::new(),
            err_lines: Vec::new(),
            prev_dirs: Vec::new(),
            dir_idx: 0,
        }
    }
}

} // verus!
