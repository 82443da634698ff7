//! Session options: how the prompt is rendered and where external commands
//! are searched. The search paths come from the process environment, so the
//! embedder fills them; a fresh value starts with none.

use vstd::prelude::*;

verus! {

/// How the prompt renders the working directory.
#[derive(Debug, Clone)]
pub struct PromptOptions {
    pub format: String,
    pub truncate_home: bool,
    pub truncate_home_symbol: String,
    pub truncate_directories: u8,
    pub truncate_directories_symbol: String,
}

impl Default for PromptOptions {
    fn default() -> (r: Self)
        ensures
            r.format@ == "{WD} | "@,
            r.truncate_home == true,
            r.truncate_home_symbol@ == "~"@,
            r.truncate_directories == 2,
            r.truncate_directories_symbol@ == "\u{2026}"@,
    {
        PromptOptions {
            format: "{WD} | ".to_owned(),
            truncate_home: true,
            truncate_home_symbol: "~".to_owned(),
            truncate_directories: 2,
            truncate_directories_symbol: "\u{2026}".to_owned(),
        }
    }
}

/// The session's options.
#[derive(Debug, Clone)]
pub struct Options {
    pub syntax_highlighting: bool,
    pub paths: Vec<String>,
    pub prompt: PromptOptions,
}

impl Default for Options {
    fn default() -> (r: Self)
        ensures
            r.syntax_highlighting == true,
            r.paths@.len() == 0,
            r.prompt.format@ == "{WD} | "@,
            r.prompt.truncate_home == true,
            r.prompt.truncate_home_symbol@ == "~"@,
            r.prompt.truncate_directories == 2,
            r.prompt.truncate_directories_symbol@ == "\u{2026}"@,
    {
        Options {
            syntax_highlighting: true,
            paths: Vec::new(),
            prompt: PromptOptions::default(),
        }
    }
}

/// The options a session starts with.
pub fn load_options() -> (r: Options)
    ensures
        r.syntax_highlighting == true,
        r.paths@.len() == 0,
        r.prompt.format@ == "{WD} | "@,
{
    Options::default()
}

} // verus!
