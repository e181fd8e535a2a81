//! The prompt: the owner of one read-eval turn. It takes a raw input line
//! and hands back the executor that decides, step by step, how that line's
//! pipeline runs. Reading the line and performing the actions against the
//! operating system are its caller's business.

use vstd::prelude::*;
use crate::cwd::query_home;
use crate::parse::{parse_line, parse_line_spec};
use crate::pipeline::{Executor, init_model};

verus! {

/// What a prompt holds, at the specification level.
pub struct PromptView {
    pub theme: Seq<char>,
    pub home: Option<Seq<char>>,
}

/// The interactive prompt's state: its display theme, and the user's home
/// directory as looked up when the prompt was set up, used to expand a
/// leading tilde in `cd` targets.
pub struct Prompt {
    theme: String,
    home: Option<String>,
}

impl View for Prompt {
    type V = PromptView;

    closed spec fn view(&self) -> PromptView {
        PromptView { theme: self.theme@, home: self.home.deep_view() }
    }
}

impl Prompt {
    /// The prompt as first set up: the default theme, with the home
    /// directory looked up once from the environment.
    pub fn default() -> (p: Prompt)
        ensures
            p@.theme == "default"@,
    {
        Prompt { theme: String::from_str("default"), home: query_home() }
    }

    /// Runs one input line as far as the engine decides anything: parses it
    /// into pipeline stages and returns the executor for them, started at
    /// the first stage with no process in flight.
    pub fn run(&mut self, line: &str) -> (e: Executor)
        ensures
            *final(self) == *old(self),
            e@ == init_model(parse_line_spec(line@), old(self)@.home),
    {
        let stages = parse_line(line);
        let home = match &self.home {
            Some(h) => Some(h.clone()),
            None => None,
        };
        Executor::new(stages, home)
    }
}

} // verus!
