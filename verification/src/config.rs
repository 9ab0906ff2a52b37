//! The interpreter's settings: fixed when the process starts, read-only afterwards.

use vstd::prelude::*;
use vstd::string::*;

verus! {

/// The two strings that configure the interpreter.
pub struct Config {
    /// Shown before each line is read.
    pub prompt: String,
    /// Printed by the `version` built-in.
    pub version: String,
}

impl Config {
    /// What is written to the output before a line is read: the prompt and one space.
    pub open spec fn spec_prompt_text(&self) -> Seq<char> {
        self.prompt@.push(' ')
    }

    /// The text to write before reading a line.
    pub fn prompt_text(&self) -> (text: String)
        ensures
            text@ == self.spec_prompt_text(),
    {
        let mut text = self.prompt.clone();
        text.append(" ");
        proof {
            reveal_strlit(" ");
        }
        text
    }
}

impl Default for Config {
    /// The prompt `>` and the version `0.1`.
    fn default() -> (config: Config)
        ensures
            config.prompt@ == ">"@,
            config.version@ == "0.1"@,
    {
        Config { prompt: String::from_str(">"), version: String::from_str("0.1") }
    }
}

} // verus!
