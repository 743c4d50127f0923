//! The prompt a shell shows before each line of input.

use vstd::prelude::*;

use crate::text::{decimal, push_decimal, push_str};

verus! {

/// The text shown before each line of input.
#[derive(Clone, Debug)]
pub struct Prompt {
    content: String,
}

impl View for Prompt {
    type V = Seq<char>;

    closed spec fn view(&self) -> Seq<char> {
        self.content@
    }
}

/// The prompt of the open shell at a raft index, or at the latest state.
pub open spec fn open_prompt_spec(index: Option<u64>) -> Seq<char> {
    "open@"@ + match index {
        Some(i) => decimal(i as nat),
        None => "latest"@,
    } + "> "@
}

impl Prompt {
    /// The prompt `text> `.
    pub fn new(text: &str) -> (r: Prompt)
        ensures
            r@ == text@ + "> "@,
    {
        let mut content = String::new();
        push_str(&mut content, text);
        push_str(&mut content, "> ");
        Prompt { content }
    }

    /// The prompt of the open shell: `open@<index>> `, or `open@latest> ` with no index.
    pub fn open_at(index: Option<u64>) -> (r: Prompt)
        ensures
            r@ == open_prompt_spec(index),
    {
        let mut content = String::new();
        push_str(&mut content, "open@");
        match index {
            Some(i) => push_decimal(&mut content, i),
            None => push_str(&mut content, "latest"),
        }
        push_str(&mut content, "> ");
        Prompt { content }
    }

    pub fn as_str(&self) -> (r: &str)
        ensures
            r@ == self@,
    {
        self.content.as_str()
    }
}

impl Default for Prompt {
    /// The prompt of the root shell: `> `.
    fn default() -> (r: Prompt)
        ensures
            r@ == "> "@,
    {
        let mut content = String::new();
        push_str(&mut content, "> ");
        Prompt { content }
    }
}

} // verus!
