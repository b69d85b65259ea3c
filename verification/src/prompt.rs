//! Prompts: values asked of the user.

use crate::error::TemplateError;
use vstd::prelude::*;

verus! {

/// A question for whoever runs the render.
#[derive(Clone, Debug, PartialEq, Eq)]
pub struct Prompt {
    pub message: String,
    /// What is typed in answer to a sensitive prompt is not shown.
    pub sensitive: bool,
    /// What an empty answer stands for.
    pub default: Option<String>,
}

/// Something that can put a prompt to the user: a terminal, a dialog. An
/// answer may take as long as it takes. `None` says that no answer was
/// delivered.
pub trait Prompter {
    /// Whether `answer` is what the prompter may deliver for `prompt`. A
    /// prompter that asks a person may deliver anything, and nothing: that is
    /// what holds of a prompter that says nothing else of itself.
    open spec fn delivers(&self, prompt: Prompt, answer: Option<String>) -> bool {
        true
    }

    /// Puts `prompt` to the user and waits for what is delivered.
    fn prompt(&self, prompt: &Prompt) -> (answer: Option<String>)
        ensures
            self.delivers(*prompt, answer),
    ;
}

/// The value that an answer to a prompt stands for: the answer itself, or a
/// failure that carries the prompt's message where none was delivered.
pub open spec fn prompted_value(prompt: Prompt, answer: Option<String>) -> Result<
    String,
    TemplateError<String>,
> {
    match answer {
        Some(text) => Ok(text),
        None => Err(TemplateError::PromptFailure { message: prompt.message }),
    }
}

impl Prompt {
    /// The value that a prompt gave: the answer, or a failure that carries
    /// the prompt's message where no answer was delivered.
    pub fn value(&self, answer: Option<String>) -> (r: Result<String, TemplateError<String>>)
        ensures
            r == prompted_value(*self, answer),
    {
        match answer {
            Some(text) => Ok(text),
            None => Err(TemplateError::PromptFailure { message: self.message.clone() }),
        }
    }

    /// Puts the prompt to the user and takes the answer as a value: this
    /// prompt is the one that the prompter is handed, and the result is the
    /// value of what the prompter delivered for it. What that is, and whether
    /// there is an answer at all, is the prompter's to say: without one the
    /// prompt has failed.
    pub fn ask<P: Prompter>(&self, prompter: &P) -> (r: Result<String, TemplateError<String>>)
        ensures
            exists|answer: Option<String>| #[trigger]
                prompter.delivers(*self, answer) && r == prompted_value(*self, answer),
            r matches Err(error) ==> error == (TemplateError::PromptFailure::<String> {
                message: self.message,
            }),
    {
        self.value(prompter.prompt(self))
    }
}

} // verus!
