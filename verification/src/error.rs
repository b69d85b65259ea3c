//! The errors of rendering. An error points at the text that failed: it
//! borrows that text where it is shown in place, and owns a copy where it
//! outlives the template.

use crate::text::push_char;
use vstd::prelude::*;
use vstd::string::*;

verus! {

/// Why a template could not be rendered. `S` is how the error holds the text
/// it points at: `&str` for an error that borrows from the template and the
/// context, `String` for one that lives on without them. `O` is how it holds
/// what a collaborator said: text of its own, in either case.
#[derive(Clone, Debug, PartialEq, Eq)]
pub enum TemplateError<S, O = String> {
    /// The text between the braces is no key.
    InvalidKey { key: S },
    /// Neither the overrides nor the profile define the field.
    FieldUnknown { field: S },
    /// No chain has this id.
    ChainUnknown { chain_id: S },
    /// The chain's recipe has no successful response to offer: none was
    /// recorded, or the request sent for it just now got none.
    ChainNoResponse { chain_id: S },
    /// The chain has to send its recipe's request, and the context has no
    /// transport to send it with.
    TriggerDisabled { chain_id: S },
    /// The chain's path is not a JSON path; `reason` is what the path's
    /// parser said of it.
    ChainJsonPath { chain_id: S, path: S, reason: O },
    /// The chain has a path, and the response body is not JSON; `reason` is
    /// what the JSON parser said of it.
    ChainJsonResponse { chain_id: S, reason: O },
    /// The chain's path selects `matches` nodes of the response, not one.
    ChainInvalidResult { chain_id: S, matches: usize },
    /// The chain would send a request from a render that has used up its
    /// budget of nested requests.
    RecursionLimitExceeded { chain_id: S },
    /// The history store failed; the message is the store's own.
    HistoryAccessFailure { message: O },
    /// The prompter delivered no value; the message is the prompt's.
    PromptFailure { message: O },
}

impl<S: View<V = Seq<char>>> View for TemplateError<S, String> {
    type V = TemplateError<Seq<char>, Seq<char>>;

    open spec fn view(&self) -> TemplateError<Seq<char>, Seq<char>> {
        match *self {
            TemplateError::InvalidKey { key } => TemplateError::InvalidKey { key: key@ },
            TemplateError::FieldUnknown { field } => TemplateError::FieldUnknown { field: field@ },
            TemplateError::ChainUnknown { chain_id } => TemplateError::ChainUnknown {
                chain_id: chain_id@,
            },
            TemplateError::ChainNoResponse { chain_id } => TemplateError::ChainNoResponse {
                chain_id: chain_id@,
            },
            TemplateError::TriggerDisabled { chain_id } => TemplateError::TriggerDisabled {
                chain_id: chain_id@,
            },
            TemplateError::ChainJsonPath { chain_id, path, reason } => {
                TemplateError::ChainJsonPath { chain_id: chain_id@, path: path@, reason: reason@ }
            },
            TemplateError::ChainJsonResponse { chain_id, reason } => {
                TemplateError::ChainJsonResponse { chain_id: chain_id@, reason: reason@ }
            },
            TemplateError::ChainInvalidResult { chain_id, matches } => {
                TemplateError::ChainInvalidResult { chain_id: chain_id@, matches }
            },
            TemplateError::RecursionLimitExceeded { chain_id } => {
                TemplateError::RecursionLimitExceeded { chain_id: chain_id@ }
            },
            TemplateError::HistoryAccessFailure { message } => {
                TemplateError::HistoryAccessFailure { message: message@ }
            },
            TemplateError::PromptFailure { message } => TemplateError::PromptFailure {
                message: message@,
            },
        }
    }
}

impl<'a> TemplateError<&'a str> {
    /// The same error with a copy of each text it borrowed.
    pub fn into_owned(self) -> (owned: TemplateError<String>)
        ensures
            owned@ == self@,
    {
        match self {
            TemplateError::InvalidKey { key } => TemplateError::InvalidKey { key: key.to_owned() },
            TemplateError::FieldUnknown { field } => TemplateError::FieldUnknown {
                field: field.to_owned(),
            },
            TemplateError::ChainUnknown { chain_id } => TemplateError::ChainUnknown {
                chain_id: chain_id.to_owned(),
            },
            TemplateError::ChainNoResponse { chain_id } => TemplateError::ChainNoResponse {
                chain_id: chain_id.to_owned(),
            },
            TemplateError::TriggerDisabled { chain_id } => TemplateError::TriggerDisabled {
                chain_id: chain_id.to_owned(),
            },
            TemplateError::ChainJsonPath { chain_id, path, reason } => {
                TemplateError::ChainJsonPath {
                    chain_id: chain_id.to_owned(),
                    path: path.to_owned(),
                    reason,
                }
            },
            TemplateError::ChainJsonResponse { chain_id, reason } => {
                TemplateError::ChainJsonResponse { chain_id: chain_id.to_owned(), reason }
            },
            TemplateError::ChainInvalidResult { chain_id, matches } => {
                TemplateError::ChainInvalidResult { chain_id: chain_id.to_owned(), matches }
            },
            TemplateError::RecursionLimitExceeded { chain_id } => {
                TemplateError::RecursionLimitExceeded { chain_id: chain_id.to_owned() }
            },
            TemplateError::HistoryAccessFailure { message } => {
                TemplateError::HistoryAccessFailure { message }
            },
            TemplateError::PromptFailure { message } => TemplateError::PromptFailure { message },
        }
    }
}

/// `prefix`, then `text` between double quotes.
pub open spec fn quoted(prefix: Seq<char>, text: Seq<char>) -> Seq<char> {
    prefix + seq!['"'] + text + seq!['"']
}

/// What an error says to a reader.
pub open spec fn message_text(error: TemplateError<Seq<char>, Seq<char>>) -> Seq<char> {
    match error {
        TemplateError::InvalidKey { key } => quoted("Failed to parse template key "@, key),
        TemplateError::FieldUnknown { field } => quoted("Unknown field "@, field),
        TemplateError::ChainUnknown { chain_id } => quoted("Unknown chain "@, chain_id),
        TemplateError::ChainNoResponse { chain_id } => quoted(
            "No response available for chain "@,
            chain_id,
        ),
        TemplateError::TriggerDisabled { chain_id } => quoted(
            "Triggered requests are disabled, and needed for chain "@,
            chain_id,
        ),
        TemplateError::ChainJsonPath { chain_id, path, reason } => quoted(
            "Error parsing JSON path "@,
            path,
        ) + quoted(" for chain "@, chain_id) + ": "@ + reason,
        TemplateError::ChainJsonResponse { chain_id, reason } => quoted(
            "Error parsing response as JSON for chain "@,
            chain_id,
        ) + ": "@ + reason,
        TemplateError::ChainInvalidResult { chain_id, .. } => quoted(
            "Expected exactly one result for chain "@,
            chain_id,
        ),
        TemplateError::RecursionLimitExceeded { chain_id } => quoted(
            "Recursion limit exceeded at chain "@,
            chain_id,
        ),
        TemplateError::HistoryAccessFailure { message } => message,
        TemplateError::PromptFailure { message } => message,
    }
}

/// Appends `prefix` and the quoted `text` to `out`.
pub(crate) fn append_quoted(out: &mut String, prefix: &str, text: &str)
    ensures
        final(out)@ == old(out)@ + quoted(prefix@, text@),
{
    out.append(prefix);
    push_char(out, '"');
    out.append(text);
    push_char(out, '"');
}

impl<S, O> TemplateError<S, O> {
    /// Whether the error says that a chain had to send a request and could
    /// not for want of a transport. A caller that rendered without one on
    /// purpose can then say so.
    pub fn has_trigger_disabled_error(&self) -> (disabled: bool)
        ensures
            disabled == (*self is TriggerDisabled),
    {
        match self {
            TemplateError::TriggerDisabled { .. } => true,
            _ => false,
        }
    }
}

impl TemplateError<String> {
    /// What the error says to a reader.
    pub fn message(&self) -> (text: String)
        ensures
            text@ == message_text(self@),
    {
        let mut text = String::new();
        match self {
            TemplateError::InvalidKey { key } => {
                append_quoted(&mut text, "Failed to parse template key ", key.as_str());
            },
            TemplateError::FieldUnknown { field } => {
                append_quoted(&mut text, "Unknown field ", field.as_str());
            },
            TemplateError::ChainUnknown { chain_id } => {
                append_quoted(&mut text, "Unknown chain ", chain_id.as_str());
            },
            TemplateError::ChainNoResponse { chain_id } => {
                append_quoted(&mut text, "No response available for chain ", chain_id.as_str());
            },
            TemplateError::TriggerDisabled { chain_id } => {
                append_quoted(
                    &mut text,
                    "Triggered requests are disabled, and needed for chain ",
                    chain_id.as_str(),
                );
            },
            TemplateError::ChainJsonPath { chain_id, path, reason } => {
                append_quoted(&mut text, "Error parsing JSON path ", path.as_str());
                append_quoted(&mut text, " for chain ", chain_id.as_str());
                text.append(": ");
                text.append(reason.as_str());
            },
            TemplateError::ChainJsonResponse { chain_id, reason } => {
                append_quoted(
                    &mut text,
                    "Error parsing response as JSON for chain ",
                    chain_id.as_str(),
                );
                text.append(": ");
                text.append(reason.as_str());
            },
            TemplateError::ChainInvalidResult { chain_id, .. } => {
                append_quoted(
                    &mut text,
                    "Expected exactly one result for chain ",
                    chain_id.as_str(),
                );
            },
            TemplateError::RecursionLimitExceeded { chain_id } => {
                append_quoted(&mut text, "Recursion limit exceeded at chain ", chain_id.as_str());
            },
            TemplateError::HistoryAccessFailure { message } => {
                text.append(message.as_str());
            },
            TemplateError::PromptFailure { message } => {
                text.append(message.as_str());
            },
        }
        assert(text@ =~= message_text(self@));
        text
    }
}

} // verus!
