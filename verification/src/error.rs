//! Errors of the tool handlers.

use vstd::prelude::*;

verus! {

/// Why a tool call was not carried out.
#[derive(Debug, PartialEq, Eq)]
pub enum FunctionCallError {
    /// The message is handed back to the model.
    RespondToModel(String),
}

/// The error is the message `text`, handed back to the model.
pub open spec fn responds(error: FunctionCallError, text: Seq<char>) -> bool {
    match error {
        FunctionCallError::RespondToModel(message) => message@ == text,
    }
}

/// The error that hands `text` back to the model.
pub fn respond(text: &str) -> (error: FunctionCallError)
    ensures
        responds(error, text@),
{
    FunctionCallError::RespondToModel(text.to_owned())
}

/// The error for arguments that could not be read, from the reader's message.
pub fn arguments_error(reason: &str) -> (error: FunctionCallError)
    ensures
        responds(error, "failed to parse function arguments: "@ + reason@),
{
    FunctionCallError::RespondToModel(
        "failed to parse function arguments: ".to_owned().concat(reason),
    )
}

/// An error hands its text to the model as it stands.
pub proof fn law_error_hands_its_text_over(text: &str, error: FunctionCallError)
    requires
        call_ensures(respond, (text,), error),
    ensures
        match error {
            FunctionCallError::RespondToModel(message) => message@ == text@,
        },
{
}

/// The error for arguments that could not be read ends in the reader's whole message.
pub proof fn law_reader_message_is_kept(reason: &str, error: FunctionCallError)
    requires
        call_ensures(arguments_error, (reason,), error),
    ensures
        match error {
            FunctionCallError::RespondToModel(message) => message@
                == "failed to parse function arguments: "@ + reason@,
        },
{
}

/// An error responds with exactly one text, the one that it hands over.
pub proof fn law_error_responds_with_one_text(error: FunctionCallError, text: Seq<char>)
    ensures
        match error {
            FunctionCallError::RespondToModel(message) => responds(error, text) <==> message@
                == text,
        },
{
}

} // verus!
