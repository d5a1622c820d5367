//! Requests and the responses to them.
use vstd::prelude::*;

use crate::protocol::commands::RiniCommand;
use crate::protocol::events::EventKind;
use crate::protocol::queries::WindowId;

verus! {

/// What a client asks.
#[derive(Debug)]
#[allow(inconsistent_fields)]
pub enum RiniRequest<L, R, C> {
    Subscribe { event: EventKind },
    Unsubscribe { event: EventKind },
    SubscribeCli { event: EventKind, command: String, args: Vec<String> },
    UnsubscribeCli { event: EventKind },
    ListCliSubscriptions,
    GetWorkspaces { space_id: Option<u64> },
    GetDisplays,
    GetWindows { space_id: Option<u64> },
    GetWindowInfo { window_id: WindowId },
    GetLayoutState { space_id: Option<u64>, workspace_id: Option<usize> },
    GetWorkspaceLayouts { space_id: Option<u64>, workspace_id: Option<usize> },
    GetApplications,
    GetMetrics,
    GetDiagnostics,
    GetConfig,
    ExecuteCommand { command: RiniCommand<L, R, C> },
}

/// One field of an object in a response.
#[derive(Debug)]
pub enum Field {
    Text(String),
    Texts(Vec<String>),
}

/// What a response carries: a value somebody else wrote down, a text, or an object of named fields.
#[derive(Debug)]
pub enum Body<D> {
    Value(D),
    Text(String),
    Object(Vec<(&'static str, Field)>),
}

/// The answer to a request.
#[derive(Debug)]
pub enum RiniResponse<D> {
    Success { data: Body<D> },
    Error { error: Body<D> },
}

/// A field that is a text.
pub open spec fn is_text(field: Field, text: Seq<char>) -> bool {
    field matches Field::Text(held) && held@ == text
}

/// An object with one field, a text.
pub open spec fn one_field<D>(body: Body<D>, name: Seq<char>, text: Seq<char>) -> bool {
    body matches Body::Object(fields) && fields@.len() == 1 && fields@[0].0@ == name && is_text(
        fields@[0].1,
        text,
    )
}

/// An object with a message and what is known besides.
pub open spec fn detailed<D>(body: Body<D>, message: Seq<char>, details: Seq<char>) -> bool {
    body matches Body::Object(fields) && fields@.len() == 2 && fields@[0].0@ == "message"@
        && is_text(fields@[0].1, message) && fields@[1].0@ == "details"@ && is_text(
        fields@[1].1,
        details,
    )
}

/// An object with one field.
pub fn object<D>(name: &'static str, text: String) -> (body: Body<D>)
    ensures
        one_field(body, name@, text@),
{
    let mut fields: Vec<(&'static str, Field)> = Vec::new();
    fields.push((name, Field::Text(text)));
    Body::Object(fields)
}

/// An object that says what went wrong.
pub fn failure<D>(message: String) -> (response: RiniResponse<D>)
    ensures
        response matches RiniResponse::Error { error } && one_field(
            error,
            "message"@,
            message@,
        ),
{
    RiniResponse::Error { error: object("message", message) }
}

/// An object that says what went wrong and why.
pub fn failure_because<D>(message: String, details: String) -> (response: RiniResponse<D>)
    ensures
        response matches RiniResponse::Error { error } && detailed(error, message@, details@),
{
    let mut fields: Vec<(&'static str, Field)> = Vec::new();
    fields.push(("message", Field::Text(message)));
    fields.push(("details", Field::Text(details)));
    RiniResponse::Error { error: Body::Object(fields) }
}

/// A failure is an error that carries its message under "message", and what is known besides under
/// "details"; it is never a success.
pub proof fn a_failure_carries_its_message(
    message: String,
    details: String,
    plain: RiniResponse<u64>,
    because: RiniResponse<u64>,
)
    requires
        call_ensures(failure::<u64>, (message,), plain),
        call_ensures(failure_because::<u64>, (message, details), because),
    ensures
        plain matches RiniResponse::Error { error: Body::Object(fields) } && fields@.len() == 1
            && fields@[0].0@ == "message"@ && (fields@[0].1 matches Field::Text(held) && held@
            == message@),
        because matches RiniResponse::Error { error: Body::Object(fields) } && fields@.len() == 2
            && fields@[0].0@ == "message"@ && (fields@[0].1 matches Field::Text(held) && held@
            == message@) && fields@[1].0@ == "details"@ && (fields@[1].1 matches Field::Text(why)
            && why@ == details@),
{
}

} // verus!
