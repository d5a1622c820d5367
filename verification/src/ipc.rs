//! The IPC server: requests are answered through a [`Backend`] the window manager implements, and
//! subscriptions are kept by [`Subscriptions`].
use vstd::prelude::*;
use vstd::utf8::{
    char_is_scalar, char_u32_cast, decode_utf8, encode_scalar, encode_utf8, encode_utf8_decode_utf8, encode_utf8_valid_utf8,
    is_scalar, valid_utf8,
};

use crate::mach::framing::{
    a_terminated_reply_is_read_back, before_nul, nul_ended, padded, trim_at_nul, whole_words,
    zeros_behind_change_nothing,
};
use crate::protocol::commands::{Addressee, Command};
use crate::protocol::queries::WindowId;
use crate::protocol::transport::{
    detailed, failure, failure_because, is_text, object, one_field, Body, Field, RiniRequest,
    RiniResponse,
};
use crate::text::texts;

verus! {

/// What the window manager answers. Every answer arrives written down, as the data a response
/// carries; an answer that could not be written down arrives as the reason.
pub trait Backend {
    type Layout;

    type Reactor;

    type Config;

    type Data;

    fn workspaces(&self, space: Option<u64>) -> Result<Self::Data, String>;

    fn windows(&self, space: Option<u64>) -> Result<Self::Data, String>;

    fn window(&self, window: WindowId) -> Option<Result<Self::Data, String>>;

    fn displays(&self) -> Result<Self::Data, String>;

    fn layout_state(&self, space: Option<u64>, workspace: Option<usize>) -> Option<
        Result<Self::Data, String>,
    >;

    fn workspace_layouts(&self, space: Option<u64>, workspace: Option<usize>) -> Result<
        Self::Data,
        String,
    >;

    fn applications(&self) -> Result<Self::Data, String>;

    fn metrics(&self) -> Self::Data;

    fn diagnostics(&self) -> Result<Self::Data, String>;

    /// Reads a command in the form the window manager executes.
    fn decode(&self, command: Command<Self::Layout, Self::Reactor>) -> Result<
        Command<Self::Layout, Self::Reactor>,
        String,
    >;

    /// Reads a command in the form the config actor takes.
    fn decode_config(&self, command: Self::Config) -> Result<Self::Config, String>;

    /// Queues a command; `Err` only when the reactor is gone.
    fn execute(&self, command: Command<Self::Layout, Self::Reactor>) -> Result<(), String>;

    /// The live configuration. `Err` when the config actor did not answer.
    fn config(&self) -> Result<Self::Data, String>;

    /// Applies a config command. Outer `Err` when the config actor did not answer; inner `Err` is
    /// the actor's own rejection.
    fn apply_config(&self, command: Self::Config) -> Result<Result<(), String>, String>;
}

/// Who is told of which event.
pub trait Subscriptions<D> {
    fn subscribe_client(&self, client: u32, event: String);

    fn unsubscribe_client(&self, client: u32, event: String);

    fn subscribe_cli(&self, event: String, command: String, args: Vec<String>);

    fn unsubscribe_cli(&self, event: String);

    fn list_cli_subscriptions(&self) -> D;
}

/// The answer to a query: what was written down, or that it could not be.
pub open spec fn answers<D>(response: RiniResponse<D>, written: Result<D, String>) -> bool {
    match written {
        Ok(data) => response == (RiniResponse::Success { data: Body::Value(data) }),
        Err(reason) => response matches RiniResponse::Error { error } && detailed(
            error,
            "Failed to serialize response"@,
            reason@,
        ),
    }
}

/// The answer to a query for one thing, which may not be there.
pub open spec fn answers_found<D>(
    response: RiniResponse<D>,
    found: Option<Result<D, String>>,
    missing: Seq<char>,
) -> bool {
    match found {
        Some(written) => answers(response, written),
        None => response matches RiniResponse::Error { error } && one_field(
            error,
            "message"@,
            missing,
        ),
    }
}

/// The answer to a question for the configuration.
pub open spec fn answers_config<D>(response: RiniResponse<D>, config: Result<D, String>) -> bool {
    match config {
        Ok(value) => response == (RiniResponse::Success { data: Body::Value(value) }),
        Err(reason) => response matches RiniResponse::Error { error } && detailed(
            error,
            "Failed to get config response"@,
            reason@,
        ),
    }
}

/// The answer to a command the window manager executes.
pub open spec fn answers_execution<D>(response: RiniResponse<D>, executed: Result<(), String>) -> bool {
    match executed {
        Ok(_) => response matches RiniResponse::Success { data: Body::Text(text) } && text@
            == "Command executed successfully"@,
        Err(reason) => response matches RiniResponse::Error { error } && detailed(
            error,
            "Failed to execute command"@,
            reason@,
        ),
    }
}

/// The answer to a command for the configuration.
pub open spec fn answers_application<D>(
    response: RiniResponse<D>,
    applied: Result<Result<(), String>, String>,
) -> bool {
    match applied {
        Ok(Ok(_)) => response matches RiniResponse::Success { data: Body::Text(text) } && text@
            == "Config applied successfully"@,
        Ok(Err(reason)) => response matches RiniResponse::Error { error } && one_field(
            error,
            "message"@,
            reason@,
        ),
        Err(reason) => response matches RiniResponse::Error { error } && one_field(
            error,
            "message"@,
            "Failed to apply config: "@ + reason@,
        ),
    }
}

/// The answer to a change of subscription: the event under the name of the change.
pub open spec fn acknowledges<D>(response: RiniResponse<D>, change: Seq<char>, event: Seq<char>) -> bool {
    response matches RiniResponse::Success { data } && one_field(data, change, event)
}

/// The answer to a command line's subscription: the event, the command and its arguments.
pub open spec fn acknowledges_cli<D>(
    response: RiniResponse<D>,
    event: Seq<char>,
    command: Seq<char>,
    args: Seq<String>,
) -> bool {
    response matches RiniResponse::Success { data: Body::Object(fields) } && fields@.len() == 3
        && fields@[0].0@ == "cli_subscribed"@ && is_text(fields@[0].1, event) && fields@[1].0@
        == "command"@ && is_text(fields@[1].1, command) && fields@[2].0@ == "args"@ && (
    fields@[2].1 matches Field::Texts(held) && texts(held@) == texts(args))
}

/// A response with what was written down, or that it could not be.
pub fn success<D>(written: Result<D, String>) -> (response: RiniResponse<D>)
    ensures
        answers(response, written),
{
    match written {
        Ok(data) => RiniResponse::Success { data: Body::Value(data) },
        Err(reason) => failure_because("Failed to serialize response".to_owned(), reason),
    }
}

/// A response with the one thing that was asked for, or the message that it is missing.
pub fn lookup_response<D>(found: Option<Result<D, String>>, missing: &str) -> (response: RiniResponse<D>)
    ensures
        answers_found(response, found, missing@),
{
    match found {
        Some(written) => success(written),
        None => failure(missing.to_owned()),
    }
}

/// A response with the configuration.
pub fn config_response<D>(config: Result<D, String>) -> (response: RiniResponse<D>)
    ensures
        answers_config(response, config),
{
    match config {
        Ok(value) => RiniResponse::Success { data: Body::Value(value) },
        Err(reason) => failure_because("Failed to get config response".to_owned(), reason),
    }
}

/// A response to a command the window manager was given.
pub fn execution_response<D>(executed: Result<(), String>) -> (response: RiniResponse<D>)
    ensures
        answers_execution(response, executed),
{
    match executed {
        Ok(_) => RiniResponse::Success {
            data: Body::Text("Command executed successfully".to_owned()),
        },
        Err(reason) => failure_because("Failed to execute command".to_owned(), reason),
    }
}

/// A response to a command the config actor was given.
pub fn application_response<D>(applied: Result<Result<(), String>, String>) -> (response:
    RiniResponse<D>)
    ensures
        answers_application(response, applied),
{
    match applied {
        Ok(Ok(_)) => RiniResponse::Success {
            data: Body::Text("Config applied successfully".to_owned()),
        },
        Ok(Err(reason)) => failure(reason),
        Err(reason) => prefixed("Failed to apply config: ", reason),
    }
}

/// An error whose message is `prefix` and a reason.
fn prefixed<D>(prefix: &str, reason: String) -> (response: RiniResponse<D>)
    ensures
        response matches RiniResponse::Error { error } && one_field(
            error,
            "message"@,
            prefix@ + reason@,
        ),
{
    let mut message: String = prefix.to_owned();
    message.append(reason.as_str());
    failure(message)
}

/// The response to a message that is not a request.
pub fn invalid_request<D>(reason: String) -> (response: RiniResponse<D>)
    ensures
        response matches RiniResponse::Error { error } && one_field(
            error,
            "message"@,
            "Invalid request format: "@ + reason@,
        ),
{
    prefixed("Invalid request format: ", reason)
}

/// Answers requests.
pub struct MachHandler<B, S> {
    pub reactor: B,
    pub server_state: S,
}

impl<B: Backend, S: Subscriptions<B::Data>> MachHandler<B, S> {
    pub fn new(reactor: B, server_state: S) -> (handler: Self)
        ensures
            handler.reactor == reactor,
            handler.server_state == server_state,
    {
        MachHandler { reactor, server_state }
    }

    /// The response to a command, from what became of it: it is read in the form its addressee takes,
    /// and handed on only when that succeeds.
    pub open spec fn command_answered(
        self,
        command: Addressee<B::Layout, B::Reactor, B::Config>,
        response: RiniResponse<B::Data>,
    ) -> bool {
        match command {
            Addressee::WindowManager(command) => exists|read|
                #[trigger] call_ensures(B::decode, (&self.reactor, command), read) && match read {
                    Ok(command) => exists|done|
                        #[trigger] call_ensures(B::execute, (&self.reactor, command), done)
                            && answers_execution(response, done),
                    Err(reason) => response matches RiniResponse::Error { error } && one_field(
                        error,
                        "message"@,
                        "Invalid command format: "@ + reason@,
                    ),
                },
            Addressee::Config(command) => exists|read|
                #[trigger] call_ensures(B::decode_config, (&self.reactor, command), read)
                    && match read {
                    Ok(command) => exists|done|
                        #[trigger] call_ensures(B::apply_config, (&self.reactor, command), done)
                            && answers_application(response, done),
                    Err(reason) => response matches RiniResponse::Error { error } && one_field(
                        error,
                        "message"@,
                        "Invalid config command: "@ + reason@,
                    ),
                },
        }
    }

    /// A response answers a request: it says what the call the request stands for came to, and it is
    /// that call, with the request's own arguments, that was made.
    pub open spec fn answered(
        self,
        request: RiniRequest<B::Layout, B::Reactor, B::Config>,
        client_port: u32,
        response: RiniResponse<B::Data>,
    ) -> bool {
        let state = &self.server_state;
        let reactor = &self.reactor;
        match request {
            RiniRequest::Subscribe { event } => acknowledges(response, "subscribed"@, event.name())
                && exists|name: String|
                name@ == event.name() && #[trigger] call_ensures(
                    S::subscribe_client,
                    (state, client_port, name),
                    (),
                ),
            RiniRequest::Unsubscribe { event } => acknowledges(
                response,
                "unsubscribed"@,
                event.name(),
            ) && exists|name: String|
                name@ == event.name() && #[trigger] call_ensures(
                    S::unsubscribe_client,
                    (state, client_port, name),
                    (),
                ),
            RiniRequest::SubscribeCli { event, command, args } => acknowledges_cli(
                response,
                event.name(),
                command@,
                args@,
            ) && exists|name: String, run: String, with: Vec<String>|
                name@ == event.name() && run@ == command@ && texts(with@) == texts(args@)
                    && #[trigger] call_ensures(S::subscribe_cli, (state, name, run, with), ()),
            RiniRequest::UnsubscribeCli { event } => acknowledges(
                response,
                "cli_unsubscribed"@,
                event.name(),
            ) && exists|name: String|
                name@ == event.name() && #[trigger] call_ensures(
                    S::unsubscribe_cli,
                    (state, name),
                    (),
                ),
            RiniRequest::ListCliSubscriptions => exists|data|
                #[trigger] call_ensures(S::list_cli_subscriptions, (state,), data) && response == (
                RiniResponse::Success { data: Body::Value(data) }),
            RiniRequest::GetWorkspaces { space_id } => exists|written|
                #[trigger] call_ensures(B::workspaces, (reactor, space_id), written) && answers(
                    response,
                    written,
                ),
            RiniRequest::GetDisplays => exists|written|
                #[trigger] call_ensures(B::displays, (reactor,), written) && answers(
                    response,
                    written,
                ),
            RiniRequest::GetWindows { space_id } => exists|written|
                #[trigger] call_ensures(B::windows, (reactor, space_id), written) && answers(
                    response,
                    written,
                ),
            RiniRequest::GetWindowInfo { window_id } => exists|found|
                #[trigger] call_ensures(B::window, (reactor, window_id), found) && answers_found(
                    response,
                    found,
                    "Window not found"@,
                ),
            RiniRequest::GetLayoutState { space_id, workspace_id } => exists|found|
                #[trigger] call_ensures(B::layout_state, (reactor, space_id, workspace_id), found)
                    && answers_found(response, found, "Space or workspace not found"@),
            RiniRequest::GetWorkspaceLayouts { space_id, workspace_id } => exists|written|
                #[trigger] call_ensures(
                    B::workspace_layouts,
                    (reactor, space_id, workspace_id),
                    written,
                ) && answers(response, written),
            RiniRequest::GetApplications => exists|written|
                #[trigger] call_ensures(B::applications, (reactor,), written) && answers(
                    response,
                    written,
                ),
            RiniRequest::GetMetrics => exists|data|
                #[trigger] call_ensures(B::metrics, (reactor,), data) && response == (
                RiniResponse::Success { data: Body::Value(data) }),
            RiniRequest::GetDiagnostics => exists|written|
                #[trigger] call_ensures(B::diagnostics, (reactor,), written) && answers(
                    response,
                    written,
                ),
            RiniRequest::GetConfig => exists|config|
                #[trigger] call_ensures(B::config, (reactor,), config) && answers_config(
                    response,
                    config,
                ),
            RiniRequest::ExecuteCommand { command } => self.command_answered(
                command.addressed(),
                response,
            ),
        }
    }

    /// Answers a request from the client on `client_port`.
    pub fn handle_request(
        &self,
        request: RiniRequest<B::Layout, B::Reactor, B::Config>,
        client_port: u32,
    ) -> (response: RiniResponse<B::Data>)
        ensures
            self.answered(request, client_port, response),
    {
        match request {
            RiniRequest::Subscribe { event } => {
                self.server_state.subscribe_client(client_port, event.to_text());
                RiniResponse::Success { data: object("subscribed", event.to_text()) }
            },
            RiniRequest::Unsubscribe { event } => {
                self.server_state.unsubscribe_client(client_port, event.to_text());
                RiniResponse::Success { data: object("unsubscribed", event.to_text()) }
            },
            RiniRequest::SubscribeCli { event, command, args } => {
                let with = copied(&args);
                self.server_state.subscribe_cli(
                    event.to_text(),
                    command.as_str().to_owned(),
                    with,
                );
                let mut fields: Vec<(&'static str, Field)> = Vec::new();
                fields.push(("cli_subscribed", Field::Text(event.to_text())));
                fields.push(("command", Field::Text(command)));
                fields.push(("args", Field::Texts(args)));
                RiniResponse::Success { data: Body::Object(fields) }
            },
            RiniRequest::UnsubscribeCli { event } => {
                self.server_state.unsubscribe_cli(event.to_text());
                RiniResponse::Success { data: object("cli_unsubscribed", event.to_text()) }
            },
            RiniRequest::ListCliSubscriptions => {
                RiniResponse::Success {
                    data: Body::Value(self.server_state.list_cli_subscriptions()),
                }
            },
            RiniRequest::GetWorkspaces { space_id } => success(self.reactor.workspaces(space_id)),
            RiniRequest::GetDisplays => success(self.reactor.displays()),
            RiniRequest::GetWindows { space_id } => success(self.reactor.windows(space_id)),
            RiniRequest::GetWindowInfo { window_id } => lookup_response(
                self.reactor.window(window_id),
                "Window not found",
            ),
            RiniRequest::GetLayoutState { space_id, workspace_id } => lookup_response(
                self.reactor.layout_state(space_id, workspace_id),
                "Space or workspace not found",
            ),
            RiniRequest::GetWorkspaceLayouts { space_id, workspace_id } => success(
                self.reactor.workspace_layouts(space_id, workspace_id),
            ),
            RiniRequest::GetApplications => success(self.reactor.applications()),
            RiniRequest::GetMetrics => RiniResponse::Success {
                data: Body::Value(self.reactor.metrics()),
            },
            RiniRequest::GetDiagnostics => success(self.reactor.diagnostics()),
            RiniRequest::GetConfig => config_response(self.reactor.config()),
            RiniRequest::ExecuteCommand { command } => self.handle_command(command.address()),
        }
    }

    /// Hands a command to whom it is for.
    pub fn handle_command(&self, command: Addressee<B::Layout, B::Reactor, B::Config>) -> (response:
        RiniResponse<B::Data>)
        ensures
            self.command_answered(command, response),
    {
        match command {
            Addressee::Config(command) => match self.reactor.decode_config(command) {
                Ok(command) => application_response(self.reactor.apply_config(command)),
                Err(reason) => prefixed("Invalid config command: ", reason),
            },
            Addressee::WindowManager(command) => match self.reactor.decode(command) {
                Ok(command) => execution_response(self.reactor.execute(command)),
                Err(reason) => prefixed("Invalid command format: ", reason),
            },
        }
    }
}

/// The same texts.
fn copied(items: &Vec<String>) -> (copies: Vec<String>)
    ensures
        texts(copies@) == texts(items@),
{
    let mut copies: Vec<String> = Vec::new();
    let mut i: usize = 0;
    while i < items.len()
        invariant
            i <= items@.len(),
            texts(copies@) == texts(items@.take(i as int)),
        decreases items@.len() - i,
    {
        let ghost before = copies@;
        copies.push(items[i].as_str().to_owned());
        proof {
            assert(texts(copies@) =~= texts(before).push(items@[i as int]@));
            assert(texts(items@.take(i + 1)) =~= texts(items@.take(i as int)).push(
                items@[i as int]@,
            ));
        }
        i += 1;
    }
    assert(items@.take(items@.len() as int) == items@);
    copies
}

/// `std::str::from_utf8` accepts exactly the bytes that are UTF-8, and gives the text they encode.
#[verifier::external_body]
fn utf8_text(bytes: &[u8]) -> (text: Option<String>)
    ensures
        text is Some <==> valid_utf8(bytes@),
        text matches Some(t) ==> t@ == decode_utf8(bytes@),
{
    match std::str::from_utf8(bytes) {
        Ok(text) => Some(String::from(text)),
        Err(_) => None,
    }
}

/// The text of a request: the bytes of the message up to its first zero byte. None when there is no
/// message, and when those bytes are not UTF-8.
pub fn request_text(message: &[u8]) -> (text: Option<String>)
    ensures
        text is Some <==> message@.len() > 0 && valid_utf8(before_nul(message@)),
        text matches Some(t) ==> t@ == decode_utf8(before_nul(message@)),
{
    if message.len() == 0 {
        return None;
    }
    utf8_text(trim_at_nul(message).as_slice())
}

/// No byte of a text's encoding is zero, unless the text has the null character in it.
proof fn an_encoding_has_no_zero_byte(text: Seq<char>)
    requires
        forall|i: int| 0 <= i < text.len() ==> text[i] != '\0',
    ensures
        forall|i: int| 0 <= i < encode_utf8(text).len() ==> encode_utf8(text)[i] != 0,
    decreases text.len(),
{
    if text.len() > 0 {
        let c = text[0];
        char_is_scalar(c);
        let first = c as u32;
        char_u32_cast(c, first);
        assert(0u32 as char == '\0');
        assert(first != 0);
        let bytes = encode_scalar(first);
        assert forall|i: int| 0 <= i < bytes.len() implies bytes[i] != 0 by {
            a_scalar_has_no_zero_byte(first);
        }
        let rest = text.drop_first();
        assert forall|i: int| 0 <= i < rest.len() implies rest[i] != '\0' by {
            assert(rest[i] == text[i + 1]);
        }
        an_encoding_has_no_zero_byte(rest);
        assert(encode_utf8(text) == bytes + encode_utf8(rest));
    }
}

proof fn a_scalar_has_no_zero_byte(scalar: u32)
    requires
        scalar != 0,
        is_scalar(scalar),
    ensures
        forall|i: int| 0 <= i < encode_scalar(scalar).len() ==> encode_scalar(scalar)[i] != 0,
{
    let s = scalar;
    assert(0 < s <= 0x7f ==> (s & 0x7f) as u8 != 0) by (bit_vector);
    assert(forall|b: u8| #[trigger] (0x80u8 | b) != 0) by (bit_vector);
    assert(forall|b: u8| #[trigger] (0xC0u8 | b) != 0) by (bit_vector);
    assert(forall|b: u8| #[trigger] (0xE0u8 | b) != 0) by (bit_vector);
    assert(forall|b: u8| #[trigger] (0xF0u8 | b) != 0) by (bit_vector);
}

/// A request is read as it was written: the text of a message framed for the wire is the text that
/// was framed, for every text without the null character.
pub proof fn a_framed_request_is_read_as_written(text: Seq<char>)
    requires
        forall|i: int| 0 <= i < text.len() ==> text[i] != '\0',
    ensures
        valid_utf8(before_nul(padded(encode_utf8(text)))),
        decode_utf8(before_nul(padded(encode_utf8(text)))) == text,
        decode_utf8(before_nul(padded(nul_ended(encode_utf8(text))))) == text,
{
    let bytes = encode_utf8(text);
    an_encoding_has_no_zero_byte(text);
    let zeros = Seq::new((whole_words(bytes.len() as int) - bytes.len()) as nat, |i: int| 0u8);
    zeros_behind_change_nothing(bytes, zeros);
    a_terminated_reply_is_read_back(bytes);
    encode_utf8_valid_utf8(text);
    encode_utf8_decode_utf8(text);
}

/// Why the server may not start, when another one answers already.
pub fn run_mach_server(is_registered: bool) -> (started: Result<(), String>)
    ensures
        started is Ok <==> !is_registered,
        started matches Err(reason) ==> reason@
            == "Another Rini instance is already running; quit it before starting another."@,
{
    if is_registered {
        Err("Another Rini instance is already running; quit it before starting another.".to_owned())
    } else {
        Ok(())
    }
}

/// A response is an error whose object holds the message, with the reason besides it.
pub open spec fn fails_with<D>(response: RiniResponse<D>, message: Seq<char>, reason: Seq<char>) -> bool {
    response matches RiniResponse::Error { error: Body::Object(fields) } && fields@.len() == 2
        && fields@[0].0@ == "message"@ && (fields@[0].1 matches Field::Text(text) && text@ == message)
        && fields@[1].0@ == "details"@ && (fields@[1].1 matches Field::Text(why) && why@ == reason)
}

/// A response is an error whose object holds the message alone.
pub open spec fn fails_saying<D>(response: RiniResponse<D>, message: Seq<char>) -> bool {
    response matches RiniResponse::Error { error: Body::Object(fields) } && fields@.len() == 1
        && fields@[0].0@ == "message"@ && (fields@[0].1 matches Field::Text(text) && text@ == message)
}

/// A response is a success whose object holds one text under the name.
pub open spec fn succeeds_naming<D>(response: RiniResponse<D>, name: Seq<char>, text: Seq<char>) -> bool {
    response matches RiniResponse::Success { data: Body::Object(fields) } && fields@.len() == 1
        && fields@[0].0@ == name && (fields@[0].1 matches Field::Text(held) && held@ == text)
}

/// An answer that was written down is handed on as it is, and one that was not is a failure with the
/// reason; what is missing is said to be.
pub proof fn an_answer_is_handed_on(
    written: Result<u64, String>,
    found: Option<Result<u64, String>>,
    missing: &str,
    response: RiniResponse<u64>,
    looked_up: RiniResponse<u64>,
    config: RiniResponse<u64>,
)
    requires
        call_ensures(success::<u64>, (written,), response),
        call_ensures(lookup_response::<u64>, (found, missing), looked_up),
        call_ensures(config_response::<u64>, (written,), config),
    ensures
        written matches Ok(data) ==> response == (RiniResponse::Success { data: Body::Value(data) })
            && config == (RiniResponse::Success { data: Body::Value(data) }),
        written matches Err(reason) ==> fails_with(
            response,
            "Failed to serialize response"@,
            reason@,
        ) && fails_with(config, "Failed to get config response"@, reason@),
        found is None ==> fails_saying(looked_up, missing@),
        found matches Some(Ok(data)) ==> looked_up == (RiniResponse::Success {
            data: Body::Value(data),
        }),
        found matches Some(Err(reason)) ==> fails_with(
            looked_up,
            "Failed to serialize response"@,
            reason@,
        ),
{
}

/// A command that was carried out is answered with success, whoever carried it out; one that was not
/// is a failure with the reason, and the configuration's own rejection is handed on word for word.
pub proof fn a_command_is_answered_by_its_outcome(
    executed: Result<(), String>,
    applied: Result<Result<(), String>, String>,
    run: RiniResponse<u64>,
    set: RiniResponse<u64>,
    reason: String,
    invalid: RiniResponse<u64>,
)
    requires
        call_ensures(execution_response::<u64>, (executed,), run),
        call_ensures(application_response::<u64>, (applied,), set),
        call_ensures(invalid_request::<u64>, (reason,), invalid),
    ensures
        run is Success <==> executed is Ok,
        executed is Ok ==> (run matches RiniResponse::Success { data: Body::Text(text) } && text@
            == "Command executed successfully"@),
        executed matches Err(why) ==> fails_with(run, "Failed to execute command"@, why@),
        set is Success <==> applied matches Ok(Ok(_)),
        applied matches Ok(Ok(_)) ==> (set matches RiniResponse::Success { data: Body::Text(text) }
            && text@ == "Config applied successfully"@),
        applied matches Ok(Err(why)) ==> fails_saying(set, why@),
        applied matches Err(why) ==> fails_saying(set, "Failed to apply config: "@ + why@),
        fails_saying(invalid, "Invalid request format: "@ + reason@),
{
}

/// A client's subscription reaches the subscriptions under the event's own name and the client's own
/// port, and is acknowledged by that name.
pub proof fn a_subscription_is_made_for_the_client<B: Backend, S: Subscriptions<B::Data>>(
    handler: MachHandler<B, S>,
    event: crate::protocol::events::EventKind,
    client_port: u32,
    subscribed: RiniResponse<B::Data>,
    unsubscribed: RiniResponse<B::Data>,
    cli_unsubscribed: RiniResponse<B::Data>,
)
    requires
        handler.answered(RiniRequest::Subscribe { event }, client_port, subscribed),
        handler.answered(RiniRequest::Unsubscribe { event }, client_port, unsubscribed),
        handler.answered(RiniRequest::UnsubscribeCli { event }, client_port, cli_unsubscribed),
    ensures
        succeeds_naming(subscribed, "subscribed"@, event.name()),
        succeeds_naming(unsubscribed, "unsubscribed"@, event.name()),
        succeeds_naming(cli_unsubscribed, "cli_unsubscribed"@, event.name()),
        exists|name: String|
            name@ == event.name() && #[trigger] call_ensures(
                S::subscribe_client,
                (&handler.server_state, client_port, name),
                (),
            ),
        exists|name: String|
            name@ == event.name() && #[trigger] call_ensures(
                S::unsubscribe_client,
                (&handler.server_state, client_port, name),
                (),
            ),
        exists|name: String|
            name@ == event.name() && #[trigger] call_ensures(
                S::unsubscribe_cli,
                (&handler.server_state, name),
                (),
            ),
{
}

/// A command line subscribes with its own command and arguments, and they are read back to it.
pub proof fn a_command_line_subscribes_as_it_asks<B: Backend, S: Subscriptions<B::Data>>(
    handler: MachHandler<B, S>,
    event: crate::protocol::events::EventKind,
    command: String,
    args: Vec<String>,
    client_port: u32,
    response: RiniResponse<B::Data>,
)
    requires
        handler.answered(
            RiniRequest::SubscribeCli { event, command, args },
            client_port,
            response,
        ),
    ensures
        response matches RiniResponse::Success { data: Body::Object(fields) } && fields@.len() == 3
            && fields@[0].0@ == "cli_subscribed"@ && (fields@[0].1 matches Field::Text(name)
            && name@ == event.name()) && fields@[1].0@ == "command"@ && (
        fields@[1].1 matches Field::Text(run) && run@ == command@) && fields@[2].0@ == "args"@ && (
        fields@[2].1 matches Field::Texts(with) && texts(with@) == texts(args@)),
        exists|name: String, run: String, with: Vec<String>|
            name@ == event.name() && run@ == command@ && texts(with@) == texts(args@)
                && #[trigger] call_ensures(
                S::subscribe_cli,
                (&handler.server_state, name, run, with),
                (),
            ),
{
}

/// A query for a list is answered by the call of its own name, with its own arguments: what that gave
/// is the success, and its reason the failure.
pub proof fn a_query_is_answered_by_its_own_call<B: Backend, S: Subscriptions<B::Data>>(
    handler: MachHandler<B, S>,
    space_id: Option<u64>,
    workspace_id: Option<usize>,
    client_port: u32,
    workspaces: RiniResponse<B::Data>,
    windows: RiniResponse<B::Data>,
    displays: RiniResponse<B::Data>,
    layouts: RiniResponse<B::Data>,
    applications: RiniResponse<B::Data>,
    diagnostics: RiniResponse<B::Data>,
)
    requires
        handler.answered(RiniRequest::GetWorkspaces { space_id }, client_port, workspaces),
        handler.answered(RiniRequest::GetWindows { space_id }, client_port, windows),
        handler.answered(RiniRequest::GetDisplays, client_port, displays),
        handler.answered(
            RiniRequest::GetWorkspaceLayouts { space_id, workspace_id },
            client_port,
            layouts,
        ),
        handler.answered(RiniRequest::GetApplications, client_port, applications),
        handler.answered(RiniRequest::GetDiagnostics, client_port, diagnostics),
    ensures
        exists|written|
            #[trigger] call_ensures(B::workspaces, (&handler.reactor, space_id), written)
                && hands_on(workspaces, written),
        exists|written|
            #[trigger] call_ensures(B::windows, (&handler.reactor, space_id), written) && hands_on(
                windows,
                written,
            ),
        exists|written|
            #[trigger] call_ensures(B::displays, (&handler.reactor,), written) && hands_on(
                displays,
                written,
            ),
        exists|written|
            #[trigger] call_ensures(
                B::workspace_layouts,
                (&handler.reactor, space_id, workspace_id),
                written,
            ) && hands_on(layouts, written),
        exists|written|
            #[trigger] call_ensures(B::applications, (&handler.reactor,), written) && hands_on(
                applications,
                written,
            ),
        exists|written|
            #[trigger] call_ensures(B::diagnostics, (&handler.reactor,), written) && hands_on(
                diagnostics,
                written,
            ),
{
}

/// What was written down is the success as it is, and what was not is a failure that says why.
pub open spec fn hands_on<D>(response: RiniResponse<D>, written: Result<D, String>) -> bool {
    &&& written matches Ok(data) ==> response == (RiniResponse::Success { data: Body::Value(data) })
    &&& written matches Err(reason) ==> fails_with(
        response,
        "Failed to serialize response"@,
        reason@,
    )
}

/// A query for one thing is answered by the call of its own name; where that finds nothing, the answer
/// says what is missing.
pub proof fn a_missing_thing_is_said_to_be_missing<B: Backend, S: Subscriptions<B::Data>>(
    handler: MachHandler<B, S>,
    window_id: WindowId,
    space_id: Option<u64>,
    workspace_id: Option<usize>,
    client_port: u32,
    window: RiniResponse<B::Data>,
    layout: RiniResponse<B::Data>,
)
    requires
        handler.answered(RiniRequest::GetWindowInfo { window_id }, client_port, window),
        handler.answered(
            RiniRequest::GetLayoutState { space_id, workspace_id },
            client_port,
            layout,
        ),
    ensures
        exists|found|
            #[trigger] call_ensures(B::window, (&handler.reactor, window_id), found) && (
            match found {
                Some(written) => hands_on(window, written),
                None => fails_saying(window, "Window not found"@),
            }),
        exists|found|
            #[trigger] call_ensures(
                B::layout_state,
                (&handler.reactor, space_id, workspace_id),
                found,
            ) && (match found {
                Some(written) => hands_on(layout, written),
                None => fails_saying(layout, "Space or workspace not found"@),
            }),
{
}

/// The metrics and the command lines' subscriptions are handed on as they are, and the configuration
/// where its actor answers.
pub proof fn the_metrics_are_handed_on<B: Backend, S: Subscriptions<B::Data>>(
    handler: MachHandler<B, S>,
    client_port: u32,
    metrics: RiniResponse<B::Data>,
    listed: RiniResponse<B::Data>,
    config: RiniResponse<B::Data>,
)
    requires
        handler.answered(RiniRequest::GetMetrics, client_port, metrics),
        handler.answered(RiniRequest::ListCliSubscriptions, client_port, listed),
        handler.answered(RiniRequest::GetConfig, client_port, config),
    ensures
        exists|data|
            #[trigger] call_ensures(B::metrics, (&handler.reactor,), data) && metrics == (
            RiniResponse::Success { data: Body::Value(data) }),
        exists|data|
            #[trigger] call_ensures(S::list_cli_subscriptions, (&handler.server_state,), data)
                && listed == (RiniResponse::Success { data: Body::Value(data) }),
        exists|given|
            #[trigger] call_ensures(B::config, (&handler.reactor,), given) && (match given {
                Ok(value) => config == (RiniResponse::Success { data: Body::Value(value) }),
                Err(reason) => fails_with(config, "Failed to get config response"@, reason@),
            }),
{
}

/// A command is carried out only after it was read; one that cannot be read is refused with the
/// reason, and is handed to nobody. Configuration commands never reach the window manager, nor others
/// the configuration.
pub proof fn a_command_is_read_before_it_is_carried_out<B: Backend, S: Subscriptions<B::Data>>(
    handler: MachHandler<B, S>,
    command: crate::protocol::commands::RiniCommand<B::Layout, B::Reactor, B::Config>,
    client_port: u32,
    response: RiniResponse<B::Data>,
)
    requires
        handler.answered(RiniRequest::ExecuteCommand { command }, client_port, response),
    ensures
        command matches crate::protocol::commands::RiniCommand::Config(given) ==> exists|read|
            #[trigger] call_ensures(B::decode_config, (&handler.reactor, given), read) && (
            match read {
                Ok(order) => exists|done|
                    #[trigger] call_ensures(B::apply_config, (&handler.reactor, order), done)
                        && answers_application(response, done),
                Err(reason) => fails_saying(response, "Invalid config command: "@ + reason@),
            }),
        command matches crate::protocol::commands::RiniCommand::Layout(given) ==> exists|read|
            #[trigger] call_ensures(
                B::decode,
                (&handler.reactor, Command::Layout(given)),
                read,
            ) && handler.carried_out(read, response),
        command matches crate::protocol::commands::RiniCommand::Reactor(given) ==> exists|read|
            #[trigger] call_ensures(
                B::decode,
                (&handler.reactor, Command::Reactor(given)),
                read,
            ) && handler.carried_out(read, response),
        command matches crate::protocol::commands::RiniCommand::Metrics(given) ==> exists|read|
            #[trigger] call_ensures(
                B::decode,
                (&handler.reactor, Command::Metrics(given)),
                read,
            ) && handler.carried_out(read, response),
{
}

impl<B: Backend, S: Subscriptions<B::Data>> MachHandler<B, S> {
    /// What was read is carried out and answered by what came of it; what could not be read is refused
    /// with the reason.
    pub open spec fn carried_out(
        self,
        read: Result<Command<B::Layout, B::Reactor>, String>,
        response: RiniResponse<B::Data>,
    ) -> bool {
        match read {
            Ok(order) => exists|done|
                #[trigger] call_ensures(B::execute, (&self.reactor, order), done) && (match done {
                    Ok(_) => response is Success,
                    Err(reason) => fails_with(response, "Failed to execute command"@, reason@),
                }),
            Err(reason) => fails_saying(response, "Invalid command format: "@ + reason@),
        }
    }
}

/// A second server is refused, and a first one is not.
pub proof fn only_one_server_runs(first: Result<(), String>, second: Result<(), String>)
    requires
        call_ensures(run_mach_server, (false,), first),
        call_ensures(run_mach_server, (true,), second),
    ensures
        first is Ok,
        second is Err,
{
}

/// A message is a request's text up to its first zero byte; no message has none.
pub proof fn a_request_ends_at_its_first_zero(bytes: Seq<u8>, behind: Seq<u8>)
    requires
        forall|i: int| 0 <= i < bytes.len() ==> bytes[i] != 0,
    ensures
        before_nul(bytes.push(0) + behind) == bytes,
        before_nul(bytes) == bytes,
{
    crate::mach::framing::a_zero_ends_the_payload(bytes, behind);
}

/// Every request is answered, by the call it stands for.
pub proof fn every_request_is_answered<B: Backend, S: Subscriptions<B::Data>>(
    handler: MachHandler<B, S>,
    request: RiniRequest<B::Layout, B::Reactor, B::Config>,
    client_port: u32,
    response: RiniResponse<B::Data>,
)
    requires
        call_ensures(
            MachHandler::<B, S>::handle_request,
            (&handler, request, client_port),
            response,
        ),
    ensures
        handler.answered(request, client_port, response),
{
}

/// A request is read as it was written, and only text is a request.
pub proof fn a_message_is_read_as_its_text(message: &[u8], read: Option<String>, written: Seq<char>)
    requires
        call_ensures(request_text, (message,), read),
        forall|i: int| 0 <= i < written.len() ==> written[i] != '\0',
        message@ == padded(nul_ended(encode_utf8(written))),
    ensures
        read is Some && read->0@ == written,
{
    let bytes = encode_utf8(written);
    an_encoding_has_no_zero_byte(written);
    a_terminated_reply_is_read_back(bytes);
    encode_utf8_valid_utf8(written);
    encode_utf8_decode_utf8(written);
}

} // verus!
