//! Requests answered through a backend.
use rini::ids::{IdField, WindowIdError};
use rini::ipc::{invalid_request, request_text, run_mach_server, Backend, MachHandler, Subscriptions};
use rini::mach::framing::{send_mach_reply, terminate};
use rini::protocol::commands::{Command, MetricsCommand, RiniCommand};
use rini::protocol::events::EventKind;
use rini::protocol::queries::WindowId;
use rini::protocol::transport::{Body, Field, RiniRequest, RiniResponse};
use serde_json::Value;
use std::cell::RefCell;
use std::rc::Rc;

/// A command of the layout's.
#[derive(Clone, Debug, PartialEq)]
enum LayoutCommand {
    SwitchToWorkspace(usize),
    Unreadable,
}

/// The backend, shared with the test that looks at it.
struct SharedFake(Rc<Fake>);

#[derive(Default)]
struct Fake {
    executed: RefCell<Vec<String>>,
    gone: bool,
    config_answer: Option<Result<Result<(), String>, String>>,
}

fn object(name: &str, value: Value) -> Value {
    let mut fields = serde_json::Map::new();
    fields.insert(name.to_string(), value);
    Value::Object(fields)
}

impl Backend for SharedFake {
    type Layout = LayoutCommand;
    type Reactor = String;
    type Config = String;
    type Data = Value;

    fn workspaces(&self, space: Option<u64>) -> Result<Value, String> {
        Ok(Value::Array(vec![object("name", Value::from(format!("space {:?}", space)))]))
    }

    fn windows(&self, _: Option<u64>) -> Result<Value, String> {
        Err("not today".to_string())
    }

    fn window(&self, window: WindowId) -> Option<Result<Value, String>> {
        if window.pid == 1 {
            Some(Ok(object("title", Value::from("t"))))
        } else {
            None
        }
    }

    fn displays(&self) -> Result<Value, String> {
        Ok(Value::from("displays"))
    }

    fn layout_state(&self, _: Option<u64>, _: Option<usize>) -> Option<Result<Value, String>> {
        None
    }

    fn workspace_layouts(&self, _: Option<u64>, workspace: Option<usize>) -> Result<Value, String> {
        Ok(Value::from(workspace.unwrap_or(0)))
    }

    fn applications(&self) -> Result<Value, String> {
        Ok(Value::from("applications"))
    }

    fn metrics(&self) -> Value {
        object("m", Value::from(1))
    }

    fn diagnostics(&self) -> Result<Value, String> {
        Ok(Value::from("diagnostics"))
    }

    fn decode(
        &self,
        command: Command<LayoutCommand, String>,
    ) -> Result<Command<LayoutCommand, String>, String> {
        match command {
            Command::Layout(LayoutCommand::Unreadable) => Err("what".to_string()),
            other => Ok(other),
        }
    }

    fn decode_config(&self, command: String) -> Result<String, String> {
        if command == "unreadable" {
            Err("what".to_string())
        } else {
            Ok(command)
        }
    }

    fn execute(&self, command: Command<LayoutCommand, String>) -> Result<(), String> {
        if self.0.gone {
            return Err("gone".to_string());
        }
        self.0.executed.borrow_mut().push(format!("{:?}", command));
        Ok(())
    }

    fn config(&self) -> Result<Value, String> {
        if self.0.gone {
            Err("gone".to_string())
        } else {
            Ok(object("fake", Value::from(true)))
        }
    }

    fn apply_config(&self, _: String) -> Result<Result<(), String>, String> {
        self.0.config_answer.clone().unwrap_or(Ok(Ok(())))
    }
}

/// The subscriptions, shared with the test that looks at them.
struct SharedTold(Rc<Told>);

#[derive(Default)]
struct Told {
    calls: RefCell<Vec<String>>,
}

impl Subscriptions<Value> for SharedTold {
    fn subscribe_client(&self, client: u32, event: String) {
        self.0.calls.borrow_mut().push(format!("+{client} {event}"));
    }

    fn unsubscribe_client(&self, client: u32, event: String) {
        self.0.calls.borrow_mut().push(format!("-{client} {event}"));
    }

    fn subscribe_cli(&self, event: String, command: String, args: Vec<String>) {
        self.0.calls.borrow_mut().push(format!("+{event} {command} {args:?}"));
    }

    fn unsubscribe_cli(&self, event: String) {
        self.0.calls.borrow_mut().push(format!("-{event}"));
    }

    fn list_cli_subscriptions(&self) -> Value {
        Value::from("list")
    }
}

type Handler = MachHandler<SharedFake, SharedTold>;
type Request = RiniRequest<LayoutCommand, String, String>;

fn handler() -> (Handler, Rc<Fake>, Rc<Told>) {
    let fake = Rc::new(Fake::default());
    let told = Rc::new(Told::default());
    (MachHandler::new(SharedFake(fake.clone()), SharedTold(told.clone())), fake, told)
}

fn data(response: RiniResponse<Value>) -> Value {
    match response {
        RiniResponse::Success { data } => written(data),
        RiniResponse::Error { error } => panic!("expected success, got {error:?}"),
    }
}

fn error(response: RiniResponse<Value>) -> Value {
    match response {
        RiniResponse::Error { error } => written(error),
        RiniResponse::Success { data } => panic!("expected an error, got {data:?}"),
    }
}

fn written(body: Body<Value>) -> Value {
    match body {
        Body::Value(value) => value,
        Body::Text(text) => Value::from(text),
        Body::Object(fields) => {
            let mut map = serde_json::Map::new();
            for (name, field) in fields {
                let value = match field {
                    Field::Text(text) => Value::from(text),
                    Field::Texts(texts) => Value::from(texts),
                };
                map.insert(name.to_string(), value);
            }
            Value::Object(map)
        }
    }
}

#[test]
fn queries_are_answered_from_the_backend() {
    let (handler, _, _) = handler();
    let answer = data(handler.handle_request(RiniRequest::GetWorkspaces { space_id: Some(4) }, 1));
    assert_eq!(answer[0]["name"], "space Some(4)");
    let answer = data(handler.handle_request(RiniRequest::GetMetrics, 1));
    assert_eq!(answer["m"], 1);
}

/// The window a request's JSON object names.
fn id_from_json(json: &str) -> Result<rini::ids::WindowId, WindowIdError> {
    let fields: serde_json::Map<String, Value> = serde_json::from_str(json).unwrap();
    let fields: Vec<IdField> = fields
        .iter()
        .map(|(name, value)| match name.as_str() {
            "pid" => IdField::Pid(value.as_i64().unwrap() as i32),
            "idx" => IdField::Idx(value.as_u64().unwrap() as u32),
            _ => IdField::Other,
        })
        .collect();
    rini::ids::WindowId::from_fields(&fields)
}

#[test]
fn a_missing_window_is_an_error_and_a_zero_index_never_reaches_the_handler() {
    let (handler, _, _) = handler();
    let unknown = WindowId::new(2, 5).unwrap();
    assert!(matches!(
        handler.handle_request(RiniRequest::GetWindowInfo { window_id: unknown }, 1),
        RiniResponse::Error { .. }
    ));
    assert!(id_from_json(r#"{"pid":1,"idx":0}"#).is_err());
    assert!(WindowId::new(1, 0).is_none());
    assert!(matches!(
        handler.handle_request(
            RiniRequest::GetWindowInfo { window_id: WindowId::new(1, 5).unwrap() },
            1
        ),
        RiniResponse::Success { .. }
    ));
}

#[test]
fn layout_commands_reach_the_backend_decoded() {
    let (handler, fake, _) = handler();
    let response = handler.handle_request(
        RiniRequest::ExecuteCommand {
            command: RiniCommand::Layout(LayoutCommand::SwitchToWorkspace(2)),
        },
        1,
    );
    assert!(matches!(response, RiniResponse::Success { .. }));
    assert_eq!(fake.executed.borrow().as_slice(), ["Layout(SwitchToWorkspace(2))"]);
}

#[test]
fn every_query_reaches_its_own_answer() {
    let (handler, _, _) = handler();
    let ask = |request: Request| handler.handle_request(request, 1);
    assert_eq!(data(ask(RiniRequest::GetDisplays)), "displays");
    assert_eq!(data(ask(RiniRequest::GetApplications)), "applications");
    assert_eq!(data(ask(RiniRequest::GetDiagnostics)), "diagnostics");
    assert_eq!(data(ask(RiniRequest::ListCliSubscriptions)), "list");
    assert_eq!(data(ask(RiniRequest::GetConfig))["fake"], true);
    let layouts = RiniRequest::GetWorkspaceLayouts { space_id: None, workspace_id: Some(3) };
    assert_eq!(data(ask(layouts)), 3);
    let refused = error(ask(RiniRequest::GetWindows { space_id: None }));
    assert_eq!(refused["message"], "Failed to serialize response");
    assert_eq!(refused["details"], "not today");
    let missing = RiniRequest::GetLayoutState { space_id: None, workspace_id: None };
    assert_eq!(error(ask(missing))["message"], "Space or workspace not found");
    let window = RiniRequest::GetWindowInfo { window_id: WindowId::new(2, 5).unwrap() };
    assert_eq!(error(ask(window))["message"], "Window not found");
}

#[test]
fn a_subscription_is_kept_and_acknowledged() {
    let (handler, _, told) = handler();
    let event = EventKind::WindowsChanged;
    let ask = |request: Request| data(handler.handle_request(request, 7));
    assert_eq!(ask(RiniRequest::Subscribe { event })["subscribed"], "windows_changed");
    assert_eq!(ask(RiniRequest::Unsubscribe { event })["unsubscribed"], "windows_changed");
    let answer = ask(RiniRequest::SubscribeCli {
        event: EventKind::All,
        command: "echo".to_string(),
        args: vec!["a".to_string(), "b".to_string()],
    });
    assert_eq!(answer["cli_subscribed"], "*");
    assert_eq!(answer["command"], "echo");
    assert_eq!(answer["args"][1], "b");
    assert_eq!(ask(RiniRequest::UnsubscribeCli { event })["cli_unsubscribed"], "windows_changed");
    assert_eq!(
        told.calls.borrow().as_slice(),
        ["+7 windows_changed", "-7 windows_changed", "+* echo [\"a\", \"b\"]", "-windows_changed"]
    );
}

#[test]
fn a_command_that_cannot_be_read_or_run_is_an_error() {
    let (handler, fake, _) = handler();
    let run = |handler: &Handler, command| {
        handler.handle_request(RiniRequest::ExecuteCommand { command }, 1)
    };
    let unread = error(run(&handler, RiniCommand::Layout(LayoutCommand::Unreadable)));
    assert_eq!(unread["message"], "Invalid command format: what");
    assert!(fake.executed.borrow().is_empty());
    let ran = data(run(&handler, RiniCommand::Metrics(MetricsCommand::ShowTiming)));
    assert_eq!(ran, "Command executed successfully");
    let gone = Rc::new(Fake { gone: true, ..Fake::default() });
    let handler = MachHandler::new(SharedFake(gone), SharedTold(Rc::new(Told::default())));
    let failed = error(run(&handler, RiniCommand::Reactor("debug".to_string())));
    assert_eq!(failed["message"], "Failed to execute command");
    assert_eq!(failed["details"], "gone");
    let config = error(handler.handle_request(RiniRequest::GetConfig, 1));
    assert_eq!(config["message"], "Failed to get config response");
    assert_eq!(config["details"], "gone");
}

#[test]
fn a_config_command_is_answered_by_the_config_actor() {
    let apply = |answer: Option<Result<Result<(), String>, String>>, command: &str| {
        let fake = Rc::new(Fake { config_answer: answer, ..Fake::default() });
        let handler = MachHandler::new(SharedFake(fake), SharedTold(Rc::new(Told::default())));
        let command = RiniCommand::Config(command.to_string());
        handler.handle_request(RiniRequest::ExecuteCommand { command }, 1)
    };
    assert_eq!(data(apply(None, "reload")), "Config applied successfully");
    let rejected = error(apply(Some(Ok(Err("no".to_string()))), "reload"));
    assert_eq!(rejected["message"], "no");
    let silent = error(apply(Some(Err("late".to_string())), "reload"));
    assert_eq!(silent["message"], "Failed to apply config: late");
    let unread = error(apply(None, "unreadable"));
    assert_eq!(unread["message"], "Invalid config command: what");
}

#[test]
fn a_request_is_read_up_to_its_first_zero_byte() {
    assert_eq!(request_text(b"{}\0garbage").as_deref(), Some("{}"));
    assert_eq!(request_text("h\u{e9}".as_bytes()).as_deref(), Some("h\u{e9}"));
    assert_eq!(request_text(b""), None);
    assert_eq!(request_text(&[0xff, 0xfe]), None);
    assert_eq!(request_text(&[0, 0xff]).as_deref(), Some(""));
}

#[test]
fn what_is_framed_is_read_back() {
    let header = rini::mach::mach_msg_header_t {
        msgh_bits: 0,
        msgh_size: 0,
        msgh_remote_port: 5,
        msgh_local_port: 0,
        msgh_voucher_port: 0,
        msgh_id: 1,
    };
    for text in ["a", "ab", "abc", "abcd", "{\"message\":\"h\u{e9}llo\"}"] {
        let reply = send_mach_reply(Some(&header), Some(&terminate(text.as_bytes().to_vec()))).unwrap();
        assert_eq!(reply.data.len() % 4, 0);
        assert_eq!(request_text(&reply.data).as_deref(), Some(text));
    }
}

#[test]
fn a_message_that_is_no_request_is_answered_with_the_reason() {
    let answer = error(invalid_request("eof".to_string()));
    assert_eq!(answer["message"], "Invalid request format: eof");
}

#[test]
fn a_second_server_does_not_start() {
    assert_eq!(run_mach_server(false), Ok(()));
    assert_eq!(
        run_mach_server(true),
        Err("Another Rini instance is already running; quit it before starting another.".to_string())
    );
}
