//! What happens on the connection of an app.

use serde_json::Value;
use web_bridge::registry::{AppMessage, AppState, Handle};
use web_bridge::socket::{on_outbound, HelloStep, SocketEvent, SocketStep, WriteStep};
use web_bridge::wire::farewell;

type State = AppState<u32, u32>;

fn text(t: &str) -> SocketEvent {
    SocketEvent::Text(t.to_owned())
}

fn welcomed(step: HelloStep<u32, u32>) -> (Handle, Value) {
    match step {
        HelloStep::Welcome { registered, frame } => (registered.handle, serde_json::from_str(&frame).unwrap()),
        HelloStep::Reject(frame) => panic!("{frame}"),
        _ => panic!("nothing happened"),
    }
}

fn rejected(step: HelloStep<u32, u32>) -> String {
    match step {
        HelloStep::Reject(frame) => {
            let v: Value = serde_json::from_str(&frame).unwrap();
            assert_eq!(v["type"], "error");
            v["message"].as_str().unwrap().to_owned()
        }
        _ => panic!("the connection was not rejected"),
    }
}

#[test]
fn a_hello_is_welcomed() {
    let mut state = State::new();
    state.set_port(7421);
    let step = state.on_first_event(text("{\"type\":\"hello\",\"app\":\"todo\",\"instanceId\":\"one\"}"), 3);
    let (handle, frame) = welcomed(step);
    assert_eq!(handle, Handle { conn_id: 1, app: "todo".to_owned(), id: "one".to_owned() });
    assert_eq!(frame["type"], "welcome");
    assert_eq!(frame["app"], "todo");
    assert_eq!(frame["instanceId"], "one");
    assert_eq!(frame["baseUrl"], "http://localhost:7421/todo/one");
    assert_eq!(frame["mcpUrl"], "http://localhost:7421/todo/one/mcp");
    assert_eq!(frame["apiUrl"], "http://localhost:7421/todo/one/api");
    assert_eq!(state.get("todo", "one").unwrap().sender, 3);
}

#[test]
fn endpoints_agree_with_discovery() {
    let mut state = State::new();
    state.set_port(80);
    let (_, frame) = welcomed(state.on_first_event(text("{\"type\":\"hello\",\"app\":\"todo\"}"), 3));
    let document = state.apps_json(&state.base_url()).into_value();
    let listed = &document["apps"][0]["instances"][0];
    for field in ["instanceId", "mcpUrl", "apiUrl"] {
        assert_eq!(frame[field], listed[field]);
    }
}

#[test]
fn a_page_that_reloads_keeps_its_place() {
    let mut state = State::new();
    let hello = "{\"type\":\"hello\",\"app\":\"todo\",\"instanceId\":\"one\"}";
    let (first, welcome) = welcomed(state.on_first_event(text(hello), 1));
    let (second, again) = welcomed(state.on_first_event(text(hello), 2));
    assert_eq!(welcome, again);
    assert_ne!(first, second);
    assert!(state.remove(&first).is_empty());
    assert_eq!(state.get("todo", "one").unwrap().sender, 2);
}

#[test]
fn frames_before_the_hello_are_passed_over() {
    let mut state = State::new();
    assert!(matches!(state.on_first_event(SocketEvent::Other, 3), HelloStep::Wait(3)));
    assert!(matches!(state.on_first_event(SocketEvent::Close, 3), HelloStep::Wait(3)));
    assert!(matches!(state.on_first_event(SocketEvent::Ended, 3), HelloStep::End));
    assert_eq!(state.connections(), 0);
}

#[test]
fn anything_but_a_hello_is_rejected() {
    let mut state = State::new();
    assert_eq!(
        rejected(state.on_first_event(text("{\"id\":\"r\"}"), 3)),
        "The first frame must be a hello: {\"type\":\"hello\",\"app\":\"<name>\", …}"
    );
    assert_eq!(
        rejected(state.on_first_event(text("{\"type\":\"hello\"}"), 3)),
        "Malformed hello frame: missing field `app`"
    );
    assert_eq!(
        rejected(state.on_first_event(text("{\"type\":\"hello\",\"app\":\"ws\"}"), 3)),
        "Invalid app name 'ws': that name is reserved."
    );
    assert!(state.instances().is_empty());
}

#[test]
fn events_after_the_hello_are_acted_on() {
    let mut state = State::new();
    let (handle, _) = welcomed(state.on_first_event(text("{\"type\":\"hello\",\"app\":\"todo\"}"), 3));
    let call = state.call(&handle, "go", web_bridge::json::Json::Null, 7).unwrap();
    assert!(matches!(state.on_event(&handle, SocketEvent::Other), SocketStep::Skip));
    assert!(matches!(
        state.on_event(&handle, text("?")),
        SocketStep::Message(AppMessage::Unreadable(_))
    ));
    assert!(matches!(
        state.on_event(&handle, text("{}")),
        SocketStep::Message(AppMessage::Malformed(_))
    ));
    let reply = format!("{{\"id\":\"{}\",\"ok\":true}}", call.id);
    assert!(matches!(
        state.on_event(&handle, text(&reply)),
        SocketStep::Message(AppMessage::Deliver { waiter: 7, .. })
    ));
}

fn ended(step: SocketStep<u32>) -> Vec<(String, u32)> {
    match step {
        SocketStep::End(waiters) => waiters,
        _ => panic!("the connection goes on"),
    }
}

#[test]
fn an_ended_connection_is_gone() {
    let mut state = State::new();
    let hello = "{\"type\":\"hello\",\"app\":\"todo\",\"instanceId\":\"one\"}";
    let (first, _) = welcomed(state.on_first_event(text(hello), 1));
    let (second, _) = welcomed(state.on_first_event(text(hello), 2));
    let call = state.call(&second, "go", web_bridge::json::Json::Null, 7).unwrap();
    assert!(state.connection(&first).is_some());
    assert!(ended(state.on_event(&first, SocketEvent::Close)).is_empty());
    assert!(state.connection(&first).is_none());
    assert_eq!(state.get("todo", "one").unwrap().sender, 2);
    assert_eq!(ended(state.on_event(&second, SocketEvent::Ended)), vec![(call.id, 7)]);
    assert!(state.get("todo", "one").is_none());
    assert!(ended(state.on_event(&second, SocketEvent::Ended)).is_empty());
}

#[test]
fn a_farewell_is_written_before_the_close() {
    let mut written: Vec<String> = Vec::new();
    let mut finished = 0;
    for message in farewell("bye") {
        match on_outbound(message) {
            WriteStep::Write(text) => {
                assert_eq!(finished, 0);
                written.push(text);
            }
            WriteStep::Finish => finished += 1,
        }
    }
    assert_eq!(written, vec!["{\"message\":\"bye\",\"type\":\"error\"}".to_owned()]);
    assert_eq!(finished, 1);
}
