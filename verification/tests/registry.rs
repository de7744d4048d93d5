//! Who is connected, and which calls are in flight.

use web_bridge::hub_error::HubError;
use web_bridge::json::Json;
use web_bridge::registry::{AppMessage, AppState, Handle, Outcome, Registered};
use web_bridge::wire::{parse_hello, Hello, Outbound, WireResponse};

type State = AppState<u32, u32>;

fn json(text: &str) -> Json {
    Json::parse(text).unwrap()
}

fn hello(fields: &str) -> Hello {
    parse_hello(&format!("{{\"type\":\"hello\",{fields}}}")).unwrap()
}

fn enter(state: &mut State, app: &str, id: &str, sender: u32) -> Registered<u32> {
    let hello = hello(&format!("\"app\":\"{app}\",\"instanceId\":\"{id}\""));
    match state.register(&hello, sender) {
        Ok(registered) => registered,
        Err(message) => panic!("{message}"),
    }
}

fn complaint(state: &mut State, fields: &str) -> String {
    match state.register(&hello(fields), 0) {
        Ok(_) => panic!("the hello was accepted"),
        Err(message) => message,
    }
}

fn call(state: &mut State, handle: &Handle, id: &str, waiter: u32) {
    let r = state.call_as(handle, id.to_owned(), "go", Json::Null, waiter);
    assert!(r.is_ok());
}

fn delivered(message: AppMessage<u32>) -> Option<(u32, WireResponse)> {
    match message {
        AppMessage::Deliver { waiter, response } => Some((waiter, response)),
        _ => None,
    }
}

fn farewell_text(messages: &[Outbound]) -> String {
    assert_eq!(messages.len(), 2);
    assert_eq!(messages[1], Outbound::Close);
    match &messages[0] {
        Outbound::Frame(text) => text.clone(),
        Outbound::Close => panic!("closed without a word"),
    }
}

#[test]
fn a_new_state_is_empty() {
    for state in [State::new(), State::default()] {
        assert_eq!(state.port(), 0);
        assert_eq!(state.connections(), 0);
        assert!(state.instances().is_empty());
        assert!(state.get("todo", "one").is_none());
    }
}

#[test]
fn the_port_is_recorded() {
    let mut state = State::new();
    state.set_port(7421);
    assert_eq!(state.port(), 7421);
}

#[test]
fn registering_keeps_what_the_hello_says() {
    let mut state = State::new();
    let fields = "\"app\":\"todo\",\"title\":\"T\",\"description\":\"D\",\"instructions\":\"I\",\
                  \"instanceId\":\"one\",\"instanceLabel\":\"L\",\"tools\":[{\"name\":\"a\"}]";
    let registered = state.register(&hello(fields), 9).ok().unwrap();
    assert!(registered.evicted.is_none());
    assert_eq!(registered.handle, Handle { conn_id: 1, app: "todo".to_owned(), id: "one".to_owned() });
    let instance = state.get("todo", "one").unwrap();
    assert_eq!(instance.conn_id, 1);
    assert_eq!(instance.sender, 9);
    assert_eq!(instance.connected_at, registered.connected_at);
    assert!(instance.connected_at > 1_600_000_000);
    assert_eq!(instance.info.title.as_deref(), Some("T"));
    assert_eq!(instance.info.description.as_deref(), Some("D"));
    assert_eq!(instance.info.label.as_deref(), Some("L"));
    assert_eq!(instance.instructions().as_deref(), Some("I"));
    assert_eq!(instance.tools(), json("[{\"name\":\"a\"}]"));
    assert_eq!(instance.handle(), registered.handle.copy());
}

#[test]
fn a_catalog_that_is_no_array_counts_as_empty() {
    let mut state = State::new();
    let fields = "\"app\":\"todo\",\"instanceId\":\"one\",\"tools\":{\"name\":\"a\"}";
    assert!(state.register(&hello(fields), 0).is_ok());
    assert_eq!(state.get("todo", "one").unwrap().tools(), json("[]"));
}

#[test]
fn names_are_held_to_slugs() {
    let mut state = State::new();
    assert_eq!(
        complaint(&mut state, "\"app\":\"To do\""),
        "Invalid app name 'To do': use 1-64 chars of [a-z0-9_-], starting with a letter or digit."
    );
    assert_eq!(complaint(&mut state, "\"app\":\"mcp\""), "Invalid app name 'mcp': that name is reserved.");
    assert_eq!(
        complaint(&mut state, "\"app\":\"todo\",\"instanceId\":\"\""),
        "Invalid instance id '': use 1-64 chars of [a-z0-9_-], starting with a letter or digit."
    );
    assert_eq!(
        complaint(&mut state, "\"app\":\"todo\",\"instanceId\":\"tools\""),
        "Invalid instance id 'tools': that name is reserved."
    );
    assert_eq!(state.connections(), 0);
    assert!(state.instances().is_empty());
}

#[test]
fn an_id_is_assigned_where_none_is_brought() {
    let mut state = State::new();
    let a = state.register(&hello("\"app\":\"todo\""), 1).ok().unwrap();
    let b = state.register(&hello("\"app\":\"todo\""), 2).ok().unwrap();
    assert_eq!(a.handle.id.len(), 8);
    assert_ne!(a.handle.id, b.handle.id);
    assert!(a.evicted.is_none() && b.evicted.is_none());
    assert_eq!(state.get("todo", &a.handle.id).unwrap().sender, 1);
    assert_eq!(state.get("todo", &b.handle.id).unwrap().sender, 2);
}

#[test]
fn a_taken_id_is_passed_over() {
    let mut state = State::new();
    let hello = hello("\"app\":\"todo\"");
    let drawn = 0xffff_fffe_0000_0000_0000_0000_0000_0000;
    for id in ["fffffffe", "ffffffff", "00000000", "00000001"] {
        let registered = state.register_drawn(&hello, 1, drawn, 5).ok().unwrap();
        assert_eq!(registered.handle.id, id);
        assert_eq!(registered.connected_at, 5);
        assert!(registered.evicted.is_none());
    }
    assert_eq!(state.instances().len(), 4);
    assert_eq!(state.free_id_from("todo", drawn), Some("00000002".to_owned()));
    assert_eq!(state.free_id_from("notes", drawn), Some("fffffffe".to_owned()));
}

#[test]
fn hellos_without_an_id_are_never_refused() {
    let mut state = State::new();
    for n in 1..50 {
        let registered = state.register(&hello("\"app\":\"todo\""), n).ok().unwrap();
        assert!(registered.evicted.is_none());
        assert!(registered.handle.id.chars().all(|c| c.is_ascii_digit() || ('a'..='f').contains(&c)));
        assert_eq!(state.instances().len(), n as usize);
    }
}

#[test]
fn the_last_connection_wins() {
    let mut state = State::new();
    let other = enter(&mut state, "todo", "two", 5);
    let old = enter(&mut state, "todo", "one", 1);
    call(&mut state, &old.handle, "r", 77);
    let new = enter(&mut state, "todo", "one", 2);
    let evicted = new.evicted.unwrap();
    assert_eq!(evicted.handle, old.handle);
    assert_eq!(state.connection(&evicted.handle).unwrap().sender, 1);
    assert_eq!(
        farewell_text(&evicted.kicked.messages),
        "{\"message\":\"Another connection claimed 'todo/one'. If this is a second tab of the same app, \
         use a per-tab instance id (e.g. sessionStorage, not localStorage).\",\"type\":\"error\"}"
    );
    assert_eq!(evicted.kicked.waiters, vec![("r".to_owned(), 77)]);
    assert_eq!(state.get("todo", "one").unwrap().sender, 2);
    assert_eq!(state.get("todo", "one").unwrap().conn_id, 3);
    assert_eq!(state.get("todo", "two").unwrap().handle(), other.handle);
    assert_eq!(state.connections(), 3);
}

#[test]
fn a_replaced_connection_ends_in_silence() {
    let mut state = State::new();
    let old = enter(&mut state, "todo", "one", 1);
    let new = enter(&mut state, "todo", "one", 2);
    call(&mut state, &new.handle, "r", 7);
    assert!(state.remove(&old.handle).is_empty());
    assert_eq!(state.get("todo", "one").unwrap().sender, 2);
    assert_eq!(state.remove(&new.handle), vec![("r".to_owned(), 7)]);
    assert!(state.get("todo", "one").is_none());
}

#[test]
fn a_lost_key_stays_lost() {
    let mut state = State::new();
    let old = enter(&mut state, "todo", "one", 1);
    let new = enter(&mut state, "todo", "one", 2);
    state.remove(&new.handle);
    enter(&mut state, "todo", "one", 3);
    assert!(state.remove(&old.handle).is_empty());
    assert_eq!(state.get("todo", "one").unwrap().sender, 3);
}

#[test]
fn ending_undoes_registering() {
    let mut state = State::new();
    let one = enter(&mut state, "todo", "one", 1);
    let two = enter(&mut state, "todo", "two", 2);
    assert!(state.remove(&two.handle).is_empty());
    assert_eq!(state.instances().len(), 1);
    assert_eq!(state.instances()[0].handle(), one.handle);
    assert_eq!(state.connections(), 2);
}

#[test]
fn an_app_stands_for_its_one_instance() {
    let mut state = State::new();
    enter(&mut state, "todo", "one", 1);
    enter(&mut state, "notes", "two", 2);
    match state.resolve_single("todo") {
        Ok(instance) => {
            assert_eq!(instance.id, "one");
            assert_eq!(instance.handle(), state.get("todo", "one").unwrap().handle());
        }
        Err(e) => panic!("{e:?}"),
    }
}

#[test]
fn an_app_without_instances_is_not_found() {
    let mut state = State::new();
    enter(&mut state, "todo", "one", 1);
    match state.resolve_single("notes") {
        Ok(_) => panic!("nothing is connected"),
        Err(e) => assert_eq!(e, HubError::NotFound { app: "notes".to_owned(), instance: None }),
    }
}

#[test]
fn an_app_with_several_instances_is_ambiguous() {
    let mut state = State::new();
    enter(&mut state, "todo", "one", 1);
    enter(&mut state, "notes", "x", 2);
    enter(&mut state, "todo", "two", 3);
    match state.resolve_single("todo") {
        Err(HubError::Ambiguous { app, mut instances }) => {
            instances.sort();
            assert_eq!(app, "todo");
            assert_eq!(instances, vec!["one".to_owned(), "two".to_owned()]);
        }
        _ => panic!("two are connected"),
    }
}

#[test]
fn a_disconnect_is_explained() {
    let mut state = State::new();
    let one = enter(&mut state, "todo", "one", 1);
    call(&mut state, &one.handle, "r", 7);
    let kicked = state.request_disconnect("todo", "one").unwrap();
    assert_eq!(
        farewell_text(&kicked.messages),
        "{\"message\":\"Disconnected from the bridge.\",\"type\":\"error\"}"
    );
    assert_eq!(kicked.waiters, vec![("r".to_owned(), 7)]);
    assert!(state.get("todo", "one").is_some());
    assert!(state.request_disconnect("todo", "two").is_none());
    assert!(state.remove(&one.handle).is_empty());
}

#[test]
fn a_call_is_entered_under_a_fresh_id() {
    let mut state = State::new();
    let one = enter(&mut state, "todo", "one", 1);
    let a = state.call(&one.handle, "addTask", json("{\"t\":1}"), 7).unwrap();
    let b = state.call(&one.handle, "addTask", json("{\"t\":1}"), 8).unwrap();
    assert_ne!(a.id, b.id);
    assert_eq!(a.frame, format!("{{\"id\":\"{}\",\"action\":\"addTask\",\"payload\":{{\"t\":1}}}}", a.id));
    let mut waiters: Vec<u32> = state.remove(&one.handle).into_iter().map(|w| w.1).collect();
    waiters.sort();
    assert_eq!(waiters, vec![7, 8]);
}

#[test]
fn a_reply_reaches_its_call() {
    let mut state = State::new();
    let one = enter(&mut state, "todo", "one", 1);
    call(&mut state, &one.handle, "r", 7);
    call(&mut state, &one.handle, "s", 8);
    let message = state.handle_app_message(&one.handle, "{\"id\":\"s\",\"ok\":true,\"result\":[1]}");
    let (waiter, response) = delivered(message).unwrap();
    assert_eq!(waiter, 8);
    assert_eq!(response, WireResponse { id: "s".to_owned(), ok: true, result: json("[1]"), error: Json::Null });
    assert_eq!(state.remove(&one.handle), vec![("r".to_owned(), 7)]);
}

#[test]
fn stray_replies_are_ignored() {
    let mut state = State::new();
    let one = enter(&mut state, "todo", "one", 1);
    let two = enter(&mut state, "todo", "two", 2);
    call(&mut state, &one.handle, "r", 7);
    assert!(matches!(state.handle_app_message(&two.handle, "{\"id\":\"r\"}"), AppMessage::Ignored));
    assert!(matches!(state.handle_app_message(&one.handle, "{\"id\":\"other\"}"), AppMessage::Ignored));
    assert!(delivered(state.handle_app_message(&one.handle, "{\"id\":\"r\"}")).is_some());
    assert!(matches!(state.handle_app_message(&one.handle, "{\"id\":\"r\"}"), AppMessage::Ignored));
}

#[test]
fn late_replies_are_ignored() {
    let mut state = State::new();
    let one = enter(&mut state, "todo", "one", 1);
    call(&mut state, &one.handle, "r", 7);
    assert_eq!(state.settle(&one.handle, "r", Outcome::TimedOut), Err(HubError::Timeout));
    assert!(matches!(state.handle_app_message(&one.handle, "{\"id\":\"r\",\"ok\":true}"), AppMessage::Ignored));
    assert!(state.remove(&one.handle).is_empty());
}

#[test]
fn replies_to_a_connection_that_was_told_to_go_are_ignored() {
    let mut state = State::new();
    let one = enter(&mut state, "todo", "one", 1);
    call(&mut state, &one.handle, "r", 7);
    assert!(state.request_disconnect("todo", "one").is_some());
    assert!(matches!(state.handle_app_message(&one.handle, "{\"id\":\"r\",\"ok\":true}"), AppMessage::Ignored));
}

#[test]
fn malformed_messages_are_told_apart() {
    let mut state = State::new();
    let one = enter(&mut state, "todo", "one", 1);
    for text in ["{}", "5", "{\"id\":\"r\",\"ok\":\"yes\"}"] {
        assert!(matches!(state.handle_app_message(&one.handle, text), AppMessage::Malformed(v) if v == json(text)));
    }
    match state.handle_app_message(&one.handle, "nonsense") {
        AppMessage::Unreadable(complaint) => assert_eq!(complaint, "expected ident at line 1 column 2"),
        _ => panic!("nonsense was read"),
    }
}

#[test]
fn another_hello_refreshes_what_is_said() {
    let mut state = State::new();
    let one = enter(&mut state, "todo", "one", 1);
    call(&mut state, &one.handle, "r", 7);
    let again = "{\"type\":\"hello\",\"app\":\"else\",\"instanceId\":\"where\",\"title\":\"New\",\"tools\":[1,2]}";
    assert!(matches!(state.handle_app_message(&one.handle, again), AppMessage::Refreshed));
    let instance = state.get("todo", "one").unwrap();
    assert_eq!(instance.handle(), one.handle);
    assert_eq!(instance.sender, 1);
    assert_eq!(instance.info.title.as_deref(), Some("New"));
    assert_eq!(instance.tools(), json("[1,2]"));
    assert!(state.get("else", "where").is_none());
    assert_eq!(state.remove(&one.handle), vec![("r".to_owned(), 7)]);
}

#[test]
fn a_hello_that_cannot_be_read_changes_nothing() {
    let mut state = State::new();
    let one = state.register(&hello("\"app\":\"todo\",\"instanceId\":\"one\",\"title\":\"T\""), 1).ok().unwrap();
    let again = "{\"type\":\"hello\",\"title\":\"New\"}";
    assert!(matches!(state.handle_app_message(&one.handle, again), AppMessage::Ignored));
    assert_eq!(state.get("todo", "one").unwrap().info.title.as_deref(), Some("T"));
}

#[test]
fn a_replaced_connection_is_heard_but_not_shown() {
    let mut state = State::new();
    let old = enter(&mut state, "todo", "one", 1);
    enter(&mut state, "todo", "one", 2);
    let shown = state.status_json();
    let again = "{\"type\":\"hello\",\"app\":\"todo\",\"title\":\"New\"}";
    assert!(matches!(state.handle_app_message(&old.handle, again), AppMessage::Refreshed));
    assert_eq!(state.connection(&old.handle).unwrap().info.title.as_deref(), Some("New"));
    assert_eq!(state.get("todo", "one").unwrap().info.title, None);
    assert_eq!(state.status_json(), shown);
}

#[test]
fn a_replaced_connection_still_takes_calls() {
    let mut state = State::new();
    let old = enter(&mut state, "todo", "one", 1);
    call(&mut state, &old.handle, "q", 6);
    let new = enter(&mut state, "todo", "one", 2);
    assert_eq!(new.evicted.unwrap().kicked.waiters, vec![("q".to_owned(), 6)]);
    let entered = state.call_as(&old.handle, "r".to_owned(), "go", Json::Null, 7).unwrap();
    assert_eq!(entered.frame, "{\"id\":\"r\",\"action\":\"go\",\"payload\":null}");
    call(&mut state, &old.handle, "s", 8);
    call(&mut state, &old.handle, "t", 9);
    assert_eq!(delivered(state.handle_app_message(&old.handle, "{\"id\":\"r\"}")).unwrap().0, 7);
    assert_eq!(state.settle(&old.handle, "s", Outcome::TimedOut), Err(HubError::Timeout));
    assert_eq!(state.remove(&old.handle), vec![("t".to_owned(), 9)]);
    assert!(state.remove(&new.handle).is_empty());
}

#[test]
fn an_ended_connection_takes_calls_until_it_is_forgotten() {
    let mut state = State::new();
    let one = enter(&mut state, "todo", "one", 1);
    state.forget(&one.handle);
    assert!(state.get("todo", "one").is_some());
    assert!(state.remove(&one.handle).is_empty());
    assert!(state.get("todo", "one").is_none());
    call(&mut state, &one.handle, "r", 7);
    assert_eq!(state.remove(&one.handle), vec![("r".to_owned(), 7)]);
    state.forget(&one.handle);
    assert!(state.connection(&one.handle).is_none());
    assert_eq!(state.call_as(&one.handle, "r".to_owned(), "go", Json::Null, 7), Err(HubError::Gone));
}

#[test]
fn calls_end_in_a_result_or_an_error() {
    let mut state = State::new();
    let one = enter(&mut state, "todo", "one", 1);
    let good = WireResponse { id: "r".to_owned(), ok: true, result: json("{\"n\":1}"), error: Json::Null };
    assert_eq!(state.settle(&one.handle, "r", Outcome::Replied(good)), Ok(json("{\"n\":1}")));
    let bad = WireResponse { id: "r".to_owned(), ok: false, result: Json::Null, error: json("{\"message\":\"m\"}") };
    assert_eq!(
        state.settle(&one.handle, "r", Outcome::Replied(bad)),
        Err(HubError::App(json("{\"message\":\"m\"}")))
    );
    assert_eq!(state.settle(&one.handle, "r", Outcome::Dropped), Err(HubError::Gone));
    assert_eq!(state.settle(&one.handle, "r", Outcome::Unsent), Err(HubError::Gone));
    assert_eq!(state.settle(&one.handle, "r", Outcome::TimedOut), Err(HubError::Timeout));
}

#[test]
fn giving_up_undoes_calling() {
    let mut state = State::new();
    let one = enter(&mut state, "todo", "one", 1);
    call(&mut state, &one.handle, "r", 7);
    call(&mut state, &one.handle, "s", 8);
    assert_eq!(state.settle(&one.handle, "s", Outcome::Unsent), Err(HubError::Gone));
    assert_eq!(state.remove(&one.handle), vec![("r".to_owned(), 7)]);
}
