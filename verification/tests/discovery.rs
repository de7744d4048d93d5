//! Who is connected, as documents.

use serde_json::Value;
use web_bridge::discovery::{instance_url_text, tool_summary, VERSION};
use web_bridge::json::Json;
use web_bridge::registry::AppState;
use web_bridge::wire::parse_hello;

type State = AppState<u32, u32>;

fn value(text: &str) -> Value {
    serde_json::from_str(text).unwrap()
}

fn enter(state: &mut State, app: &str, id: &str, now: u64, fields: &str) {
    let hello = parse_hello(&format!("{{\"type\":\"hello\",\"app\":\"{app}\"{fields}}}")).unwrap();
    state.register_as(app.to_owned(), id.to_owned(), &hello, 0, now);
}

#[test]
fn nobody_is_listed_at_first() {
    let mut state = State::new();
    assert_eq!(state.status_json().into_value(), value("{\"running\":false,\"port\":0,\"apps\":[]}"));
    state.set_port(7421);
    assert_eq!(state.status_json().into_value(), value("{\"running\":true,\"port\":7421,\"apps\":[]}"));
    assert_eq!(state.base_url(), "http://localhost:7421");
    assert_eq!(
        state.apps_json("http://localhost:7421").into_value(),
        value(
            "{\"service\":\"web-bridge\",\"version\":\"0.1.0\",\
             \"connectUrl\":\"ws://localhost:7421/ws/app\",\"apps\":[]}"
        )
    );
    assert_eq!(VERSION, "0.1.0");
}

#[test]
fn discovery_shows_apps_and_their_instances() {
    let mut state = State::new();
    enter(&mut state, "todo", "b", 20, ",\"title\":\"New\",\"instanceLabel\":\"B\"");
    enter(
        &mut state,
        "todo",
        "a",
        10,
        ",\"title\":\"Old\",\"tools\":[{\"name\":\"add\",\"description\":\"adds\",\"inputSchema\":{}},{\"x\":1},7]",
    );
    enter(&mut state, "notes", "n", 30, ",\"description\":\"D\",\"instructions\":\"I\"");
    assert_eq!(
        state.apps_json("http://h:1").into_value(),
        value(
            "{\"service\":\"web-bridge\",\"version\":\"0.1.0\",\"connectUrl\":\"ws://h:1/ws/app\",\"apps\":[\
             {\"app\":\"notes\",\"title\":null,\"description\":\"D\",\"instructions\":\"I\",\"instances\":[\
             {\"instanceId\":\"n\",\"label\":null,\"connectedAt\":30,\"mcpUrl\":\"http://h:1/notes/n/mcp\",\
             \"apiUrl\":\"http://h:1/notes/n/api\",\"toolsUrl\":\"http://h:1/notes/n/tools\",\"tools\":[]}]},\
             {\"app\":\"todo\",\"title\":\"New\",\"description\":null,\"instructions\":null,\"instances\":[\
             {\"instanceId\":\"a\",\"label\":null,\"connectedAt\":10,\"mcpUrl\":\"http://h:1/todo/a/mcp\",\
             \"apiUrl\":\"http://h:1/todo/a/api\",\"toolsUrl\":\"http://h:1/todo/a/tools\",\"tools\":[\
             {\"name\":\"add\",\"description\":\"adds\"},{\"name\":null,\"description\":null},\
             {\"name\":null,\"description\":null}]},\
             {\"instanceId\":\"b\",\"label\":\"B\",\"connectedAt\":20,\"mcpUrl\":\"http://h:1/todo/b/mcp\",\
             \"apiUrl\":\"http://h:1/todo/b/api\",\"toolsUrl\":\"http://h:1/todo/b/tools\",\"tools\":[]}]}]}"
        )
    );
}

#[test]
fn status_counts_the_tools() {
    let mut state = State::new();
    state.set_port(9);
    enter(&mut state, "todo", "a", 10, ",\"title\":\"T\",\"description\":\"D\",\"tools\":[1,2,3]");
    assert_eq!(
        state.status_json().into_value(),
        value(
            "{\"running\":true,\"port\":9,\"apps\":[{\"app\":\"todo\",\"title\":\"T\",\"description\":\"D\",\
             \"instances\":[{\"instanceId\":\"a\",\"label\":null,\"connectedAt\":10,\"toolCount\":3}]}]}"
        )
    );
}

#[test]
fn every_instance_is_shown_once_and_in_order() {
    let mut state = State::new();
    for (app, id, now) in [("b", "x", 5), ("a", "z", 7), ("b", "y", 5), ("a-", "q", 1), ("a", "k", 6), ("b", "x", 4)] {
        enter(&mut state, app, id, now, "");
    }
    let groups: Vec<(String, Vec<(String, u64, u64)>)> = state
        .grouped()
        .into_iter()
        .map(|(app, list)| (app, list.into_iter().map(|i| (i.id.clone(), i.connected_at, i.conn_id)).collect()))
        .collect();
    assert_eq!(
        groups,
        vec![
            ("a".to_owned(), vec![("k".to_owned(), 6, 5), ("z".to_owned(), 7, 2)]),
            ("a-".to_owned(), vec![("q".to_owned(), 1, 4)]),
            ("b".to_owned(), vec![("x".to_owned(), 4, 6), ("y".to_owned(), 5, 3)]),
        ]
    );
}

#[test]
fn connections_of_one_second_are_listed_by_number() {
    let mut state = State::new();
    for id in ["c", "a", "b"] {
        enter(&mut state, "app", id, 1, "");
    }
    let groups = state.grouped();
    let ids: Vec<&str> = groups[0].1.iter().map(|i| i.id.as_str()).collect();
    assert_eq!(ids, vec!["c", "a", "b"]);
}

#[test]
fn summaries_leave_out_schemas() {
    let tool = Json::parse("{\"name\":\"n\",\"description\":5,\"inputSchema\":{}}").unwrap();
    assert_eq!(tool_summary(&tool).into_text(), "{\"description\":5,\"name\":\"n\"}");
}

#[test]
fn instances_have_urls_of_their_own() {
    assert_eq!(instance_url_text("http://localhost:7421", "todo", "one"), "http://localhost:7421/todo/one");
    assert_ne!(instance_url_text("b", "a-b", "c"), instance_url_text("b", "a", "b-c"));
}
