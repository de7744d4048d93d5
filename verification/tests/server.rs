//! REST and MCP requests.

use serde_json::Value;
use web_bridge::hub_error::HubError;
use web_bridge::json::Json;
use web_bridge::registry::{AppMessage, AppState, Handle, Outcome};
use web_bridge::server::{hub_error_response, ports_to_try, tool_text, Relay, Reply, Step};
use web_bridge::wire::{parse_hello, WireResponse};

type State = AppState<u32, u32>;

fn json(text: &str) -> Json {
    Json::parse(text).unwrap()
}

fn value(text: &str) -> Value {
    serde_json::from_str(text).unwrap()
}

fn enter(state: &mut State, app: &str, id: &str) -> Handle {
    let hello = parse_hello(
        "{\"type\":\"hello\",\"app\":\"any\",\"instructions\":\"Use it.\",\"tools\":[{\"name\":\"add\",\"inputSchema\":{}}]}",
    )
    .unwrap();
    state.register_as(app.to_owned(), id.to_owned(), &hello, 0, 1).handle
}

fn one() -> State {
    let mut state = State::new();
    enter(&mut state, "todo", "one");
    state
}

fn two() -> State {
    let mut state = one();
    enter(&mut state, "todo", "two");
    state
}

fn replied(step: Step) -> (u16, Option<Value>) {
    match step {
        Step::Reply(reply) => shown(reply),
        Step::Relay(_) => panic!("the request was relayed"),
    }
}

fn shown(reply: Reply) -> (u16, Option<Value>) {
    (reply.status, reply.body.map(|j| j.into_value()))
}

fn relayed(step: Step) -> Relay {
    match step {
        Step::Reply(reply) => panic!("{reply:?}"),
        Step::Relay(relay) => relay,
    }
}

fn rpc(state: &mut State, request: &str) -> (u16, Option<Value>) {
    replied(state.mcp_instance("todo", "one", &json(request), 0))
}

fn failed() -> WireResponse {
    WireResponse {
        id: "r".to_owned(),
        ok: false,
        result: Json::Null,
        error: json("{\"message\":\"no\",\"issues\":[1]}"),
    }
}

const NO_TODO: &str =
    "{\"error\":{\"message\":\"No connected app matches 'todo'. Fetch GET /apps to list what is connected.\"}}";

const NO_TODO_ONE: &str =
    "{\"error\":{\"message\":\"No connected app matches 'todo/one'. Fetch GET /apps to list what is connected.\"}}";

#[test]
fn ports_are_tried_upward() {
    let ports = ports_to_try();
    assert_eq!(ports.len(), 21);
    assert_eq!(ports[0], 7421);
    assert_eq!(ports[1], 7422);
    assert_eq!(ports[19], 7440);
    assert_eq!(ports[20], 0);
}

#[test]
fn errors_have_statuses_and_messages() {
    let not_found = HubError::NotFound { app: "todo".to_owned(), instance: None };
    assert_eq!(shown(hub_error_response(&not_found)), (404, Some(value(NO_TODO))));
    let not_found = HubError::NotFound { app: "todo".to_owned(), instance: Some("one".to_owned()) };
    assert_eq!(shown(hub_error_response(&not_found)), (404, Some(value(NO_TODO_ONE))));
    let ambiguous =
        HubError::Ambiguous { app: "todo".to_owned(), instances: vec!["a".to_owned(), "b".to_owned()] };
    assert_eq!(
        shown(hub_error_response(&ambiguous)),
        (
            409,
            Some(value(
                "{\"error\":{\"message\":\"Several instances of 'todo' are connected; address one explicitly as \
                 /todo/<instanceId>/…\",\"instances\":[\"a\",\"b\"]}}"
            ))
        )
    );
    assert_eq!(
        shown(hub_error_response(&HubError::Gone)),
        (503, Some(value("{\"error\":{\"message\":\"The app disconnected before answering.\"}}")))
    );
    assert_eq!(
        shown(hub_error_response(&HubError::Timeout)),
        (504, Some(value("{\"error\":{\"message\":\"The app did not respond in time.\"}}")))
    );
    assert_eq!(
        shown(hub_error_response(&HubError::App(json("{\"issues\":[1]}")))),
        (422, Some(value("{\"error\":{\"issues\":[1]}}")))
    );
}

#[test]
fn a_call_over_rest_is_answered_with_its_result() {
    let mut state = one();
    let relay = relayed(state.api_instance("todo", "one", "add", json("{\"t\":1}"), 7));
    assert_eq!(
        relay.call.frame,
        format!("{{\"id\":\"{}\",\"action\":\"add\",\"payload\":{{\"t\":1}}}}", relay.call.id)
    );
    let text = format!("{{\"id\":\"{}\",\"ok\":true,\"result\":{{\"id\":5}}}}", relay.call.id);
    let handle = relay.handle.copy();
    let response = match state.handle_app_message(&handle, &text) {
        AppMessage::Deliver { waiter, response } => {
            assert_eq!(waiter, 7);
            response
        }
        _ => panic!("the reply was lost"),
    };
    assert_eq!(
        shown(state.finish(relay, Outcome::Replied(response))),
        (200, Some(value("{\"id\":5}")))
    );
    assert!(state.remove(&handle).is_empty());
}

#[test]
fn a_call_over_rest_fails_with_a_status() {
    let mut state = one();
    let mut end = |outcome: Outcome| {
        let relay = relayed(state.api_instance("todo", "one", "add", Json::Null, 7));
        shown(state.finish(relay, outcome))
    };
    assert_eq!(
        end(Outcome::Replied(failed())),
        (422, Some(value("{\"error\":{\"message\":\"no\",\"issues\":[1]}}")))
    );
    assert_eq!(end(Outcome::Dropped).0, 503);
    assert_eq!(end(Outcome::Unsent).0, 503);
    assert_eq!(end(Outcome::TimedOut).0, 504);
}

#[test]
fn a_call_that_timed_out_is_struck_out() {
    let mut state = one();
    let relay = relayed(state.api_instance("todo", "one", "add", Json::Null, 7));
    let handle = relay.handle.copy();
    state.finish(relay, Outcome::TimedOut);
    assert!(state.remove(&handle).is_empty());
}

#[test]
fn unknown_paths_are_not_found() {
    let mut state = State::new();
    assert_eq!(
        replied(state.api_instance("todo", "one", "add", Json::Null, 0)),
        (404, Some(value(NO_TODO_ONE)))
    );
    assert_eq!(replied(state.api_app("todo", "add", Json::Null, 0)), (404, Some(value(NO_TODO))));
    assert_eq!(shown(state.tools_instance("todo", "one")), (404, Some(value(NO_TODO_ONE))));
    assert_eq!(shown(state.tools_app("todo")), (404, Some(value(NO_TODO))));
    assert_eq!(
        replied(state.mcp_instance("todo", "one", &json("{\"id\":1,\"method\":\"ping\"}"), 0)),
        (404, Some(value(NO_TODO_ONE)))
    );
    assert_eq!(
        replied(state.mcp_app("todo", &json("{\"id\":1,\"method\":\"ping\"}"), 0)),
        (404, Some(value(NO_TODO)))
    );
}

#[test]
fn the_shorthand_is_ambiguous_with_two_instances() {
    let mut state = two();
    let (status, body) = replied(state.api_app("todo", "add", Json::Null, 0));
    assert_eq!(status, 409);
    assert_eq!(body.unwrap()["error"]["instances"].as_array().unwrap().len(), 2);
    assert_eq!(shown(state.tools_app("todo")).0, 409);
    assert_eq!(replied(state.mcp_app("todo", &json("{\"id\":1}"), 0)).0, 409);
    assert_eq!(relayed(state.api_instance("todo", "two", "add", Json::Null, 0)).handle.id, "two");
}

#[test]
fn the_shorthand_means_the_one_instance() {
    let mut state = one();
    assert_eq!(relayed(state.api_app("todo", "add", Json::Null, 0)).handle, state.get("todo", "one").unwrap().handle());
    assert_eq!(state.tools_app("todo"), state.tools_instance("todo", "one"));
    let ping = json("{\"id\":1,\"method\":\"ping\"}");
    assert_eq!(
        replied(state.mcp_app("todo", &ping, 0)),
        (200, Some(value("{\"jsonrpc\":\"2.0\",\"id\":1,\"result\":{}}")))
    );
}

#[test]
fn the_catalog_is_served_alike() {
    let mut state = one();
    let catalog = value("{\"tools\":[{\"name\":\"add\",\"inputSchema\":{}}]}");
    assert_eq!(shown(state.tools_instance("todo", "one")), (200, Some(catalog.clone())));
    let (status, body) = rpc(&mut state, "{\"id\":\"x\",\"method\":\"tools/list\"}");
    assert_eq!(status, 200);
    assert_eq!(body.unwrap()["result"], catalog);
}

#[test]
fn initialize_tells_about_the_server() {
    let mut state = one();
    assert_eq!(
        rpc(&mut state, "{\"id\":1,\"method\":\"initialize\",\"params\":{}}"),
        (
            200,
            Some(value(
                "{\"jsonrpc\":\"2.0\",\"id\":1,\"result\":{\"protocolVersion\":\"2025-06-18\",\
                 \"capabilities\":{\"tools\":{}},\"serverInfo\":{\"name\":\"web-bridge:todo\",\"version\":\"0.1.0\"},\
                 \"instructions\":\"Use it.\"}}"
            ))
        )
    );
}

#[test]
fn initialize_leaves_out_instructions_that_are_not_there() {
    let mut state = State::new();
    let hello = parse_hello("{\"type\":\"hello\",\"app\":\"todo\"}").unwrap();
    state.register_as("todo".to_owned(), "one".to_owned(), &hello, 0, 1);
    let (_, body) = rpc(&mut state, "{\"id\":1,\"method\":\"initialize\"}");
    assert_eq!(body.unwrap()["result"].get("instructions"), None);
}

#[test]
fn notifications_are_accepted_without_a_body() {
    let mut state = one();
    assert_eq!(rpc(&mut state, "{\"method\":\"notifications/initialized\"}"), (202, None));
    assert_eq!(rpc(&mut state, "{\"method\":\"tools/call\",\"params\":{\"name\":\"add\"}}"), (202, None));
    assert_eq!(rpc(&mut state, "[]"), (202, None));
    let handle = state.get("todo", "one").unwrap().handle();
    assert!(state.remove(&handle).is_empty());
}

#[test]
fn unknown_methods_are_errors_of_the_protocol() {
    let mut state = one();
    assert_eq!(
        rpc(&mut state, "{\"id\":null,\"method\":\"resources/list\"}"),
        (
            200,
            Some(value(
                "{\"jsonrpc\":\"2.0\",\"id\":null,\"error\":{\"code\":-32601,\
                 \"message\":\"Method not found: resources/list\"}}"
            ))
        )
    );
    let (_, body) = rpc(&mut state, "{\"id\":1}");
    assert_eq!(body.unwrap()["error"]["message"], "Method not found: ");
}

#[test]
fn tool_calls_need_parameters_and_a_name() {
    let mut state = one();
    let (_, body) = rpc(&mut state, "{\"id\":1,\"method\":\"tools/call\"}");
    assert_eq!(body.unwrap()["error"], value("{\"code\":-32602,\"message\":\"Missing params\"}"));
    for params in ["{}", "{\"name\":\"\"}", "{\"name\":5}", "null", "[\"name\"]"] {
        let request = format!("{{\"id\":1,\"method\":\"tools/call\",\"params\":{params}}}");
        let (status, body) = rpc(&mut state, &request);
        assert_eq!(status, 200);
        assert_eq!(body.unwrap()["error"], value("{\"code\":-32602,\"message\":\"Missing tool name\"}"));
    }
}

#[test]
fn rest_and_mcp_dispatch_alike() {
    let mut state = one();
    let rest = relayed(state.api_instance("todo", "one", "add", json("{\"t\":1}"), 1));
    let request = "{\"id\":9,\"method\":\"tools/call\",\"params\":{\"name\":\"add\",\"arguments\":{\"t\":1}}}";
    let tool = relayed(state.mcp_instance("todo", "one", &json(request), 2));
    assert_eq!(rest.handle, tool.handle);
    assert_eq!(rest.call.frame.replace(&rest.call.id, "ID"), tool.call.frame.replace(&tool.call.id, "ID"));
    let bare = relayed(state.api_instance("todo", "one", "add", json("{}"), 3));
    let request = "{\"id\":9,\"method\":\"tools/call\",\"params\":{\"name\":\"add\"}}";
    let tool = relayed(state.mcp_instance("todo", "one", &json(request), 4));
    assert_eq!(bare.call.frame.replace(&bare.call.id, "ID"), tool.call.frame.replace(&tool.call.id, "ID"));
}

#[test]
fn arguments_default_to_none() {
    let mut state = one();
    let request = "{\"id\":9,\"method\":\"tools/call\",\"params\":{\"name\":\"add\"}}";
    let tool = relayed(state.mcp_instance("todo", "one", &json(request), 2));
    assert_eq!(tool.call.frame, format!("{{\"id\":\"{}\",\"action\":\"add\",\"payload\":{{}}}}", tool.call.id));
}

#[test]
fn tool_results_are_shown_as_text() {
    let mut state = one();
    let request = "{\"id\":9,\"method\":\"tools/call\",\"params\":{\"name\":\"add\",\"arguments\":null}}";
    let tool = relayed(state.mcp_instance("todo", "one", &json(request), 2));
    let good = WireResponse { id: "r".to_owned(), ok: true, result: json("{\"b\":1,\"a\":[2]}"), error: Json::Null };
    assert_eq!(
        shown(state.finish(tool, Outcome::Replied(good))),
        (
            200,
            Some(value(
                "{\"jsonrpc\":\"2.0\",\"id\":9,\"result\":{\"content\":[{\"type\":\"text\",\
                 \"text\":\"{\\\"a\\\":[2],\\\"b\\\":1}\"}],\"isError\":false}}"
            ))
        )
    );
    assert_eq!(
        tool_text(Json::Null, true).into_value(),
        value("{\"content\":[{\"type\":\"text\",\"text\":\"null\"}],\"isError\":true}")
    );
}

#[test]
fn tool_failures_are_tool_results() {
    let mut state = one();
    let request = "{\"id\":9,\"method\":\"tools/call\",\"params\":{\"name\":\"add\"}}";
    let mut end = |outcome: Outcome| {
        let relay = relayed(state.mcp_instance("todo", "one", &json(request), 7));
        let (status, body) = shown(state.finish(relay, outcome));
        let body = body.unwrap();
        assert_eq!(status, 200);
        assert_eq!(body.get("error"), None);
        assert_eq!(body["id"], 9);
        assert_eq!(body["result"]["isError"], true);
        body["result"]["content"][0]["text"].as_str().unwrap().to_owned()
    };
    assert_eq!(end(Outcome::Replied(failed())), "{\"issues\":[1],\"message\":\"no\"}");
    assert_eq!(end(Outcome::Dropped), "{\"message\":\"The app disconnected before answering.\"}");
    assert_eq!(end(Outcome::TimedOut), "{\"message\":\"The app did not respond in time.\"}");
}
