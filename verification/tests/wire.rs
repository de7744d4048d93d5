//! The frames between the bridge and an app.

use serde_json::Value;
use web_bridge::json::Json;
use web_bridge::wire::{
    error_frame, farewell, parse_hello, request_frame, says_hello, welcome_frame, Hello, Outbound, WireResponse,
};

fn json(text: &str) -> Json {
    Json::parse(text).unwrap()
}

fn bare_hello(app: &str) -> Hello {
    Hello {
        app: app.to_owned(),
        title: None,
        description: None,
        instructions: None,
        instance_id: None,
        instance_label: None,
        tools: None,
    }
}

#[test]
fn hello_is_read_in_full() {
    let text = "{\"type\":\"hello\",\"protocolVersion\":1,\"app\":\"todo\",\"title\":\"Todo\",\
                \"description\":\"d\",\"instructions\":\"i\",\"instanceId\":\"one\",\
                \"instanceLabel\":\"l\",\"tools\":[{\"name\":\"addTask\"}]}";
    assert_eq!(
        parse_hello(text),
        Ok(Hello {
            app: "todo".to_owned(),
            title: Some("Todo".to_owned()),
            description: Some("d".to_owned()),
            instructions: Some("i".to_owned()),
            instance_id: Some("one".to_owned()),
            instance_label: Some("l".to_owned()),
            tools: Some(json("[{\"name\":\"addTask\"}]")),
        })
    );
}

#[test]
fn fields_of_a_hello_may_be_left_out_or_null() {
    assert_eq!(parse_hello("{\"type\":\"hello\",\"app\":\"todo\"}"), Ok(bare_hello("todo")));
    let nulls = "{\"type\":\"hello\",\"app\":\"todo\",\"title\":null,\"description\":null,\
                 \"instructions\":null,\"instanceId\":null,\"instanceLabel\":null,\"tools\":null}";
    assert_eq!(parse_hello(nulls), Ok(bare_hello("todo")));
}

#[test]
fn malformed_first_frames_are_explained() {
    assert_eq!(
        parse_hello("not json"),
        Err("Malformed hello frame: expected ident at line 1 column 2".to_owned())
    );
    assert_eq!(
        parse_hello("{\"type\":\"hello\"}"),
        Err("Malformed hello frame: missing field `app`".to_owned())
    );
    assert_eq!(
        parse_hello("{\"type\":\"hello\",\"app\":5}"),
        Err("Malformed hello frame: invalid type: integer `5`, expected a string".to_owned())
    );
    assert_eq!(
        parse_hello("{\"type\":\"hello\",\"app\":null}"),
        Err("Malformed hello frame: invalid type: null, expected a string".to_owned())
    );
    assert_eq!(
        parse_hello("{\"type\":\"hello\",\"title\":true}"),
        Err("Malformed hello frame: invalid type: boolean `true`, expected a string".to_owned())
    );
    assert_eq!(
        parse_hello("{\"type\":\"hello\",\"app\":\"a\",\"title\":true,\"description\":[]}"),
        Err("Malformed hello frame: invalid type: sequence, expected a string".to_owned())
    );
}

#[test]
fn the_first_frame_must_be_a_hello() {
    let wanted = Err("The first frame must be a hello: {\"type\":\"hello\",\"app\":\"<name>\", …}".to_owned());
    assert_eq!(parse_hello("{\"type\":\"welcome\",\"app\":\"todo\"}"), wanted);
    assert_eq!(parse_hello("{\"app\":\"todo\"}"), wanted);
    assert_eq!(parse_hello("[\"hello\"]"), wanted);
    assert_eq!(parse_hello("\"hello\""), wanted);
    assert!(says_hello(&json("{\"type\":\"hello\"}")));
    assert!(!says_hello(&json("{\"type\":5}")));
}

#[test]
fn replies_are_read() {
    assert_eq!(
        WireResponse::from_json(&json("{\"id\":\"r\",\"ok\":true,\"result\":{\"n\":1}}")),
        Some(WireResponse { id: "r".to_owned(), ok: true, result: json("{\"n\":1}"), error: Json::Null })
    );
    assert_eq!(
        WireResponse::from_json(&json("{\"id\":\"r\",\"ok\":false,\"error\":{\"message\":\"m\"},\"more\":0}")),
        Some(WireResponse { id: "r".to_owned(), ok: false, result: Json::Null, error: json("{\"message\":\"m\"}") })
    );
    assert_eq!(
        WireResponse::from_json(&json("{\"id\":\"r\"}")),
        Some(WireResponse { id: "r".to_owned(), ok: false, result: Json::Null, error: Json::Null })
    );
}

#[test]
fn replies_may_be_lists() {
    assert_eq!(
        WireResponse::from_json(&json("[\"r\",true,1,2]")),
        Some(WireResponse { id: "r".to_owned(), ok: true, result: json("1"), error: json("2") })
    );
    assert_eq!(
        WireResponse::from_json(&json("[\"r\"]")),
        Some(WireResponse { id: "r".to_owned(), ok: false, result: Json::Null, error: Json::Null })
    );
    assert_eq!(WireResponse::from_json(&json("[]")), None);
    assert_eq!(WireResponse::from_json(&json("[\"r\",true,1,2,3]")), None);
    assert_eq!(WireResponse::from_json(&json("[\"r\",1]")), None);
}

#[test]
fn values_that_are_no_replies_are_not_read() {
    for text in ["{}", "{\"id\":1}", "{\"id\":null}", "{\"id\":\"r\",\"ok\":1}", "{\"id\":\"r\",\"ok\":null}", "\"r\"", "null"] {
        assert_eq!(WireResponse::from_json(&json(text)), None);
    }
}

#[test]
fn calls_are_relayed_as_one_frame() {
    let frame = request_frame("r-1", "add\"Task", json("{\"title\":\"buy milk\"}"));
    assert_eq!(frame, "{\"id\":\"r-1\",\"action\":\"add\\\"Task\",\"payload\":{\"title\":\"buy milk\"}}");
    let read: Value = serde_json::from_str(&frame).unwrap();
    assert_eq!(read["id"], "r-1");
    assert_eq!(read["action"], "add\"Task");
    assert_eq!(read["payload"]["title"], "buy milk");
}

#[test]
fn rejections_say_why() {
    assert_eq!(error_frame("because"), "{\"message\":\"because\",\"type\":\"error\"}");
}

#[test]
fn a_farewell_comes_before_the_close() {
    assert_eq!(
        farewell("bye"),
        vec![Outbound::Frame("{\"message\":\"bye\",\"type\":\"error\"}".to_owned()), Outbound::Close]
    );
}

#[test]
fn a_welcome_names_the_endpoints() {
    assert_eq!(
        welcome_frame("http://localhost:7421/todo/one", "todo", "one"),
        "{\"apiUrl\":\"http://localhost:7421/todo/one/api\",\"app\":\"todo\",\
         \"baseUrl\":\"http://localhost:7421/todo/one\",\"instanceId\":\"one\",\
         \"mcpUrl\":\"http://localhost:7421/todo/one/mcp\",\"type\":\"welcome\"}"
    );
}
