//! The frames that travel between the bridge and a connected app.

use crate::codec::{json_text, parsed_json, string_complaint};
use crate::json::{Fields, Json, JsonView};
use crate::text::{same_text, text_view};
use crate::wire_laws::{call_text, field_or_null, law_frame_is_the_call};
use vstd::prelude::*;

verus! {

/// What is handed to a connection to write out, in order.
#[derive(Debug, PartialEq)]
pub enum Outbound {
    /// A text frame to send as it is.
    Frame(String),
    /// Close the connection.
    Close,
}

/// What an `Outbound` says.
pub enum OutboundView {
    Frame(Seq<char>),
    Close,
}

impl View for Outbound {
    type V = OutboundView;

    open spec fn view(&self) -> OutboundView {
        match self {
            Outbound::Frame(text) => OutboundView::Frame(text@),
            Outbound::Close => OutboundView::Close,
        }
    }
}

/// What a list of outbound messages says.
pub open spec fn outbound_view(messages: Seq<Outbound>) -> Seq<OutboundView> {
    messages.map_values(|m: Outbound| m@)
}

/// The frame with which an app announces itself, and which it may send again at any time to
/// refresh what it said.
#[derive(Debug, PartialEq)]
pub struct Hello {
    pub app: String,
    pub title: Option<String>,
    pub description: Option<String>,
    pub instructions: Option<String>,
    pub instance_id: Option<String>,
    pub instance_label: Option<String>,
    pub tools: Option<Json>,
}

/// What a `Hello` says.
pub struct HelloView {
    pub app: Seq<char>,
    pub title: Option<Seq<char>>,
    pub description: Option<Seq<char>>,
    pub instructions: Option<Seq<char>>,
    pub instance_id: Option<Seq<char>>,
    pub instance_label: Option<Seq<char>>,
    pub tools: Option<JsonView>,
}

impl View for Hello {
    type V = HelloView;

    open spec fn view(&self) -> HelloView {
        HelloView {
            app: self.app@,
            title: text_view(self.title),
            description: text_view(self.description),
            instructions: text_view(self.instructions),
            instance_id: text_view(self.instance_id),
            instance_label: text_view(self.instance_label),
            tools: (match self.tools {
                Some(j) => Some(j@),
                None => None,
            }),
        }
    }
}

/// An app's reply to a relayed call.
#[derive(Debug, PartialEq)]
pub struct WireResponse {
    pub id: String,
    pub ok: bool,
    pub result: Json,
    pub error: Json,
}

/// What a `WireResponse` says.
pub struct ResponseView {
    pub id: Seq<char>,
    pub ok: bool,
    pub result: JsonView,
    pub error: JsonView,
}

impl View for WireResponse {
    type V = ResponseView;

    open spec fn view(&self) -> ResponseView {
        ResponseView { id: self.id@, ok: self.ok, result: self.result@, error: self.error@ }
    }
}

/// Whether a value is a hello frame.
pub open spec fn is_hello(v: JsonView) -> bool {
    v.text_field("type"@) == Some("hello"@)
}

/// The text of a field that may be left out or null.
pub open spec fn optional_text(field: Option<JsonView>) -> Result<Option<Seq<char>>, Seq<char>> {
    match field {
        None => Ok(None),
        Some(JsonView::Null) => Ok(None),
        Some(JsonView::Str(s)) => Ok(Some(s)),
        Some(v) => Err(string_complaint(v)),
    }
}

/// The value of a field that may be left out or null.
pub open spec fn optional_value(field: Option<JsonView>) -> Option<JsonView> {
    match field {
        None => None,
        Some(JsonView::Null) => None,
        Some(v) => Some(v),
    }
}

/// What a hello frame says, or the complaint about the first field, by name, that is no text.
pub open spec fn hello_of(v: JsonView) -> Result<HelloView, Seq<char>> {
    let app = v.field("app"@);
    if app is Some && app->0.text() is None {
        Err(string_complaint(app->0))
    } else {
        let description = optional_text(v.field("description"@));
        let instance_id = optional_text(v.field("instanceId"@));
        let instance_label = optional_text(v.field("instanceLabel"@));
        let instructions = optional_text(v.field("instructions"@));
        let title = optional_text(v.field("title"@));
        if description is Err {
            Err(description->Err_0)
        } else if instance_id is Err {
            Err(instance_id->Err_0)
        } else if instance_label is Err {
            Err(instance_label->Err_0)
        } else if instructions is Err {
            Err(instructions->Err_0)
        } else if title is Err {
            Err(title->Err_0)
        } else if app is None {
            Err("missing field `app`"@)
        } else {
            Ok(
                HelloView {
                    app: v.text_field("app"@)->0,
                    title: title->Ok_0,
                    description: description->Ok_0,
                    instructions: instructions->Ok_0,
                    instance_id: instance_id->Ok_0,
                    instance_label: instance_label->Ok_0,
                    tools: optional_value(v.field("tools"@)),
                },
            )
        }
    }
}

/// What is made of the first frame of a connection, once it has been read as JSON.
pub open spec fn first_frame(parsed: Result<JsonView, Seq<char>>) -> Result<HelloView, Seq<char>> {
    match parsed {
        Err(e) => Err("Malformed hello frame: "@ + e),
        Ok(v) => if !is_hello(v) {
            Err("The first frame must be a hello: {\"type\":\"hello\",\"app\":\"<name>\", …}"@)
        } else {
            match hello_of(v) {
                Err(e) => Err("Malformed hello frame: "@ + e),
                Ok(hello) => Ok(hello),
            }
        },
    }
}

/// The reply that a value says, written as an object or as the list of its fields.
pub open spec fn response_of(v: JsonView) -> Option<ResponseView> {
    match v {
        JsonView::Object(_) => {
            let ok = v.field("ok"@);
            if v.text_field("id"@) is None || (ok is Some && !(ok->0 is Bool)) {
                None
            } else {
                Some(
                    ResponseView {
                        id: v.text_field("id"@)->0,
                        ok: ok is Some && ok->0->Bool_0,
                        result: crate::json::value_or_null(v.field("result"@)),
                        error: crate::json::value_or_null(v.field("error"@)),
                    },
                )
            }
        },
        JsonView::Array(items) => if !(1 <= items.len() <= 4) || items[0].text() is None || (items.len() >= 2
            && !(items[1] is Bool)) {
            None
        } else {
            Some(
                ResponseView {
                    id: items[0].text()->0,
                    ok: items.len() >= 2 && items[1]->Bool_0,
                    result: if items.len() >= 3 {
                        items[2]
                    } else {
                        JsonView::Null
                    },
                    error: if items.len() >= 4 {
                        items[3]
                    } else {
                        JsonView::Null
                    },
                },
            )
        },
        _ => None,
    }
}

/// The frame that relays a call to an app.
pub open spec fn request_frame_text(id: Seq<char>, action: Seq<char>, payload: JsonView) -> Seq<char> {
    "{\"id\":"@ + json_text(JsonView::Str(id)) + ",\"action\":"@ + json_text(JsonView::Str(action))
        + ",\"payload\":"@ + json_text(payload) + "}"@
}

/// The frame that says why a connection is rejected or closed.
pub open spec fn error_frame_text(message: Seq<char>) -> Seq<char> {
    json_text(
        JsonView::Object(map!["type"@ => JsonView::Str("error"@), "message"@ => JsonView::Str(message)]),
    )
}

/// A farewell that explains the close, and then the close itself.
pub open spec fn farewell_view(message: Seq<char>) -> Seq<OutboundView> {
    seq![OutboundView::Frame(error_frame_text(message)), OutboundView::Close]
}

/// What an app is told about who it is and where it is exposed.
pub open spec fn welcome_json(base: Seq<char>, app: Seq<char>, id: Seq<char>) -> JsonView {
    JsonView::Object(
        map![
            "type"@ => JsonView::Str("welcome"@),
            "app"@ => JsonView::Str(app),
            "instanceId"@ => JsonView::Str(id),
            "baseUrl"@ => JsonView::Str(base),
            "mcpUrl"@ => JsonView::Str(base + "/mcp"@),
            "apiUrl"@ => JsonView::Str(base + "/api"@),
        ],
    )
}

/// What an optional text field holds, or the complaint about it.
fn read_optional_text(v: &Json, name: &str) -> (r: Result<Option<String>, String>)
    ensures
        match r {
            Ok(text) => optional_text(v@.field(name@)) == Ok::<Option<Seq<char>>, Seq<char>>(text_view(text)),
            Err(e) => optional_text(v@.field(name@)) == Err::<Option<Seq<char>>, Seq<char>>(e@),
        },
{
    match v.get(name) {
        None => Ok(None),
        Some(Json::Null) => Ok(None),
        Some(field) => match field.clone().into_string() {
            Ok(s) => Ok(Some(s)),
            Err(e) => Err(e),
        },
    }
}

impl Hello {
    /// Reads a hello frame, or complains about the first field, by name, that is no text.
    pub fn from_json(v: &Json) -> (r: Result<Hello, String>)
        ensures
            match r {
                Ok(hello) => hello_of(v@) == Ok::<HelloView, Seq<char>>(hello@),
                Err(e) => hello_of(v@) == Err::<HelloView, Seq<char>>(e@),
            },
    {
        let app = match v.get("app") {
            None => None,
            Some(field) => match field.clone().into_string() {
                Ok(s) => Some(s),
                Err(e) => return Err(e),
            },
        };
        let description = match read_optional_text(v, "description") {
            Ok(text) => text,
            Err(e) => return Err(e),
        };
        let instance_id = match read_optional_text(v, "instanceId") {
            Ok(text) => text,
            Err(e) => return Err(e),
        };
        let instance_label = match read_optional_text(v, "instanceLabel") {
            Ok(text) => text,
            Err(e) => return Err(e),
        };
        let instructions = match read_optional_text(v, "instructions") {
            Ok(text) => text,
            Err(e) => return Err(e),
        };
        let title = match read_optional_text(v, "title") {
            Ok(text) => text,
            Err(e) => return Err(e),
        };
        let tools = match v.get("tools") {
            None => None,
            Some(Json::Null) => None,
            Some(field) => Some(field.clone()),
        };
        match app {
            None => Err("missing field `app`".to_owned()),
            Some(app) => Ok(
                Hello { app, title, description, instructions, instance_id, instance_label, tools },
            ),
        }
    }
}

/// Whether a value is a hello frame.
pub fn says_hello(v: &Json) -> (hello: bool)
    ensures
        hello == is_hello(v@),
{
    match v.get_text("type") {
        Some(s) => same_text(s.as_str(), "hello"),
        None => false,
    }
}

/// What is made of the first frame of a connection, once it has been read as JSON.
pub fn read_first_frame(parsed: Result<Json, String>) -> (r: Result<Hello, String>)
    ensures
        match (parsed, r) {
            (Ok(v), Ok(hello)) => first_frame(Ok(v@)) == Ok::<HelloView, Seq<char>>(hello@),
            (Ok(v), Err(e)) => first_frame(Ok(v@)) == Err::<HelloView, Seq<char>>(e@),
            (Err(p), Ok(hello)) => first_frame(Err(p@)) == Ok::<HelloView, Seq<char>>(hello@),
            (Err(p), Err(e)) => first_frame(Err(p@)) == Err::<HelloView, Seq<char>>(e@),
        },
{
    match parsed {
        Err(e) => Err("Malformed hello frame: ".to_owned().concat(e.as_str())),
        Ok(v) => if !says_hello(&v) {
            Err("The first frame must be a hello: {\"type\":\"hello\",\"app\":\"<name>\", …}".to_owned())
        } else {
            match Hello::from_json(&v) {
                Err(e) => Err("Malformed hello frame: ".to_owned().concat(e.as_str())),
                Ok(hello) => Ok(hello),
            }
        },
    }
}

/// Reads the first frame of a connection, which must be a hello.
pub fn parse_hello(text: &str) -> (r: Result<Hello, String>)
    ensures
        match r {
            Ok(hello) => first_frame(parsed_json(text@)) == Ok::<HelloView, Seq<char>>(hello@),
            Err(e) => first_frame(parsed_json(text@)) == Err::<HelloView, Seq<char>>(e@),
        },
{
    read_first_frame(Json::parse(text))
}

impl WireResponse {
    /// Reads a reply.
    pub fn from_json(v: &Json) -> (r: Option<WireResponse>)
        ensures
            match r {
                Some(response) => response_of(v@) == Some(response@),
                None => response_of(v@) is None,
            },
            v@ is Object && v@.text_field("id"@) is Some && (v@.field("ok"@) is None || v@.field("ok"@)->0 is Bool) ==> {
                &&& r is Some
                &&& r->0.id@ == v@.text_field("id"@)->0
                &&& r->0.ok <==> v@.field("ok"@) == Some(JsonView::Bool(true))
                &&& r->0.result@ == field_or_null(v@, "result"@)
                &&& r->0.error@ == field_or_null(v@, "error"@)
            },
    {
        match v {
            Json::Object(_) => {
                let id = match v.get_text("id") {
                    Some(s) => s.clone(),
                    None => return None,
                };
                let ok = match v.get("ok") {
                    None => false,
                    Some(field) => match field.as_bool() {
                        Some(b) => b,
                        None => return None,
                    },
                };
                let result = Json::value_or_null(v.get("result"));
                let error = Json::value_or_null(v.get("error"));
                Some(WireResponse { id, ok, result, error })
            },
            Json::Array(items) => {
                let ghost views = crate::json::items_view(items@);
                assert(forall|i: int| 0 <= i < items@.len() ==> views[i] == (#[trigger] items@[i])@);
                if items.len() < 1 || items.len() > 4 {
                    return None;
                }
                let id = match items[0].as_str() {
                    Some(s) => s.clone(),
                    None => return None,
                };
                let ok = if items.len() < 2 {
                    false
                } else {
                    match items[1].as_bool() {
                        Some(b) => b,
                        None => return None,
                    }
                };
                let result = if items.len() < 3 {
                    Json::Null
                } else {
                    items[2].clone()
                };
                let error = if items.len() < 4 {
                    Json::Null
                } else {
                    items[3].clone()
                };
                Some(WireResponse { id, ok, result, error })
            },
            _ => None,
        }
    }
}

/// The frame that relays a call to an app.
pub fn request_frame(id: &str, action: &str, payload: Json) -> (frame: String)
    ensures
        frame@ == request_frame_text(id@, action@, payload@),
        frame@ == call_text(id@, action@, payload@),
{
    proof {
        law_frame_is_the_call(id@, action@, payload@);
    }
    "{\"id\":".to_owned().concat(Json::text(id).into_text().as_str()).concat(",\"action\":").concat(
        Json::text(action).into_text().as_str(),
    ).concat(",\"payload\":").concat(payload.into_text().as_str()).concat("}")
}

/// The frame that says why a connection is rejected or closed.
pub fn error_frame(message: &str) -> (frame: String)
    ensures
        frame@ == error_frame_text(message@),
{
    Fields::new().put("type", Json::text("error")).put("message", Json::text(message)).into_json().into_text()
}

/// A farewell that explains the close, and then the close itself.
pub fn farewell(message: &str) -> (messages: Vec<Outbound>)
    ensures
        outbound_view(messages@) == farewell_view(message@),
{
    let mut messages: Vec<Outbound> = Vec::new();
    messages.push(Outbound::Frame(error_frame(message)));
    messages.push(Outbound::Close);
    assert(outbound_view(messages@) =~= farewell_view(message@));
    messages
}

/// The frame that tells an app who it is and where it is exposed.
pub fn welcome_frame(base: &str, app: &str, id: &str) -> (frame: String)
    ensures
        frame@ == json_text(welcome_json(base@, app@, id@)),
{
    Fields::new().put("type", Json::text("welcome")).put("app", Json::text(app)).put(
        "instanceId",
        Json::text(id),
    ).put("baseUrl", Json::text(base)).put("mcpUrl", Json::text(base.to_owned().concat("/mcp").as_str())).put(
        "apiUrl",
        Json::text(base.to_owned().concat("/api").as_str()),
    ).into_json().into_text()
}

} // verus!
