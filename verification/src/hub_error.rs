//! Why a client call could not be fulfilled.

use crate::json::{Fields, Json, JsonView};
use crate::text::{text_view, texts_view};
use vstd::prelude::*;

verus! {

/// Why a client call could not be fulfilled.
#[derive(Debug, PartialEq)]
pub enum HubError {
    /// No connected instance matches the requested path.
    NotFound { app: String, instance: Option<String> },
    /// The path names an app of which several instances are connected; carries their ids so that
    /// the client can pick one.
    Ambiguous { app: String, instances: Vec<String> },
    /// The app disconnected before answering.
    Gone,
    /// The app did not answer in time.
    Timeout,
    /// The app answered that it failed; carries its error payload.
    App(Json),
}

/// What a `HubError` says.
pub enum HubErrorView {
    NotFound { app: Seq<char>, instance: Option<Seq<char>> },
    Ambiguous { app: Seq<char>, instances: Seq<Seq<char>> },
    Gone,
    Timeout,
    App(JsonView),
}

impl View for HubError {
    type V = HubErrorView;

    open spec fn view(&self) -> HubErrorView {
        match self {
            HubError::NotFound { app, instance } => HubErrorView::NotFound {
                app: app@,
                instance: text_view(*instance),
            },
            HubError::Ambiguous { app, instances } => HubErrorView::Ambiguous {
                app: app@,
                instances: texts_view(instances@),
            },
            HubError::Gone => HubErrorView::Gone,
            HubError::Timeout => HubErrorView::Timeout,
            HubError::App(e) => HubErrorView::App(e@),
        }
    }
}

/// A JSON array of strings.
pub open spec fn text_array(texts: Seq<Seq<char>>) -> JsonView {
    JsonView::Array(texts.map_values(|s: Seq<char>| JsonView::Str(s)))
}

/// A JSON object with a message alone.
pub open spec fn message_json(message: Seq<char>) -> JsonView {
    JsonView::Object(map!["message"@ => JsonView::Str(message)])
}

impl HubErrorView {
    /// The path that nothing matches.
    pub open spec fn target(app: Seq<char>, instance: Option<Seq<char>>) -> Seq<char> {
        match instance {
            Some(i) => app + "/"@ + i,
            None => app,
        }
    }

    /// The body that API and MCP clients see.
    pub open spec fn json(self) -> JsonView {
        match self {
            HubErrorView::NotFound { app, instance } => message_json(
                "No connected app matches '"@ + HubErrorView::target(app, instance)
                    + "'. Fetch GET /apps to list what is connected."@,
            ),
            HubErrorView::Ambiguous { app, instances } => JsonView::Object(
                map![
                    "message"@ => JsonView::Str(
                        "Several instances of '"@ + app + "' are connected; address one explicitly as /"@ + app
                            + "/<instanceId>/…"@),
                    "instances"@ => text_array(instances),
                ],
            ),
            HubErrorView::Gone => message_json("The app disconnected before answering."@),
            HubErrorView::Timeout => message_json("The app did not respond in time."@),
            HubErrorView::App(e) => e,
        }
    }
}

fn array_of_texts(texts: &Vec<String>) -> (j: Json)
    ensures
        j@ == text_array(texts_view(texts@)),
{
    let mut items: Vec<Json> = Vec::new();
    for i in 0..texts.len()
        invariant
            items@.len() == i,
            forall|k: int| 0 <= k < i ==> crate::json::json_view(#[trigger] items@[k]) == JsonView::Str(texts@[k]@),
    {
        items.push(Json::text(texts[i].as_str()));
    }
    assert(crate::json::items_view(items@) =~= texts_view(texts@).map_values(|s: Seq<char>| JsonView::Str(s)));
    Json::Array(items)
}

fn message_object(message: &str) -> (j: Json)
    ensures
        j@ == message_json(message@),
{
    Fields::new().put("message", Json::text(message)).into_json()
}

impl HubError {
    /// The body that API and MCP clients see.
    pub fn to_json(&self) -> (j: Json)
        ensures
            j@ == self@.json(),
    {
        match self {
            HubError::NotFound { app, instance } => {
                let target = match instance {
                    Some(i) => app.clone().concat("/").concat(i.as_str()),
                    None => app.clone(),
                };
                message_object(
                    "No connected app matches '".to_owned().concat(target.as_str()).concat(
                        "'. Fetch GET /apps to list what is connected.",
                    ).as_str(),
                )
            },
            HubError::Ambiguous { app, instances } => {
                let message = "Several instances of '".to_owned().concat(app.as_str()).concat(
                    "' are connected; address one explicitly as /",
                ).concat(app.as_str()).concat("/<instanceId>/…");
                Fields::new().put("message", Json::text(message.as_str())).put(
                    "instances",
                    array_of_texts(instances),
                ).into_json()
            },
            HubError::Gone => message_object("The app disconnected before answering."),
            HubError::Timeout => message_object("The app did not respond in time."),
            HubError::App(e) => e.clone(),
        }
    }
}

} // verus!
