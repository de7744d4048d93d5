//! What the documents show.

use crate::discovery::{
    app_json, app_status, instance_json, instance_status, instance_url, law_every_instance_is_shown_once,
    law_newest_instance_speaks, lemma_listed_before_total, lemma_member_place, listed_before, members,
    tool_summary_json, VERSION,
};
use crate::json::JsonView;
use crate::registry::{AppStateView, InstanceView};
use crate::text::{lemma_text_before_total, text_before};
use vstd::prelude::*;

verus! {

/// The list that an object holds under a name.
pub open spec fn list_under(v: JsonView, name: Seq<char>) -> Seq<JsonView> {
    if v.field(name) is Some && v.field(name)->0 is Array {
        v.field(name)->0->Array_0
    } else {
        Seq::empty()
    }
}

/// What a document lists as its apps.
pub open spec fn apps_in(document: JsonView) -> Seq<JsonView> {
    list_under(document, "apps"@)
}

/// What a document lists as the instances of its `a`th app.
pub open spec fn entries_in(document: JsonView, a: int) -> Seq<JsonView> {
    list_under(apps_in(document)[a], "instances"@)
}

/// Whether a document has an `i`th instance of an `a`th app.
pub open spec fn has_place(document: JsonView, a: int, i: int) -> bool {
    0 <= a < apps_in(document).len() && 0 <= i < entries_in(document, a).len()
}

/// Whether a document names this key at a place: the app, and the id of the instance.
pub open spec fn names_key(document: JsonView, a: int, i: int, key: (Seq<char>, Seq<char>)) -> bool {
    &&& has_place(document, a, i)
    &&& apps_in(document)[a].field("app"@) == Some(JsonView::Str(key.0))
    &&& entries_in(document, a)[i].field("instanceId"@) == Some(JsonView::Str(key.1))
}

/// Whether a document shows these keys: every place names one of them, every one of them is named at
/// a place, and none of them at two.
pub open spec fn shows_exactly(document: JsonView, keys: Set<(Seq<char>, Seq<char>)>) -> bool {
    &&& forall|a: int, i: int| #[trigger]
        has_place(document, a, i) ==> exists|key: (Seq<char>, Seq<char>)| #[trigger]
            keys.contains(key) && names_key(document, a, i, key)
    &&& forall|key: (Seq<char>, Seq<char>)| #[trigger]
        keys.contains(key) ==> exists|a: int, i: int| #[trigger] names_key(document, a, i, key)
    &&& forall|a: int, i: int, b: int, j: int, key: (Seq<char>, Seq<char>)| #[trigger]
        names_key(document, a, i, key) && #[trigger] names_key(document, b, j, key) ==> a == b && i == j
    &&& forall|a: int| 0 <= a < apps_in(document).len() ==> (#[trigger] entries_in(document, a)).len() > 0
}

/// A text, or null for none.
pub open spec fn shows_text_or_null(v: JsonView, name: Seq<char>, text: Option<Seq<char>>) -> bool {
    match text {
        Some(s) => v.field(name) == Some(JsonView::Str(s)),
        None => v.field(name) == Some(JsonView::Null),
    }
}

/// An entry of the status snapshot tells the id, the label, the time of connection and how many
/// tools there are.
pub proof fn law_status_entry_tells<S, W>(i: InstanceView<S, W>)
    requires
        i.info.tools is Array,
    ensures
        instance_status(i).field("instanceId"@) == Some(JsonView::Str(i.id)),
        shows_text_or_null(instance_status(i), "label"@, i.info.label),
        instance_status(i).field("connectedAt"@) == Some(JsonView::Int(i.connected_at as int)),
        instance_status(i).field("toolCount"@) == Some(JsonView::Int(i.info.tools->Array_0.len() as int)),
{
    lemma_names_differ();
}

/// An entry of the discovery document tells the id, the label, the time of connection, the endpoints
/// and, of every tool in the order of the catalog, the name and the description.
pub proof fn law_discovery_entry_tells<S, W>(base: Seq<char>, i: InstanceView<S, W>, k: int)
    requires
        i.info.tools is Array,
    ensures
        ({
            let entry = instance_json(base, i);
            let tools = list_under(entry, "tools"@);
            let catalog = i.info.tools->Array_0;
            &&& entry.field("instanceId"@) == Some(JsonView::Str(i.id))
            &&& shows_text_or_null(entry, "label"@, i.info.label)
            &&& entry.field("connectedAt"@) == Some(JsonView::Int(i.connected_at as int))
            &&& entry.field("mcpUrl"@) == Some(JsonView::Str(base + "/"@ + i.app + "/"@ + i.id + "/mcp"@))
            &&& entry.field("apiUrl"@) == Some(JsonView::Str(base + "/"@ + i.app + "/"@ + i.id + "/api"@))
            &&& entry.field("toolsUrl"@) == Some(JsonView::Str(base + "/"@ + i.app + "/"@ + i.id + "/tools"@))
            &&& entry.field("tools"@) is Some && entry.field("tools"@)->0 is Array
            &&& tools.len() == catalog.len()
            &&& 0 <= k < catalog.len() ==> summarises(tools[k], catalog[k])
        }),
{
    lemma_names_differ();
    if 0 <= k < i.info.tools->Array_0.len() {
        law_summary_keeps_name_and_description(i.info.tools->Array_0[k]);
    }
}

/// Whether a value tells the name and the description of a tool, with null for what is left out, and
/// nothing more.
pub open spec fn summarises(summary: JsonView, tool: JsonView) -> bool {
    &&& tool.field("name"@) is Some ==> summary.field("name"@) == tool.field("name"@)
    &&& tool.field("name"@) is None ==> summary.field("name"@) == Some(JsonView::Null)
    &&& tool.field("description"@) is Some ==> summary.field("description"@) == tool.field("description"@)
    &&& tool.field("description"@) is None ==> summary.field("description"@) == Some(JsonView::Null)
    &&& forall|name: Seq<char>| #[trigger] summary.field(name) is Some ==> name == "name"@ || name == "description"@
}

/// A summary of a tool is its name and its description.
pub proof fn law_summary_keeps_name_and_description(tool: JsonView)
    ensures
        summarises(tool_summary_json(tool), tool),
{
    lemma_names_differ();
}

/// The endpoints of an instance lie below the base, under its app and its id.
pub proof fn law_instance_url_is_its_path(base: Seq<char>, app: Seq<char>, id: Seq<char>)
    ensures
        instance_url(base, app, id) == base + "/"@ + app + "/"@ + id,
{
}

proof fn lemma_names_differ()
    ensures
        "app"@.len() == 3,
        "title"@.len() == 5,
        "title"@[0] == 't',
        "title"@[1] == 'i',
        "label"@.len() == 5,
        "label"@[0] == 'l',
        "tools"@.len() == 5,
        "tools"@[1] == 'o',
        "tools"@[0] == 't',
        "description"@.len() == 11,
        "description"@[0] == 'd',
        "connectedAt"@.len() == 11,
        "connectedAt"@[0] == 'c',
        "instructions"@.len() == 12,
        "instances"@.len() == 9,
        "instances"@[0] == 'i',
        "toolCount"@.len() == 9,
        "toolCount"@[0] == 't',
        "instanceId"@.len() == 10,
        "connectUrl"@.len() == 10,
        "mcpUrl"@.len() == 6,
        "mcpUrl"@[0] == 'm',
        "apiUrl"@.len() == 6,
        "apiUrl"@[0] == 'a',
        "toolsUrl"@.len() == 8,
        "name"@.len() == 4,
        "name"@[0] == 'n',
        "port"@.len() == 4,
        "apps"@.len() == 4,
        "apps"@[0] == 'a',
        "port"@[0] == 'p',
        "running"@.len() == 7,
        "running"@[0] == 'r',
        "service"@.len() == 7,
        "service"@[0] == 's',
        "version"@.len() == 7,
        "version"@[0] == 'v',
{
    reveal_strlit("app");
    reveal_strlit("title");
    reveal_strlit("label");
    reveal_strlit("tools");
    reveal_strlit("description");
    reveal_strlit("connectedAt");
    reveal_strlit("instructions");
    reveal_strlit("instances");
    reveal_strlit("toolCount");
    reveal_strlit("instanceId");
    reveal_strlit("connectUrl");
    reveal_strlit("mcpUrl");
    reveal_strlit("apiUrl");
    reveal_strlit("toolsUrl");
    reveal_strlit("name");
    reveal_strlit("port");
    reveal_strlit("apps");
    reveal_strlit("running");
    reveal_strlit("service");
    reveal_strlit("version");
}

/// Whatever stands in a group is listed, and so connected.
proof fn lemma_grouped_is_connected<S, W>(v: AppStateView<S, W>, g: int, k: int)
    requires
        v.valid(),
        0 <= g < v.groups().len(),
        0 <= k < v.groups()[g].1.len(),
    ensures
        ({
            let x = v.groups()[g].1[k];
            &&& x.app == v.groups()[g].0
            &&& v.instances.contains_key(x.key())
            &&& v.instances[x.key()] == x
        }),
{
    law_every_instance_is_shown_once(v);
    let gs = v.groups();
    let n = lemma_member_index(gs, g, k);
    assert(members(gs)[n] == gs[g].1[k]);
    assert(gs[g].1[k].app == gs[g].0);
}

/// Where a member of a group stands among all members.
proof fn lemma_member_index<S, W>(gs: Seq<(Seq<char>, Seq<InstanceView<S, W>>)>, g: int, k: int) -> (n: int)
    requires
        0 <= g < gs.len(),
        0 <= k < gs[g].1.len(),
    ensures
        0 <= n < members(gs).len(),
        members(gs)[n] == gs[g].1[k],
    decreases gs.len(),
{
    let front = gs.drop_last();
    if g < front.len() {
        assert(front[g] == gs[g]);
        lemma_member_index(front, g, k)
    } else {
        members(front).len() + k
    }
}

/// Which group holds a connected instance, and where.
proof fn lemma_connected_is_grouped<S, W>(v: AppStateView<S, W>, key: (Seq<char>, Seq<char>)) -> (at: (int, int))
    requires
        v.valid(),
        v.instances.contains_key(key),
    ensures
        0 <= at.0 < v.groups().len(),
        0 <= at.1 < v.groups()[at.0].1.len(),
        v.groups()[at.0].1[at.1] == v.instances[key],
{
    law_every_instance_is_shown_once(v);
    let order = members(v.groups());
    let n = choose|n: int| 0 <= n < order.len() && order[n] == v.instances[key];
    lemma_member_place(v.groups(), n)
}

/// A key stands at one place of one group.
proof fn lemma_one_place<S, W>(v: AppStateView<S, W>, a: int, i: int, b: int, j: int)
    requires
        v.valid(),
        0 <= a < v.groups().len(),
        0 <= i < v.groups()[a].1.len(),
        0 <= b < v.groups().len(),
        0 <= j < v.groups()[b].1.len(),
        v.groups()[a].1[i].key() == v.groups()[b].1[j].key(),
    ensures
        a == b,
        i == j,
{
    law_every_instance_is_shown_once(v);
    lemma_grouped_is_connected(v, a, i);
    lemma_grouped_is_connected(v, b, j);
    let gs = v.groups();
    assert(gs[a].1[i] == gs[b].1[j]);
    if a < b {
        assert(text_before(gs[a].0, gs[b].0));
        lemma_text_before_total(gs[a].0, gs[b].0);
    } else if b < a {
        assert(text_before(gs[b].0, gs[a].0));
        lemma_text_before_total(gs[b].0, gs[a].0);
    } else {
        lemma_listed_before_total(gs[a].1[i], gs[a].1[i]);
        if i < j {
            assert(listed_before(gs[a].1[i], gs[a].1[j]));
        } else if j < i {
            assert(listed_before(gs[a].1[j], gs[a].1[i]));
        }
    }
}

/// A document whose apps and entries follow the groups shows the connected instances.
proof fn lemma_document_shows<S, W>(v: AppStateView<S, W>, document: JsonView)
    requires
        v.valid(),
        apps_in(document).len() == v.groups().len(),
        forall|a: int|
            0 <= a < v.groups().len() ==> {
                &&& (#[trigger] apps_in(document)[a]).field("app"@) == Some(JsonView::Str(v.groups()[a].0))
                &&& entries_in(document, a).len() == v.groups()[a].1.len()
            },
        forall|a: int, i: int|
            0 <= a < v.groups().len() && 0 <= i < v.groups()[a].1.len() ==> (#[trigger] entries_in(document, a)[i]).field(
                "instanceId"@,
            ) == Some(JsonView::Str(v.groups()[a].1[i].id)),
    ensures
        shows_exactly(document, v.instances.dom()),
{
    let gs = v.groups();
    law_every_instance_is_shown_once(v);
    assert forall|a: int, i: int| #[trigger] has_place(document, a, i) implies exists|key: (Seq<char>, Seq<char>)|
        #[trigger] v.instances.dom().contains(key) && names_key(document, a, i, key) by {
        let x = gs[a].1[i];
        assert(apps_in(document)[a].field("app"@) == Some(JsonView::Str(gs[a].0)));
        lemma_grouped_is_connected(v, a, i);
        assert(entries_in(document, a)[i].field("instanceId"@) == Some(JsonView::Str(x.id)));
        assert(v.instances.dom().contains(x.key()) && names_key(document, a, i, x.key()));
    }
    assert forall|key: (Seq<char>, Seq<char>)| #[trigger] v.instances.dom().contains(key) implies exists|
        a: int,
        i: int,
    | #[trigger] names_key(document, a, i, key) by {
        let (a, i) = lemma_connected_is_grouped(v, key);
        lemma_grouped_is_connected(v, a, i);
        assert(apps_in(document)[a].field("app"@) == Some(JsonView::Str(gs[a].0)));
        assert(entries_in(document, a)[i].field("instanceId"@) == Some(JsonView::Str(gs[a].1[i].id)));
        assert(names_key(document, a, i, key));
    }
    assert forall|a: int, i: int, b: int, j: int, key: (Seq<char>, Seq<char>)| #[trigger]
        names_key(document, a, i, key) && #[trigger] names_key(document, b, j, key) implies a == b && i == j by {
        assert(apps_in(document)[a].field("app"@) == Some(JsonView::Str(gs[a].0)));
        assert(apps_in(document)[b].field("app"@) == Some(JsonView::Str(gs[b].0)));
        assert(entries_in(document, a)[i].field("instanceId"@) == Some(JsonView::Str(gs[a].1[i].id)));
        assert(entries_in(document, b)[j].field("instanceId"@) == Some(JsonView::Str(gs[b].1[j].id)));
        lemma_grouped_is_connected(v, a, i);
        lemma_grouped_is_connected(v, b, j);
        lemma_one_place(v, a, i, b, j);
    }
    assert forall|a: int| 0 <= a < apps_in(document).len() implies (#[trigger] entries_in(document, a)).len() > 0 by {
        assert(apps_in(document)[a].field("app"@) == Some(JsonView::Str(gs[a].0)));
        assert(gs[a].1.len() > 0);
    }
}

proof fn lemma_status_follows<S, W>(v: AppStateView<S, W>)
    ensures
        ({
            let document = v.status_document();
            &&& apps_in(document).len() == v.groups().len()
            &&& forall|a: int|
                0 <= a < v.groups().len() ==> {
                    &&& #[trigger] apps_in(document)[a] == app_status(v.groups()[a])
                    &&& apps_in(document)[a].field("app"@) == Some(JsonView::Str(v.groups()[a].0))
                    &&& entries_in(document, a).len() == v.groups()[a].1.len()
                }
            &&& forall|a: int, i: int|
                0 <= a < v.groups().len() && 0 <= i < v.groups()[a].1.len() ==> #[trigger] entries_in(document, a)[i]
                    == instance_status(v.groups()[a].1[i])
        }),
{
    lemma_names_differ();
}

proof fn lemma_discovery_follows<S, W>(v: AppStateView<S, W>, base: Seq<char>)
    ensures
        ({
            let document = v.apps_document(base);
            &&& apps_in(document).len() == v.groups().len()
            &&& forall|a: int|
                0 <= a < v.groups().len() ==> {
                    &&& #[trigger] apps_in(document)[a] == app_json(base, v.groups()[a])
                    &&& apps_in(document)[a].field("app"@) == Some(JsonView::Str(v.groups()[a].0))
                    &&& entries_in(document, a).len() == v.groups()[a].1.len()
                }
            &&& forall|a: int, i: int|
                0 <= a < v.groups().len() && 0 <= i < v.groups()[a].1.len() ==> #[trigger] entries_in(document, a)[i]
                    == instance_json(base, v.groups()[a].1[i])
        }),
{
    lemma_names_differ();
}

/// The status snapshot shows the connected instances, each of them once, and whether and where the
/// server runs.
pub proof fn law_status_shows_every_instance<S, W>(v: AppStateView<S, W>)
    requires
        v.valid(),
    ensures
        shows_exactly(v.status_document(), v.instances.dom()),
        v.status_document().field("running"@) == Some(JsonView::Bool(v.port != 0)),
        v.status_document().field("port"@) == Some(JsonView::Int(v.port as int)),
        v.status_document().field("apps"@) is Some && v.status_document().field("apps"@)->0 is Array,
{
    lemma_names_differ();
    lemma_status_follows(v);
    lemma_document_shows(v, v.status_document());
}

/// The discovery document shows the connected instances, each of them once, and says what serves it
/// and where apps connect.
pub proof fn law_discovery_shows_every_instance<S, W>(v: AppStateView<S, W>, base: Seq<char>, rest: Seq<char>)
    requires
        v.valid(),
    ensures
        shows_exactly(v.apps_document(base), v.instances.dom()),
        v.apps_document(base).field("service"@) == Some(JsonView::Str("web-bridge"@)),
        v.apps_document(base).field("version"@) == Some(JsonView::Str(VERSION@)),
        base == "http"@ + rest ==> v.apps_document(base).field("connectUrl"@) == Some(
            JsonView::Str("ws"@ + rest + "/ws/app"@),
        ),
        v.apps_document(base).field("apps"@) is Some && v.apps_document(base).field("apps"@)->0 is Array,
{
    lemma_names_differ();
    lemma_discovery_follows(v, base);
    lemma_document_shows(v, v.apps_document(base));
    if base == "http"@ + rest {
        crate::text_laws::law_replaces_at_the_start("http"@, rest, "ws"@);
    }
}

/// What the documents show at the place of a key is what is held about the instance with that key.
pub proof fn law_documents_tell_of_the_instance<S, W>(
    v: AppStateView<S, W>,
    base: Seq<char>,
    key: (Seq<char>, Seq<char>),
    a: int,
    i: int,
)
    requires
        v.valid(),
    ensures
        names_key(v.status_document(), a, i, key) ==> v.instances.contains_key(key) && entries_in(
            v.status_document(),
            a,
        )[i] == instance_status(v.instances[key]),
        names_key(v.apps_document(base), a, i, key) ==> v.instances.contains_key(key) && entries_in(
            v.apps_document(base),
            a,
        )[i] == instance_json(base, v.instances[key]),
{
    lemma_names_differ();
    lemma_status_follows(v);
    lemma_discovery_follows(v, base);
    let gs = v.groups();
    if names_key(v.status_document(), a, i, key) {
        assert(apps_in(v.status_document())[a] == app_status(gs[a]));
        assert(entries_in(v.status_document(), a)[i] == instance_status(gs[a].1[i]));
        lemma_grouped_is_connected(v, a, i);
    }
    if names_key(v.apps_document(base), a, i, key) {
        assert(apps_in(v.apps_document(base))[a] == app_json(base, gs[a]));
        assert(entries_in(v.apps_document(base), a)[i] == instance_json(base, gs[a].1[i]));
        lemma_grouped_is_connected(v, a, i);
    }
}

/// Whether what a document says about an app comes from this instance.
pub open spec fn speaks_for<S, W>(app: JsonView, x: InstanceView<S, W>) -> bool {
    &&& app.field("app"@) == Some(JsonView::Str(x.app))
    &&& shows_text_or_null(app, "title"@, x.info.title)
    &&& shows_text_or_null(app, "description"@, x.info.description)
}

/// What the documents say about an app comes from the instance of it that connected last, by time
/// and then by number.
pub proof fn law_newest_instance_is_quoted<S, W>(v: AppStateView<S, W>, base: Seq<char>, a: int) -> (newest: (
    Seq<char>,
    Seq<char>,
))
    requires
        v.valid(),
        0 <= a < apps_in(v.status_document()).len(),
    ensures
        v.instances.contains_key(newest),
        speaks_for(apps_in(v.status_document())[a], v.instances[newest]),
        apps_in(v.apps_document(base)).len() == apps_in(v.status_document()).len(),
        speaks_for(apps_in(v.apps_document(base))[a], v.instances[newest]),
        shows_text_or_null(apps_in(v.apps_document(base))[a], "instructions"@, v.instances[newest].info.instructions),
        forall|key: (Seq<char>, Seq<char>)|
            #![trigger v.instances[key]]
            v.instances.contains_key(key) && key.0 == newest.0 && key != newest ==> v.instances[key].connected_at
                < v.instances[newest].connected_at || (v.instances[key].connected_at == v.instances[newest].connected_at
                && v.instances[key].conn_id < v.instances[newest].conn_id),
{
    lemma_names_differ();
    lemma_status_follows(v);
    lemma_discovery_follows(v, base);
    law_every_instance_is_shown_once(v);
    let gs = v.groups();
    assert(gs[a].1.len() > 0);
    let x = gs[a].1.last();
    lemma_grouped_is_connected(v, a, gs[a].1.len() - 1);
    assert(apps_in(v.status_document())[a] == app_status(gs[a]));
    assert(apps_in(v.apps_document(base))[a] == app_json(base, gs[a]));
    assert forall|key: (Seq<char>, Seq<char>)|
        #![trigger v.instances[key]]
        v.instances.contains_key(key) && key.0 == x.key().0 && key != x.key() implies v.instances[key].connected_at
        < x.connected_at || (v.instances[key].connected_at == x.connected_at && v.instances[key].conn_id < x.conn_id) by {
        law_newest_instance_speaks(v, a, key);
        assert(v.instances[key].key() == key);
    }
    x.key()
}

/// Apps are shown in the order of their names, and the instances of an app by the time of connection
/// and then by number.
pub proof fn law_documents_are_in_order<S, W>(
    v: AppStateView<S, W>,
    a: int,
    i: int,
    key: (Seq<char>, Seq<char>),
    b: int,
    j: int,
    other: (Seq<char>, Seq<char>),
)
    requires
        v.valid(),
        names_key(v.status_document(), a, i, key),
        names_key(v.status_document(), b, j, other),
        a < b || (a == b && i < j),
    ensures
        v.instances.contains_key(key) && v.instances.contains_key(other),
        a < b ==> text_before(key.0, other.0),
        a == b ==> key.0 == other.0,
        a == b ==> v.instances[key].connected_at < v.instances[other].connected_at || (v.instances[key].connected_at
            == v.instances[other].connected_at && v.instances[key].conn_id < v.instances[other].conn_id),
{
    lemma_names_differ();
    lemma_status_follows(v);
    law_every_instance_is_shown_once(v);
    let gs = v.groups();
    let document = v.status_document();
    assert(apps_in(document)[a] == app_status(gs[a]));
    assert(apps_in(document)[b] == app_status(gs[b]));
    assert(entries_in(document, a)[i] == instance_status(gs[a].1[i]));
    assert(entries_in(document, b)[j] == instance_status(gs[b].1[j]));
    lemma_grouped_is_connected(v, a, i);
    lemma_grouped_is_connected(v, b, j);
    if a < b {
        assert(text_before(gs[a].0, gs[b].0));
    } else {
        assert(listed_before(gs[a].1[i], gs[a].1[j]));
    }
}

/// Discovery and status show the same keys at the same places.
pub proof fn law_documents_agree<S, W>(
    v: AppStateView<S, W>,
    base: Seq<char>,
    a: int,
    i: int,
    key: (Seq<char>, Seq<char>),
)
    requires
        v.valid(),
    ensures
        names_key(v.status_document(), a, i, key) <==> names_key(v.apps_document(base), a, i, key),
{
    lemma_names_differ();
    lemma_status_follows(v);
    lemma_discovery_follows(v, base);
    let gs = v.groups();
    if 0 <= a < gs.len() {
        assert(apps_in(v.status_document())[a] == app_status(gs[a]));
        assert(apps_in(v.apps_document(base))[a] == app_json(base, gs[a]));
        if 0 <= i < gs[a].1.len() {
            assert(entries_in(v.status_document(), a)[i] == instance_status(gs[a].1[i]));
            assert(entries_in(v.apps_document(base), a)[i] == instance_json(base, gs[a].1[i]));
        }
    }
}

/// The bridge is reached on the port that it is bound to, in decimal.
pub proof fn law_base_url_holds_the_port<S, W>(v: AppStateView<S, W>, digits: Seq<char>)
    ensures
        v.base_url() == "http://localhost:"@ + digits && crate::text_laws::is_decimal(digits)
            ==> crate::text_laws::decimal_value(digits) == v.port,
        exists|d: Seq<char>| #[trigger] crate::text_laws::is_decimal(d) && v.base_url() == "http://localhost:"@ + d,
{
    let own = crate::text::decimal(v.port as nat);
    crate::text_laws::law_decimal_is_the_number(v.port as nat);
    let start = "http://localhost:"@;
    if v.base_url() == start + digits {
        assert((start + own).skip(start.len() as int) =~= own);
        assert((start + digits).skip(start.len() as int) =~= digits);
    }
    assert(crate::text_laws::is_decimal(own) && v.base_url() == start + own);
}

} // verus!
