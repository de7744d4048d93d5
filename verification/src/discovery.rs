//! The documents that say who is connected.

use crate::discovery_laws::{law_discovery_shows_every_instance, law_status_shows_every_instance, shows_exactly};
use crate::json::{Fields, Json, JsonView};
use crate::registry::{row_entries, AppState, AppStateView, Instance, InstanceView};
use crate::table::{distinct_keys, has_key, keyed, lemma_keyed_at};
use crate::text::{
    decimal, decimal_text, is_text_before, lemma_text_before_total, lemma_text_before_transitive, replace_first,
    same_text, text_before, with_first_replaced,
};
use vstd::prelude::*;

verus! {

/// The version that the bridge gives of itself.
pub const VERSION: &'static str = "0.1.0";

/// The order in which instances are listed: by app, then by the time of connection, then by the
/// number of the connection.
pub open spec fn listed_before<S, W>(a: InstanceView<S, W>, b: InstanceView<S, W>) -> bool {
    if a.app != b.app {
        text_before(a.app, b.app)
    } else if a.connected_at != b.connected_at {
        a.connected_at < b.connected_at
    } else {
        a.conn_id < b.conn_id
    }
}

/// Whether every instance of a list stands before all that follow it.
pub open spec fn in_listed_order<S, W>(order: Seq<InstanceView<S, W>>) -> bool {
    forall|i: int, j: int| 0 <= i < j < order.len() ==> listed_before(#[trigger] order[i], #[trigger] order[j])
}

/// Whether a list holds each connected instance once, in the order in which they are listed.
pub open spec fn lists<S, W>(
    order: Seq<InstanceView<S, W>>,
    instances: Map<(Seq<char>, Seq<char>), InstanceView<S, W>>,
) -> bool {
    &&& in_listed_order(order)
    &&& forall|i: int|
        0 <= i < order.len() ==> instances.contains_key((#[trigger] order[i]).key()) && instances[order[i].key()]
            == order[i]
    &&& forall|key: (Seq<char>, Seq<char>)| #[trigger]
        instances.contains_key(key) ==> order.contains(instances[key])
}

/// The connected instances in the order in which they are listed.
pub open spec fn listing<S, W>(instances: Map<(Seq<char>, Seq<char>), InstanceView<S, W>>) -> Seq<
    InstanceView<S, W>,
> {
    choose|order: Seq<InstanceView<S, W>>| lists(order, instances)
}

/// A list cut where the app changes, each piece under the name of its app.
pub open spec fn groups<S, W>(order: Seq<InstanceView<S, W>>) -> Seq<(Seq<char>, Seq<InstanceView<S, W>>)>
    decreases order.len(),
{
    if order.len() == 0 {
        Seq::empty()
    } else {
        let front = groups(order.drop_last());
        let last = order.last();
        if front.len() > 0 && front.last().0 == last.app {
            front.drop_last().push((last.app, front.last().1.push(last)))
        } else {
            front.push((last.app, seq![last]))
        }
    }
}

pub(crate) proof fn lemma_listed_before_total<S, W>(a: InstanceView<S, W>, b: InstanceView<S, W>)
    ensures
        !listed_before(a, a),
        listed_before(a, b) ==> !listed_before(b, a),
        a.conn_id != b.conn_id ==> listed_before(a, b) || listed_before(b, a),
{
    lemma_text_before_total(a.app, b.app);
}

proof fn lemma_listed_before_transitive<S, W>(
    a: InstanceView<S, W>,
    b: InstanceView<S, W>,
    c: InstanceView<S, W>,
)
    requires
        listed_before(a, b),
        listed_before(b, c),
    ensures
        listed_before(a, c),
{
    if a.app != b.app && b.app != c.app {
        lemma_text_before_transitive(a.app, b.app, c.app);
        if a.app == c.app {
            lemma_text_before_total(a.app, b.app);
        }
    }
}

/// An instance that is put between those before it and those after it keeps a list in order.
proof fn lemma_insert_keeps_order<S, W>(order: Seq<InstanceView<S, W>>, at: int, x: InstanceView<S, W>)
    requires
        in_listed_order(order),
        0 <= at <= order.len(),
        forall|i: int| 0 <= i < at ==> listed_before(#[trigger] order[i], x),
        forall|i: int| at <= i < order.len() ==> listed_before(x, #[trigger] order[i]),
    ensures
        in_listed_order(order.insert(at, x)),
{
    let more = order.insert(at, x);
    assert forall|i: int, j: int| 0 <= i < j < more.len() implies listed_before(
        #[trigger] more[i],
        #[trigger] more[j],
    ) by {
        if i != at && j != at {
            let a = if i < at {
                i
            } else {
                i - 1
            };
            let b = if j < at {
                j
            } else {
                j - 1
            };
            assert(listed_before(order[a], order[b]));
        } else if i == at {
            assert(more[j] == order[j - 1]);
        }
    }
}

/// Where an instance belongs in a list that is in order.
proof fn lemma_place<S, W>(order: Seq<InstanceView<S, W>>, x: InstanceView<S, W>) -> (at: int)
    requires
        in_listed_order(order),
        forall|i: int| 0 <= i < order.len() ==> (#[trigger] order[i]).conn_id != x.conn_id,
    ensures
        0 <= at <= order.len(),
        forall|i: int| 0 <= i < at ==> listed_before(#[trigger] order[i], x),
        forall|i: int| at <= i < order.len() ==> listed_before(x, #[trigger] order[i]),
    decreases order.len(),
{
    if order.len() == 0 {
        0
    } else {
        let front = order.drop_last();
        let last = order.last();
        lemma_listed_before_total(x, last);
        assert(last == order[order.len() - 1]);
        if listed_before(last, x) {
            assert forall|i: int| 0 <= i < order.len() implies listed_before(#[trigger] order[i], x) by {
                if i < order.len() - 1 {
                    assert(listed_before(order[i], order[order.len() - 1]));
                    lemma_listed_before_transitive(order[i], last, x);
                }
            }
            order.len() as int
        } else {
            assert forall|i: int, j: int| 0 <= i < j < front.len() implies listed_before(
                #[trigger] front[i],
                #[trigger] front[j],
            ) by {
                assert(listed_before(order[i], order[j]));
            }
            assert forall|i: int| 0 <= i < front.len() implies (#[trigger] front[i]).conn_id != x.conn_id by {
                assert(front[i] == order[i]);
            }
            let at = lemma_place(front, x);
            assert forall|i: int| 0 <= i < at implies listed_before(#[trigger] order[i], x) by {
                assert(front[i] == order[i]);
            }
            assert forall|i: int| at <= i < order.len() implies listed_before(x, #[trigger] order[i]) by {
                if i < front.len() {
                    assert(front[i] == order[i]);
                }
            }
            at
        }
    }
}

proof fn lemma_lists_agree<S, W>(
    a: Seq<InstanceView<S, W>>,
    b: Seq<InstanceView<S, W>>,
    instances: Map<(Seq<char>, Seq<char>), InstanceView<S, W>>,
    i: int,
)
    requires
        lists(a, instances),
        lists(b, instances),
        0 <= i < a.len(),
        forall|k: int| 0 <= k < i ==> k < b.len() && a[k] == b[k],
    ensures
        i < b.len(),
        a[i] == b[i],
{
    assert(instances.contains_key(a[i].key()));
    assert(b.contains(a[i]));
    let j = choose|j: int| 0 <= j < b.len() && b[j] == a[i];
    lemma_listed_before_total(a[i], a[i]);
    if j < i {
        assert(a[j] == b[j]);
        assert(listed_before(a[j], a[i]));
    }
    assert(i <= j);
    if i < j {
        assert(instances.contains_key(b[i].key()));
        assert(a.contains(b[i]));
        let k = choose|k: int| 0 <= k < a.len() && a[k] == b[i];
        assert(listed_before(b[i], b[j]));
        lemma_listed_before_total(b[i], b[j]);
        if k < i {
            assert(b[k] == a[k]);
            assert(listed_before(b[k], b[i]));
        } else if k > i {
            assert(listed_before(a[i], a[k]));
        }
    }
}

/// The order in which instances are listed leaves no choice: two lists of the same instances are
/// the same list.
pub proof fn law_listing_is_unique<S, W>(
    a: Seq<InstanceView<S, W>>,
    b: Seq<InstanceView<S, W>>,
    instances: Map<(Seq<char>, Seq<char>), InstanceView<S, W>>,
)
    requires
        lists(a, instances),
        lists(b, instances),
    ensures
        a == b,
{
    lemma_common_prefix(a, b, instances, a.len());
    lemma_common_prefix(b, a, instances, b.len());
    assert(a =~= b);
}

proof fn lemma_common_prefix<S, W>(
    a: Seq<InstanceView<S, W>>,
    b: Seq<InstanceView<S, W>>,
    instances: Map<(Seq<char>, Seq<char>), InstanceView<S, W>>,
    n: nat,
)
    requires
        lists(a, instances),
        lists(b, instances),
        n <= a.len(),
    ensures
        forall|k: int| 0 <= k < n ==> k < b.len() && a[k] == b[k],
        n <= b.len(),
    decreases n,
{
    if n > 0 {
        lemma_common_prefix(a, b, instances, (n - 1) as nat);
        lemma_lists_agree(a, b, instances, n - 1);
    }
}

/// The instances of a state, some of them taken away, can be listed.
proof fn lemma_listable<S, W>(instances: Map<(Seq<char>, Seq<char>), InstanceView<S, W>>) -> (order: Seq<
    InstanceView<S, W>,
>)
    requires
        instances.dom().finite(),
        forall|key: (Seq<char>, Seq<char>)| #[trigger] instances.contains_key(key) ==> instances[key].key() == key,
        forall|a: (Seq<char>, Seq<char>), b: (Seq<char>, Seq<char>)|
            #![trigger instances[a], instances[b]]
            instances.contains_key(a) && instances.contains_key(b) && a != b ==> instances[a].conn_id
                != instances[b].conn_id,
    ensures
        lists(order, instances),
    decreases instances.dom().len(),
{
    if instances.dom().len() == 0 {
        assert(forall|key: (Seq<char>, Seq<char>)| !#[trigger] instances.dom().contains(key)) by {
            assert(instances.dom() =~= Set::empty());
        }
        Seq::empty()
    } else {
        let key = instances.dom().choose();
        assert(instances.contains_key(key)) by {
            vstd::set::axiom_set_choose_len(instances.dom());
        }
        let x = instances[key];
        let rest = instances.remove(key);
        let order = lemma_listable(rest);
        assert forall|i: int| 0 <= i < order.len() implies (#[trigger] order[i]).conn_id != x.conn_id by {
            assert(rest.contains_key(order[i].key()));
            assert(instances[order[i].key()].conn_id != instances[key].conn_id);
        }
        let at = lemma_place(order, x);
        lemma_insert_keeps_order(order, at, x);
        let more = order.insert(at, x);
        assert(more[at] == x);
        assert forall|i: int| 0 <= i < more.len() implies instances.contains_key((#[trigger] more[i]).key())
            && instances[more[i].key()] == more[i] by {
            if i != at {
                let a = if i < at {
                    i
                } else {
                    i - 1
                };
                assert(more[i] == order[a]);
                assert(rest.contains_key(order[a].key()));
            }
        }
        assert forall|k: (Seq<char>, Seq<char>)| #[trigger] instances.contains_key(k) implies more.contains(
            instances[k],
        ) by {
            if k != key {
                assert(rest.contains_key(k));
                let i = choose|i: int| 0 <= i < order.len() && order[i] == rest[k];
                if i < at {
                    assert(more[i] == rest[k]);
                } else {
                    assert(more[i + 1] == rest[k]);
                }
            }
        }
        more
    }
}

/// Every connected instance is listed, once and in order.
pub proof fn law_listing_is_complete<S, W>(v: AppStateView<S, W>)
    requires
        v.valid(),
    ensures
        lists(listing(v.instances), v.instances),
{
    let order = lemma_listable(v.instances);
    assert(lists(order, v.instances));
}

/// The members of all groups, one group after the other.
pub open spec fn members<S, W>(gs: Seq<(Seq<char>, Seq<InstanceView<S, W>>)>) -> Seq<InstanceView<S, W>>
    decreases gs.len(),
{
    if gs.len() == 0 {
        Seq::empty()
    } else {
        members(gs.drop_last()) + gs.last().1
    }
}

/// Whether a list is cut into groups rightly: the groups hold what the list holds, in its order;
/// no group is empty; a group holds instances of one app, in order; and the apps stand in order, so
/// that none has two groups.
pub open spec fn groups_rightly<S, W>(
    gs: Seq<(Seq<char>, Seq<InstanceView<S, W>>)>,
    order: Seq<InstanceView<S, W>>,
) -> bool {
    &&& members(gs) == order
    &&& forall|g: int| 0 <= g < gs.len() ==> (#[trigger] gs[g]).1.len() > 0
    &&& forall|g: int| 0 <= g < gs.len() ==> in_listed_order((#[trigger] gs[g]).1)
    &&& forall|g: int, k: int|
        0 <= g < gs.len() && 0 <= k < gs[g].1.len() ==> (#[trigger] gs[g].1[k]).app == gs[g].0
    &&& forall|g: int, h: int| 0 <= g < h < gs.len() ==> text_before((#[trigger] gs[g]).0, (#[trigger] gs[h]).0)
}

proof fn lemma_groups<S, W>(order: Seq<InstanceView<S, W>>)
    requires
        in_listed_order(order),
    ensures
        groups_rightly(groups(order), order),
    decreases order.len(),
{
    let gs = groups(order);
    if order.len() == 0 {
        assert(members(gs) =~= order);
    } else {
        let before = order.drop_last();
        let last = order.last();
        assert(in_listed_order(before)) by {
            assert forall|i: int, j: int| 0 <= i < j < before.len() implies listed_before(
                #[trigger] before[i],
                #[trigger] before[j],
            ) by {
                assert(listed_before(order[i], order[j]));
            }
        }
        lemma_groups(before);
        let front = groups(before);
        assert(gs.drop_last() =~= if front.len() > 0 && front.last().0 == last.app {
            front.drop_last()
        } else {
            front
        });
        assert(members(gs) =~= order) by {
            assert(order =~= before.push(last));
        }
        if front.len() > 0 {
            let other = front.last().1.last();
            assert(other.app == front.last().0) by {
                let g = front.len() - 1;
                assert(front[g].1[front[g].1.len() - 1].app == front[g].0);
            }
            assert(before.last() == other) by {
                assert(members(front) == members(front.drop_last()) + front.last().1);
            }
            assert(listed_before(order[before.len() - 1], order[order.len() - 1]));
            assert(front.last().0 != last.app ==> text_before(front.last().0, last.app));
        }
        assert forall|g: int| 0 <= g < gs.len() implies in_listed_order((#[trigger] gs[g]).1) by {
            if g < front.len() {
                assert(in_listed_order(front[g].1));
            }
            if g == front.len() - 1 && front.last().0 == last.app {
                let off = members(front.drop_last()).len() as int;
                let group = front.last().1;
                assert(gs[g].1 == group.push(last));
                assert forall|i: int, j: int| 0 <= i < j < group.push(last).len() implies listed_before(
                    #[trigger] group.push(last)[i],
                    #[trigger] group.push(last)[j],
                ) by {
                    if j < group.len() {
                        assert(listed_before(group[i], group[j]));
                    } else {
                        assert(before[off + i] == group[i]);
                        assert(listed_before(order[off + i], order[order.len() - 1]));
                    }
                }
            }
        }
        assert forall|g: int, k: int| 0 <= g < gs.len() && 0 <= k < gs[g].1.len() implies (
        #[trigger] gs[g].1[k]).app == gs[g].0 by {
            if g < front.len() && k < front[g].1.len() {
                assert(front[g].1[k].app == front[g].0);
            }
        }
        assert forall|g: int| 0 <= g < gs.len() implies (#[trigger] gs[g]).1.len() > 0 by {
            if g < front.len() {
                assert(front[g].1.len() > 0);
            }
        }
        assert forall|g: int, h: int| 0 <= g < h < gs.len() implies text_before(
            (#[trigger] gs[g]).0,
            (#[trigger] gs[h]).0,
        ) by {
            assert(gs[g].0 == front[g].0);
            if h < front.len() {
                assert(text_before(front[g].0, front[h].0));
            } else if g < front.len() - 1 {
                assert(text_before(front[g].0, front[front.len() - 1].0));
                lemma_text_before_transitive(front[g].0, front.last().0, last.app);
            }
        }
    }
}

/// Discovery and status show every connected instance once: the groups hold, one after the other,
/// what is listed, and every app has one group.
pub proof fn law_every_instance_is_shown_once<S, W>(v: AppStateView<S, W>)
    requires
        v.valid(),
    ensures
        groups_rightly(v.groups(), listing(v.instances)),
        lists(members(v.groups()), v.instances),
{
    law_listing_is_complete(v);
    lemma_groups(listing(v.instances));
}

/// What is said about an app comes from the instance of it that connected last.
pub proof fn law_newest_instance_speaks<S, W>(v: AppStateView<S, W>, g: int, key: (Seq<char>, Seq<char>))
    requires
        v.valid(),
        0 <= g < v.groups().len(),
        v.instances.contains_key(key),
        key.0 == v.groups()[g].0,
    ensures
        ({
            let newest = v.groups()[g].1.last();
            &&& newest.app == key.0
            &&& v.instances[key] == newest || listed_before(v.instances[key], newest)
        }),
{
    law_every_instance_is_shown_once(v);
    let gs = v.groups();
    let order = listing(v.instances);
    let newest = gs[g].1.last();
    assert(gs[g].1[gs[g].1.len() - 1].app == gs[g].0);
    let i = choose|i: int| 0 <= i < order.len() && order[i] == v.instances[key];
    let (h, k) = lemma_member_place(gs, i);
    assert(gs[h].1[k].app == gs[h].0);
    if h < g {
        assert(text_before(gs[h].0, gs[g].0));
        lemma_text_before_total(gs[h].0, gs[g].0);
    } else if g < h {
        assert(text_before(gs[g].0, gs[h].0));
        lemma_text_before_total(gs[g].0, gs[h].0);
    }
    if k < gs[g].1.len() - 1 {
        assert(in_listed_order(gs[g].1));
        assert(listed_before(gs[g].1[k], gs[g].1[gs[g].1.len() - 1]));
    }
}

/// Which group holds a member, and where.
pub(crate) proof fn lemma_member_place<S, W>(gs: Seq<(Seq<char>, Seq<InstanceView<S, W>>)>, i: int) -> (at: (int, int))
    requires
        0 <= i < members(gs).len(),
    ensures
        0 <= at.0 < gs.len(),
        0 <= at.1 < gs[at.0].1.len(),
        gs[at.0].1[at.1] == members(gs)[i],
    decreases gs.len(),
{
    let front = members(gs.drop_last());
    if i < front.len() {
        lemma_member_place(gs.drop_last(), i)
    } else {
        (gs.len() - 1, i - front.len())
    }
}

/// Instances by reference, and what they hold.
pub open spec fn refs_view<S, W>(refs: Seq<&Instance<S, W>>) -> Seq<InstanceView<S, W>> {
    refs.map_values(|r: &Instance<S, W>| r@)
}

fn is_listed_before<S, W>(a: &Instance<S, W>, b: &Instance<S, W>) -> (before: bool)
    ensures
        before == listed_before(a@, b@),
{
    if !same_text(a.app.as_str(), b.app.as_str()) {
        is_text_before(a.app.as_str(), b.app.as_str())
    } else if a.connected_at != b.connected_at {
        a.connected_at < b.connected_at
    } else {
        a.conn_id < b.conn_id
    }
}

/// Puts an instance where it belongs in a list that is in order.
fn insert_in_order<'a, S, W>(order: &mut Vec<&'a Instance<S, W>>, instance: &'a Instance<S, W>)
    requires
        in_listed_order(refs_view(old(order)@)),
        forall|i: int|
            0 <= i < old(order)@.len() ==> (#[trigger] refs_view(old(order)@)[i]).conn_id != instance@.conn_id,
    ensures
        exists|at: int|
            0 <= at <= old(order)@.len() && refs_view(final(order)@) == #[trigger] refs_view(old(order)@).insert(
                at,
                instance@,
            ),
        in_listed_order(refs_view(final(order)@)),
{
    let ghost all = refs_view(order@);
    let mut at: usize = 0;
    while at < order.len() && !is_listed_before(instance, order[at])
        invariant
            all == refs_view(order@),
            in_listed_order(all),
            at <= order@.len(),
            forall|i: int| 0 <= i < order@.len() ==> (#[trigger] all[i]).conn_id != instance@.conn_id,
            forall|i: int| 0 <= i < at ==> listed_before(#[trigger] all[i], instance@),
        decreases order@.len() - at,
    {
        proof {
            lemma_listed_before_total(instance@, all[at as int]);
        }
        at = at + 1;
    }
    order.insert(at, instance);
    proof {
        assert(refs_view(order@) =~= all.insert(at as int, instance@));
        assert forall|i: int| at <= i < all.len() implies listed_before(instance@, #[trigger] all[i]) by {
            if at < i {
                assert(listed_before(all[at as int], all[i]));
                lemma_listed_before_transitive(instance@, all[at as int], all[i]);
            }
        }
        lemma_insert_keeps_order(all, at as int, instance@);
    }
}

spec fn among<S, W>(
    entries: Seq<((Seq<char>, Seq<char>), InstanceView<S, W>)>,
    instance: InstanceView<S, W>,
) -> bool {
    exists|k: int| 0 <= k < entries.len() && (#[trigger] entries[k]).1 == instance
}

impl<S, W> AppState<S, W> {
    /// The connected instances in the order in which they are listed.
    fn in_order(&self) -> (order: Vec<&Instance<S, W>>)
        requires
            self.wf(),
        ensures
            refs_view(order@) == listing(self@.instances),
    {
        let rows = self.instances();
        let ghost all = row_entries(rows@);
        let mut order: Vec<&Instance<S, W>> = Vec::new();
        for n in 0..rows.len()
            invariant
                self.wf(),
                all == row_entries(rows@),
                distinct_keys(all),
                keyed(all) == self@.instances,
                in_listed_order(refs_view(order@)),
                forall|i: int| 0 <= i < order@.len() ==> among(all.take(n as int), #[trigger] refs_view(order@)[i]),
                forall|k: int| 0 <= k < n ==> refs_view(order@).contains((#[trigger] all[k]).1),
        {
            let ghost before = refs_view(order@);
            proof {
                assert(all[n as int] == (rows@[n as int]@.key(), rows@[n as int]@));
                lemma_keyed_at(all, n as int);
                assert forall|i: int| 0 <= i < order@.len() implies (#[trigger] before[i]).conn_id
                    != rows@[n as int]@.conn_id by {
                    let k = choose|k: int| 0 <= k < n && (#[trigger] all.take(n as int)[k]).1 == before[i];
                    assert(all.take(n as int)[k] == all[k]);
                    lemma_keyed_at(all, k);
                    assert(all[k].0 != all[n as int].0);
                    assert(self@.instances[all[k].0].conn_id != self@.instances[all[n as int].0].conn_id);
                }
            }
            insert_in_order(&mut order, &rows[n]);
            proof {
                let more = refs_view(order@);
                let at = choose|at: int| 0 <= at <= before.len() && more == #[trigger] before.insert(at, rows@[n as int]@);
                assert(more.len() == before.len() + 1);
                assert(more[at] == all[n as int].1);
                assert forall|i: int| at < i < more.len() implies #[trigger] more[i] == before[i - 1] by {}
                assert forall|i: int| 0 <= i < order@.len() implies among(all.take(n + 1), #[trigger] more[i]) by {
                    if i == at {
                        assert(all.take(n + 1)[n as int].1 == more[i]);
                    } else {
                        let old_i = if i < at {
                            i
                        } else {
                            i - 1
                        };
                        assert(more[i] == before[old_i]);
                        let k = choose|k: int| 0 <= k < n && (#[trigger] all.take(n as int)[k]).1 == before[old_i];
                        assert(all.take(n + 1)[k] == all.take(n as int)[k]);
                    }
                }
                assert forall|k: int| 0 <= k < n + 1 implies more.contains((#[trigger] all[k]).1) by {
                    if k < n {
                        let i = choose|i: int| 0 <= i < before.len() && before[i] == all[k].1;
                        if i < at {
                            assert(more[i] == before[i]);
                        } else {
                            assert(more[i + 1] == before[i]);
                        }
                    }
                }
            }
        }
        proof {
            let o = refs_view(order@);
            assert forall|i: int| 0 <= i < o.len() implies self@.instances.contains_key((#[trigger] o[i]).key())
                && self@.instances[o[i].key()] == o[i] by {
                let k = choose|k: int| 0 <= k < all.len() && (#[trigger] all.take(all.len() as int)[k]).1 == o[i];
                assert(all.take(all.len() as int)[k] == all[k]);
                lemma_keyed_at(all, k);
                assert(all[k].0 == rows@[k]@.key());
            }
            assert forall|key: (Seq<char>, Seq<char>)| #[trigger] self@.instances.contains_key(key) implies o.contains(
                self@.instances[key],
            ) by {
                assert(has_key(all, key));
                let k = choose|k: int| 0 <= k < all.len() && (#[trigger] all[k]).0 == key;
                lemma_keyed_at(all, k);
            }
            assert(lists(o, self@.instances));
            law_listing_is_unique(o, listing(self@.instances), self@.instances);
        }
        order
    }
}

/// A group of instances, by reference, and what it holds.
pub open spec fn group_view<S, W>(group: (String, Vec<&Instance<S, W>>)) -> (Seq<char>, Seq<InstanceView<S, W>>) {
    (group.0@, refs_view(group.1@))
}

/// Groups of instances, by reference, and what they hold.
pub open spec fn groups_view<S, W>(gs: Seq<(String, Vec<&Instance<S, W>>)>) -> Seq<
    (Seq<char>, Seq<InstanceView<S, W>>),
> {
    gs.map_values(|g: (String, Vec<&Instance<S, W>>)| group_view(g))
}

proof fn lemma_groups_take<S, W>(order: Seq<InstanceView<S, W>>, n: int)
    requires
        0 <= n < order.len(),
    ensures
        groups(order.take(n + 1)) == ({
            let front = groups(order.take(n));
            let last = order[n];
            if front.len() > 0 && front.last().0 == last.app {
                front.drop_last().push((last.app, front.last().1.push(last)))
            } else {
                front.push((last.app, seq![last]))
            }
        }),
{
    assert(order.take(n + 1).drop_last() =~= order.take(n));
}

impl<S, W> AppState<S, W> {
    /// Every connected instance, grouped by app, in the order in which they are listed.
    pub fn grouped(&self) -> (gs: Vec<(String, Vec<&Instance<S, W>>)>)
        requires
            self.wf(),
        ensures
            groups_view(gs@) == groups(listing(self@.instances)),
    {
        let order = self.in_order();
        let ghost all = refs_view(order@);
        let mut gs: Vec<(String, Vec<&Instance<S, W>>)> = Vec::new();
        for n in 0..order.len()
            invariant
                all == refs_view(order@),
                groups_view(gs@) == groups(all.take(n as int)),
        {
            let instance: &Instance<S, W> = order[n];
            let ghost before = gs@;
            proof {
                lemma_groups_take(all, n as int);
            }
            let joins = match gs.last() {
                Some(g) => same_text(g.0.as_str(), instance.app.as_str()),
                None => false,
            };
            assert(joins == (groups_view(before).len() > 0 && groups_view(before).last().0 == instance@.app));
            if joins {
                if let Some(mut g) = gs.pop() {
                    let ghost members = g.1@;
                    g.1.push(instance);
                    proof {
                        assert(refs_view(g.1@) =~= refs_view(members).push(instance@));
                    }
                    gs.push(g);
                    assert(groups_view(gs@) =~= groups(all.take(n + 1)));
                }
            } else {
                let mut members: Vec<&Instance<S, W>> = Vec::new();
                members.push(instance);
                assert(refs_view(members@) =~= seq![instance@]);
                gs.push((instance.app.clone(), members));
                assert(groups_view(gs@) =~= groups(all.take(n + 1)));
            }
        }
        assert(all.take(all.len() as int) =~= all);
        gs
    }
}

/// The name and the description of a tool.
pub open spec fn tool_summary_json(tool: JsonView) -> JsonView {
    JsonView::Object(
        map![
            "name"@ => crate::json::value_or_null(tool.field("name"@)),
            "description"@ => crate::json::value_or_null(tool.field("description"@)),
        ],
    )
}

/// The tools of a catalog.
pub open spec fn catalog_items(catalog: JsonView) -> Seq<JsonView> {
    match catalog {
        JsonView::Array(items) => items,
        _ => Seq::empty(),
    }
}

/// Where an instance is exposed.
pub open spec fn instance_url(base: Seq<char>, app: Seq<char>, id: Seq<char>) -> Seq<char> {
    base + "/"@ + app + "/"@ + id
}

/// An instance in the discovery document.
pub open spec fn instance_json<S, W>(base: Seq<char>, i: InstanceView<S, W>) -> JsonView {
    let url = instance_url(base, i.app, i.id);
    JsonView::Object(
        map![
            "instanceId"@ => JsonView::Str(i.id),
            "label"@ => crate::json::text_or_null(i.info.label),
            "connectedAt"@ => JsonView::Int(i.connected_at as int),
            "mcpUrl"@ => JsonView::Str(url + "/mcp"@),
            "apiUrl"@ => JsonView::Str(url + "/api"@),
            "toolsUrl"@ => JsonView::Str(url + "/tools"@),
            "tools"@ => JsonView::Array(catalog_items(i.info.tools).map_values(|t: JsonView| tool_summary_json(t))),
        ],
    )
}

/// An app in the discovery document. What is said about the app comes from the instance that
/// connected last.
pub open spec fn app_json<S, W>(base: Seq<char>, group: (Seq<char>, Seq<InstanceView<S, W>>)) -> JsonView {
    let latest = group.1.last().info;
    JsonView::Object(
        map![
            "app"@ => JsonView::Str(group.0),
            "title"@ => crate::json::text_or_null(latest.title),
            "description"@ => crate::json::text_or_null(latest.description),
            "instructions"@ => crate::json::text_or_null(latest.instructions),
            "instances"@ => JsonView::Array(group.1.map_values(|i: InstanceView<S, W>| instance_json(base, i))),
        ],
    )
}

/// An instance in the status snapshot.
pub open spec fn instance_status<S, W>(i: InstanceView<S, W>) -> JsonView {
    JsonView::Object(
        map![
            "instanceId"@ => JsonView::Str(i.id),
            "label"@ => crate::json::text_or_null(i.info.label),
            "connectedAt"@ => JsonView::Int(i.connected_at as int),
            "toolCount"@ => JsonView::Int(catalog_items(i.info.tools).len() as int),
        ],
    )
}

/// An app in the status snapshot.
pub open spec fn app_status<S, W>(group: (Seq<char>, Seq<InstanceView<S, W>>)) -> JsonView {
    let latest = group.1.last().info;
    JsonView::Object(
        map![
            "app"@ => JsonView::Str(group.0),
            "title"@ => crate::json::text_or_null(latest.title),
            "description"@ => crate::json::text_or_null(latest.description),
            "instances"@ => JsonView::Array(group.1.map_values(|i: InstanceView<S, W>| instance_status(i))),
        ],
    )
}

impl<S, W> AppStateView<S, W> {
    /// The connected instances, grouped by app.
    pub open spec fn groups(self) -> Seq<(Seq<char>, Seq<InstanceView<S, W>>)> {
        groups(listing(self.instances))
    }

    /// The discovery document.
    pub open spec fn apps_document(self, base: Seq<char>) -> JsonView {
        JsonView::Object(
            map![
                "service"@ => JsonView::Str("web-bridge"@),
                "version"@ => JsonView::Str(VERSION@),
                "connectUrl"@ => JsonView::Str(replace_first(base, "http"@, "ws"@) + "/ws/app"@),
                "apps"@ => JsonView::Array(
                    self.groups().map_values(|g: (Seq<char>, Seq<InstanceView<S, W>>)| app_json(base, g))),
            ],
        )
    }

    /// The status snapshot.
    pub open spec fn status_document(self) -> JsonView {
        JsonView::Object(
            map![
                "running"@ => JsonView::Bool(self.port != 0),
                "port"@ => JsonView::Int(self.port as int),
                "apps"@ => JsonView::Array(
                    self.groups().map_values(|g: (Seq<char>, Seq<InstanceView<S, W>>)| app_status(g))),
            ],
        )
    }

    /// Where the bridge is reached.
    pub open spec fn base_url(self) -> Seq<char> {
        "http://localhost:"@ + decimal(self.port as nat)
    }
}

/// Discovery lists the names and descriptions of tools; their input schemas stand in the full
/// catalog.
pub fn tool_summary(tool: &Json) -> (summary: Json)
    ensures
        summary@ == tool_summary_json(tool@),
{
    Fields::new().put("name", Json::value_or_null(tool.get("name"))).put(
        "description",
        Json::value_or_null(tool.get("description")),
    ).into_json()
}

fn tool_summaries(catalog: &Json) -> (summaries: Json)
    ensures
        summaries@ == JsonView::Array(catalog_items(catalog@).map_values(|t: JsonView| tool_summary_json(t))),
{
    let mut out: Vec<Json> = Vec::new();
    let ghost wanted = catalog_items(catalog@).map_values(|t: JsonView| tool_summary_json(t));
    match catalog {
        Json::Array(items) => {
            let ghost views = crate::json::items_view(items@);
            for i in 0..items.len()
                invariant
                    views == crate::json::items_view(items@),
                    out@.len() == i,
                    forall|k: int|
                        0 <= k < i ==> crate::json::json_view(#[trigger] out@[k]) == tool_summary_json(views[k]),
            {
                assert(views[i as int] == items@[i as int]@);
                out.push(tool_summary(&items[i]));
            }
        },
        _ => {},
    }
    assert(crate::json::items_view(out@) =~= wanted);
    Json::Array(out)
}

fn tool_count(catalog: &Json) -> (n: usize)
    ensures
        n == catalog_items(catalog@).len(),
{
    match catalog {
        Json::Array(items) => items.len(),
        _ => 0,
    }
}

/// Where an instance is exposed.
pub fn instance_url_text(base: &str, app: &str, id: &str) -> (url: String)
    ensures
        url@ == instance_url(base@, app@, id@),
{
    base.to_owned().concat("/").concat(app).concat("/").concat(id)
}

fn instance_entry<S, W>(base: &str, i: &Instance<S, W>) -> (j: Json)
    ensures
        j@ == instance_json(base@, i@),
{
    let url = instance_url_text(base, i.app.as_str(), i.id.as_str());
    let fields = Fields::new().put("instanceId", Json::text(i.id.as_str())).put(
        "label",
        Json::text_or_null(&i.info.label),
    ).put("connectedAt", Json::Unsigned(i.connected_at)).put(
        "mcpUrl",
        Json::text(url.clone().concat("/mcp").as_str()),
    ).put("apiUrl", Json::text(url.clone().concat("/api").as_str())).put(
        "toolsUrl",
        Json::text(url.concat("/tools").as_str()),
    ).put("tools", tool_summaries(&i.info.tools));
    fields.into_json()
}

fn status_entry<S, W>(i: &Instance<S, W>) -> (j: Json)
    ensures
        j@ == instance_status(i@),
{
    Fields::new().put("instanceId", Json::text(i.id.as_str())).put("label", Json::text_or_null(&i.info.label)).put(
        "connectedAt",
        Json::Unsigned(i.connected_at),
    ).put("toolCount", Json::Unsigned(tool_count(&i.info.tools) as u64)).into_json()
}

fn app_entry<S, W>(base: &str, group: &(String, Vec<&Instance<S, W>>)) -> (j: Json)
    requires
        group.1@.len() > 0,
    ensures
        j@ == app_json(base@, group_view(*group)),
{
    let ghost wanted = group_view(*group).1.map_values(|i: InstanceView<S, W>| instance_json(base@, i));
    let mut entries: Vec<Json> = Vec::new();
    for n in 0..group.1.len()
        invariant
            entries@.len() == n,
            forall|k: int|
                0 <= k < n ==> crate::json::json_view(#[trigger] entries@[k]) == instance_json(base@, group.1@[k]@),
    {
        entries.push(instance_entry(base, group.1[n]));
    }
    assert(crate::json::items_view(entries@) =~= wanted);
    let latest = group.1[group.1.len() - 1];
    assert(latest@ == group_view(*group).1.last());
    Fields::new().put("app", Json::text(group.0.as_str())).put("title", Json::text_or_null(&latest.info.title)).put(
        "description",
        Json::text_or_null(&latest.info.description),
    ).put("instructions", Json::text_or_null(&latest.info.instructions)).put(
        "instances",
        Json::Array(entries),
    ).into_json()
}

fn app_status_entry<S, W>(group: &(String, Vec<&Instance<S, W>>)) -> (j: Json)
    requires
        group.1@.len() > 0,
    ensures
        j@ == app_status(group_view(*group)),
{
    let ghost wanted = group_view(*group).1.map_values(|i: InstanceView<S, W>| instance_status(i));
    let mut entries: Vec<Json> = Vec::new();
    for n in 0..group.1.len()
        invariant
            entries@.len() == n,
            forall|k: int| 0 <= k < n ==> crate::json::json_view(#[trigger] entries@[k]) == instance_status(group.1@[k]@),
    {
        entries.push(status_entry(group.1[n]));
    }
    assert(crate::json::items_view(entries@) =~= wanted);
    let latest = group.1[group.1.len() - 1];
    assert(latest@ == group_view(*group).1.last());
    Fields::new().put("app", Json::text(group.0.as_str())).put("title", Json::text_or_null(&latest.info.title)).put(
        "description",
        Json::text_or_null(&latest.info.description),
    ).put("instances", Json::Array(entries)).into_json()
}

impl<S, W> AppState<S, W> {
    /// The discovery document: every connected app and where its instances are exposed. `base` is
    /// where the bridge is reached, such as `http://localhost:7421`.
    pub fn apps_json(&self, base: &str) -> (document: Json)
        requires
            self.wf(),
        ensures
            document@ == self@.apps_document(base@),
            shows_exactly(document@, self@.instances.dom()),
    {
        proof {
            law_discovery_shows_every_instance(self@, base@, Seq::empty());
        }
        let gs = self.grouped();
        let ghost all = self@.groups();
        let ghost wanted = all.map_values(|g: (Seq<char>, Seq<InstanceView<S, W>>)| app_json(base@, g));
        proof {
            law_every_instance_is_shown_once(self@);
        }
        let mut apps: Vec<Json> = Vec::new();
        for n in 0..gs.len()
            invariant
                all == groups_view(gs@),
                forall|g: int| 0 <= g < all.len() ==> (#[trigger] all[g]).1.len() > 0,
                apps@.len() == n,
                forall|k: int| 0 <= k < n ==> crate::json::json_view(#[trigger] apps@[k]) == app_json(base@, all[k]),
        {
            assert(all[n as int] == group_view(gs@[n as int]));
            apps.push(app_entry(base, &gs[n]));
        }
        assert(crate::json::items_view(apps@) =~= wanted);
        let connect = with_first_replaced(base, "http", "ws").concat("/ws/app");
        Fields::new().put("service", Json::text("web-bridge")).put("version", Json::text(VERSION)).put(
            "connectUrl",
            Json::text(connect.as_str()),
        ).put("apps", Json::Array(apps)).into_json()
    }

    /// The status snapshot: whether the server runs, on which port, and who is connected.
    pub fn status_json(&self) -> (document: Json)
        requires
            self.wf(),
        ensures
            document@ == self@.status_document(),
            shows_exactly(document@, self@.instances.dom()),
    {
        proof {
            law_status_shows_every_instance(self@);
        }
        let gs = self.grouped();
        let ghost all = self@.groups();
        let ghost wanted = all.map_values(|g: (Seq<char>, Seq<InstanceView<S, W>>)| app_status(g));
        proof {
            law_every_instance_is_shown_once(self@);
        }
        let mut apps: Vec<Json> = Vec::new();
        for n in 0..gs.len()
            invariant
                all == groups_view(gs@),
                forall|g: int| 0 <= g < all.len() ==> (#[trigger] all[g]).1.len() > 0,
                apps@.len() == n,
                forall|k: int| 0 <= k < n ==> crate::json::json_view(#[trigger] apps@[k]) == app_status(all[k]),
        {
            assert(all[n as int] == group_view(gs@[n as int]));
            apps.push(app_status_entry(&gs[n]));
        }
        assert(crate::json::items_view(apps@) =~= wanted);
        let port = self.port();
        Fields::new().put("running", Json::Bool(port != 0)).put("port", Json::Unsigned(port as u64)).put(
            "apps",
            Json::Array(apps),
        ).into_json()
    }

    /// Where the bridge is reached.
    pub fn base_url(&self) -> (url: String)
        ensures
            url@ == self@.base_url(),
    {
        "http://localhost:".to_owned().concat(decimal_text(self.port() as u64).as_str())
    }
}

} // verus!
