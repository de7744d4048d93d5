//! What the operations on text mean.

use crate::chance::{hyphenated_uuid, is_random_uuid, is_request_id, short_id_of, simple_uuid};
use crate::text::{
    decimal, first_occurrence, hex, hex_digit, is_hex_digit, lemma_hex, lemma_text_before_total, occurs_at,
    replace_first, text_before,
};
use crate::json::{entries_view, Json, JsonView};
use vstd::arithmetic::power::pow;
use vstd::prelude::*;

verus! {

/// Whether a text is a number in decimal: digits, of which the first is no zero unless it is the only
/// one.
pub open spec fn is_decimal(s: Seq<char>) -> bool {
    &&& s.len() > 0
    &&& forall|i: int| 0 <= i < s.len() ==> '0' <= #[trigger] s[i] && s[i] <= '9'
    &&& s.len() > 1 ==> s[0] != '0'
}

/// The number that digits stand for.
pub open spec fn decimal_value(s: Seq<char>) -> int
    decreases s.len(),
{
    if s.len() == 0 {
        0
    } else {
        decimal_value(s.drop_last()) * 10 + (s.last() as int - '0' as int)
    }
}

/// A number in decimal stands for that number, without a leading zero.
pub proof fn law_decimal_is_the_number(n: nat)
    ensures
        is_decimal(decimal(n)),
        decimal_value(decimal(n)) == n,
    decreases n,
{
    reveal_with_fuel(decimal_value, 2);
    if n < 10 {
        assert(decimal(n).drop_last() =~= Seq::empty());
    } else {
        law_decimal_is_the_number(n / 10);
        assert(decimal(n).drop_last() =~= decimal(n / 10));
        assert forall|i: int| 0 <= i < decimal(n).len() implies '0' <= #[trigger] decimal(n)[i] && decimal(n)[i] <= '9' by {
            if i < decimal(n / 10).len() {
                assert(decimal(n)[i] == decimal(n / 10)[i]);
            }
        }
        if decimal(n / 10).len() == 1 && decimal(n / 10)[0] == '0' {
            assert(decimal(n / 10).drop_last() =~= Seq::empty());
        }
    }
}

/// The number that hexadecimal digits in lower case stand for.
pub open spec fn hex_value(s: Seq<char>) -> int
    decreases s.len(),
{
    if s.len() == 0 {
        0
    } else {
        hex_value(s.drop_last()) * 16 + (if s.last() <= '9' {
            s.last() as int - '0' as int
        } else {
            s.last() as int - 'a' as int + 10
        })
    }
}

/// So many hexadecimal digits stand for the number, as far as it fits in them.
pub proof fn law_hex_is_the_number(n: nat, len: nat)
    requires
        n < pow(16, len),
    ensures
        hex(n, len).len() == len,
        forall|i: int| 0 <= i < len ==> is_hex_digit(#[trigger] hex(n, len)[i]),
        hex_value(hex(n, len)) == n,
    decreases len,
{
    reveal(pow);
    lemma_hex(n, len);
    if len > 0 {
        law_hex_is_the_number(n / 16, (len - 1) as nat);
        assert(hex(n, len).drop_last() =~= hex(n / 16, (len - 1) as nat));
        assert(hex(n, len).last() == hex_digit(n % 16));
    }
}

/// A UUID is written as 32 digits that stand for its number, with hyphens after the 8th, the 12th,
/// the 16th and the 20th; and a short id is the first eight of them.
pub proof fn law_uuid_is_written_in_groups(n: u128, i: int)
    ensures
        simple_uuid(n).len() == 32,
        hex_value(simple_uuid(n)) == n,
        hyphenated_uuid(n).len() == 36,
        hyphenated_uuid(n)[8] == '-' && hyphenated_uuid(n)[13] == '-' && hyphenated_uuid(n)[18] == '-'
            && hyphenated_uuid(n)[23] == '-',
        0 <= i < 8 ==> hyphenated_uuid(n)[i] == simple_uuid(n)[i],
        8 <= i < 12 ==> hyphenated_uuid(n)[i + 1] == simple_uuid(n)[i],
        12 <= i < 16 ==> hyphenated_uuid(n)[i + 2] == simple_uuid(n)[i],
        16 <= i < 20 ==> hyphenated_uuid(n)[i + 3] == simple_uuid(n)[i],
        20 <= i < 32 ==> hyphenated_uuid(n)[i + 4] == simple_uuid(n)[i],
        short_id_of(n).len() == 8,
        0 <= i < 8 ==> short_id_of(n)[i] == simple_uuid(n)[i],
{
    assert(pow(16, 32) == 0x1_0000_0000_0000_0000_0000_0000_0000_0000int) by {
        reveal_with_fuel(pow, 33);
    }
    law_hex_is_the_number(n as nat, 32);
    reveal_strlit("-");
    assert("-"@.len() == 1 && "-"@[0] == '-');
}

/// A request id is written as a UUID is, and tells which UUID it is.
pub proof fn law_request_ids_are_uuids(id: Seq<char>)
    requires
        is_request_id(id),
    ensures
        id.len() == 36,
        id[8] == '-' && id[13] == '-' && id[18] == '-' && id[23] == '-',
        exists|n: u128| is_random_uuid(n) && id == #[trigger] hyphenated_uuid(n),
{
    let n = choose|n: u128| is_random_uuid(n) && id == #[trigger] hyphenated_uuid(n);
    law_uuid_is_written_in_groups(n, 0);
}

/// Different UUIDs are written differently.
pub proof fn law_uuids_are_told_apart(a: u128, b: u128)
    requires
        hyphenated_uuid(a) == hyphenated_uuid(b),
    ensures
        a == b,
{
    law_uuid_is_written_in_groups(a, 0);
    law_uuid_is_written_in_groups(b, 0);
    assert(simple_uuid(a) =~= simple_uuid(b)) by {
        assert forall|i: int| 0 <= i < 32 implies simple_uuid(a)[i] == simple_uuid(b)[i] by {
            law_uuid_is_written_in_groups(a, i);
            law_uuid_is_written_in_groups(b, i);
        }
    }
}

/// Of two texts with a common start, the one comes first whose next character is the smaller; and a
/// text comes before every longer one that it starts.
pub proof fn law_texts_are_ordered_by_characters(
    start: Seq<char>,
    x: char,
    a: Seq<char>,
    y: char,
    b: Seq<char>,
)
    ensures
        x < y ==> text_before(start + seq![x] + a, start + seq![y] + b),
        text_before(start, start + seq![x] + a),
        !text_before(start + seq![x] + a, start),
        !text_before(start, start),
    decreases start.len(),
{
    lemma_text_before_total(start, start);
    let p = start + seq![x] + a;
    let q = start + seq![y] + b;
    if start.len() > 0 {
        law_texts_are_ordered_by_characters(start.skip(1), x, a, y, b);
        assert(p.skip(1) =~= start.skip(1) + seq![x] + a);
        assert(q.skip(1) =~= start.skip(1) + seq![y] + b);
        assert(p[0] == start[0] && q[0] == start[0]);
    } else {
        assert(p[0] == x && q[0] == y);
    }
}

/// A pattern at the start of a text is the one that is replaced.
pub proof fn law_replaces_at_the_start(pattern: Seq<char>, rest: Seq<char>, by: Seq<char>)
    ensures
        replace_first(pattern + rest, pattern, by) == by + rest,
{
    let text = pattern + rest;
    assert(text.subrange(0, pattern.len() as int) =~= pattern);
    assert(first_occurrence(text, pattern, 0));
    let i = choose|i: int| first_occurrence(text, pattern, i);
    assert(i == 0) by {
        if i > 0 {
            assert(!occurs_at(text, pattern, 0));
        }
    }
    assert(text.take(0) + by + text.skip(pattern.len() as int) =~= by + rest);
}

/// An object holds under a name what was written there last, null or not; what was not written it
/// does not hold; and what is no object holds nothing.
pub proof fn law_object_holds_what_was_written(entries: Vec<(String, Json)>, k: int, name: Seq<char>, v: JsonView)
    ensures
        0 <= k < entries@.len() && entries@[k].0@ == name && (forall|j: int|
            k < j < entries@.len() ==> (#[trigger] entries@[j]).0@ != name) ==> Json::Object(entries)@.field(name)
            == Some(entries@[k].1@),
        (forall|j: int| 0 <= j < entries@.len() ==> (#[trigger] entries@[j]).0@ != name) ==> Json::Object(
            entries,
        )@.field(name) is None,
        !(v is Object) ==> v.field(name) is None,
        v.text_field(name) is Some <==> v.field(name) is Some && v.field(name)->0 is Str,
        v.text_field(name) is Some ==> v.field(name) == Some(JsonView::Str(v.text_field(name)->0)),
{
    lemma_last_entry(entries@, k, name);
}

proof fn lemma_last_entry(entries: Seq<(String, Json)>, k: int, name: Seq<char>)
    ensures
        0 <= k < entries.len() && entries[k].0@ == name && (forall|j: int|
            k < j < entries.len() ==> (#[trigger] entries[j]).0@ != name) ==> entries_view(entries).contains_key(name)
            && entries_view(entries)[name] == entries[k].1@,
        (forall|j: int| 0 <= j < entries.len() ==> (#[trigger] entries[j]).0@ != name) ==> !entries_view(
            entries,
        ).contains_key(name),
    decreases entries.len(),
{
    if entries.len() > 0 {
        let front = entries.drop_last();
        lemma_last_entry(front, k, name);
        assert(entries.last() == entries[entries.len() - 1]);
        assert(forall|j: int| 0 <= j < front.len() ==> front[j] == #[trigger] entries[j]);
    }
}

/// An array holds its items in order, and plain values are what they are.
pub proof fn law_values_are_what_they_are(items: Vec<Json>, k: int, n: u64, i: i64, b: bool, s: String)
    ensures
        Json::Array(items)@ is Array,
        Json::Array(items)@->Array_0.len() == items@.len(),
        0 <= k < items@.len() ==> Json::Array(items)@->Array_0[k] == items@[k]@,
        Json::Null@ == JsonView::Null,
        Json::Bool(b)@ == JsonView::Bool(b),
        Json::Unsigned(n)@ == JsonView::Int(n as int),
        Json::Signed(i)@ == JsonView::Int(i as int),
        Json::Str(s)@ == JsonView::Str(s@),
{
}

/// A text without the pattern stays as it is.
pub proof fn law_replaces_only_the_pattern(text: Seq<char>, pattern: Seq<char>, by: Seq<char>)
    requires
        forall|i: int| !occurs_at(text, pattern, i),
    ensures
        replace_first(text, pattern, by) == text,
{
}

} // verus!
