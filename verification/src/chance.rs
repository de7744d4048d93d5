//! What comes from outside: random identifiers and the time.

use crate::slug::lemma_hex_is_name;
use crate::text::{hex, hex_digit, is_hex_digit, lemma_hex};
use vstd::arithmetic::div_mod::lemma_div_denominator;
use vstd::arithmetic::power::{lemma_pow_positive, pow};
use vstd::prelude::*;

verus! {

/// The text of a UUID without hyphens.
pub open spec fn simple_uuid(n: u128) -> Seq<char> {
    hex(n as nat, 32)
}

/// The text of a UUID, with hyphens.
pub open spec fn hyphenated_uuid(n: u128) -> Seq<char> {
    let s = simple_uuid(n);
    s.subrange(0, 8) + "-"@ + s.subrange(8, 12) + "-"@ + s.subrange(12, 16) + "-"@ + s.subrange(16, 20) + "-"@
        + s.subrange(20, 32)
}

/// Whether a number is a UUID of version 4: random but for the version and the variant.
pub open spec fn is_random_uuid(n: u128) -> bool {
    (n >> 76) & 0xf == 4 && (n >> 62) & 0x3 == 2
}

/// Whether a text is an id that a request can get.
pub open spec fn is_request_id(id: Seq<char>) -> bool {
    exists|n: u128| is_random_uuid(n) && id == #[trigger] hyphenated_uuid(n)
}

/// `uuid::Uuid::new_v4`, as a number: a UUID of version 4. Nothing is claimed of how its random
/// bits fall.
#[verifier::external_body]
pub(crate) fn random_uuid() -> (n: u128)
    ensures
        is_random_uuid(n),
{
    uuid::Uuid::new_v4().as_u128()
}

/// The text of `uuid::Uuid::simple`: 32 lowercase hexadecimal digits.
#[verifier::external_body]
fn simple_uuid_text(n: u128) -> (text: String)
    ensures
        text@ == simple_uuid(n),
{
    uuid::Uuid::from_u128(n).simple().to_string()
}

/// The text of a `uuid::Uuid`: its hexadecimal digits, with hyphens after the 8th, the 12th, the
/// 16th and the 20th.
#[verifier::external_body]
fn hyphenated_uuid_text(n: u128) -> (text: String)
    ensures
        text@ == hyphenated_uuid(n),
{
    uuid::Uuid::from_u128(n).to_string()
}

/// A fresh id for a request.
pub fn request_id() -> (id: String)
    ensures
        is_request_id(id@),
{
    hyphenated_uuid_text(random_uuid())
}

/// How many short ids there are.
pub const SHORT_IDS: u64 = 0x1_0000_0000;

/// How many numbers stand for the same short id.
pub const NUMBERS_PER_ID: u128 = 0x1_0000_0000_0000_0000_0000_0000;

/// The id that a random number stands for: the first eight digits of its UUID.
pub open spec fn short_id_of(n: u128) -> Seq<char> {
    simple_uuid(n).subrange(0, 8)
}

/// A number whose id comes this many steps after that of another, where the first id comes after
/// the last.
pub open spec fn stepped(n: u128, steps: int) -> u128 {
    if steps == 0 {
        n
    } else {
        ((n as int / NUMBERS_PER_ID as int + steps) % SHORT_IDS as int * NUMBERS_PER_ID) as u128
    }
}

/// A number whose id comes this many steps after that of another.
pub fn step_from(n: u128, steps: u64) -> (m: u128)
    requires
        steps < SHORT_IDS,
    ensures
        m == stepped(n, steps as int),
{
    if steps == 0 {
        n
    } else {
        (n / NUMBERS_PER_ID + steps as u128) % (SHORT_IDS as u128) * NUMBERS_PER_ID
    }
}

/// Short id for instances that do not bring their own, as a random number gives it.
pub fn short_id(n: u128) -> (id: String)
    ensures
        id@ == short_id_of(n),
{
    proof {
        lemma_hex(n as nat, 32);
    }
    simple_uuid_text(n).as_str().substring_char(0, 8).to_owned()
}

/// The first digits of a number's text are the text of its higher digits.
proof fn lemma_hex_prefix(n: nat, len: nat, cut: nat)
    requires
        cut <= len,
    ensures
        0 < pow(16, (len - cut) as nat),
        hex(n, len).subrange(0, cut as int) == hex((n as int / pow(16, (len - cut) as nat)) as nat, cut),
    decreases len,
{
    lemma_hex(n, len);
    lemma_pow_positive(16, (len - cut) as nat);
    reveal(pow);
    if cut == len {
        assert(hex(n, len).subrange(0, cut as int) =~= hex(n, len));
    } else {
        let shorter = (len - 1) as nat;
        lemma_hex(n / 16, shorter);
        assert(hex(n, len).subrange(0, cut as int) =~= hex(n / 16, shorter).subrange(0, cut as int));
        lemma_hex_prefix(n / 16, shorter, cut);
        lemma_div_denominator(n as int, 16, pow(16, (shorter - cut) as nat));
    }
}

/// A short id is the text of the number's higher digits.
proof fn lemma_short_id(n: u128)
    ensures
        short_id_of(n) == hex((n as int / NUMBERS_PER_ID as int) as nat, 8),
        0 <= n as int / (NUMBERS_PER_ID as int) < SHORT_IDS,
{
    lemma_hex_prefix(n as nat, 32, 8);
    assert(pow(16, 24) == NUMBERS_PER_ID) by {
        reveal_with_fuel(pow, 25);
    }
}

/// Different numbers have different texts.
proof fn lemma_hex_injective(a: nat, b: nat, len: nat)
    requires
        a < pow(16, len),
        b < pow(16, len),
        hex(a, len) == hex(b, len),
    ensures
        a == b,
    decreases len,
{
    reveal(pow);
    if len > 0 {
        let shorter = (len - 1) as nat;
        lemma_hex(a, len);
        lemma_hex(b, len);
        lemma_hex(a / 16, shorter);
        lemma_hex(b / 16, shorter);
        assert(hex(a, len).last() == hex_digit(a % 16));
        assert(hex(b, len).last() == hex_digit(b % 16));
        assert(hex_digit(a % 16) as int == hex_digit(b % 16) as int);
        assert(hex(a, len).drop_last() =~= hex(a / 16, shorter));
        assert(hex(b, len).drop_last() =~= hex(b / 16, shorter));
        lemma_hex_injective(a / 16, b / 16, shorter);
    }
}

/// Each step leads to an id of its own until all have been seen.
pub proof fn lemma_steps_differ(n: u128, j: int, k: int)
    requires
        0 <= j < k < SHORT_IDS,
    ensures
        short_id_of(stepped(n, j)) != short_id_of(stepped(n, k)),
{
    lemma_stepped_id(n, j);
    lemma_stepped_id(n, k);
    let h = n as int / NUMBERS_PER_ID as int;
    lemma_short_id(n);
    let a = ((h + j) % SHORT_IDS as int) as nat;
    let b = ((h + k) % SHORT_IDS as int) as nat;
    if hex(a, 8) == hex(b, 8) {
        assert(pow(16, 8) == SHORT_IDS) by {
            reveal_with_fuel(pow, 9);
        }
        lemma_hex_injective(a, b, 8);
    }
}

proof fn lemma_stepped_id(n: u128, steps: int)
    requires
        0 <= steps < SHORT_IDS,
    ensures
        short_id_of(stepped(n, steps)) == hex(
            ((n as int / NUMBERS_PER_ID as int + steps) % SHORT_IDS as int) as nat,
            8,
        ),
{
    lemma_short_id(n);
    lemma_short_id(stepped(n, steps));
}

/// Every id is so many steps away from every number.
pub proof fn lemma_steps_reach(n: u128, target: u128) -> (steps: int)
    ensures
        0 <= steps < SHORT_IDS,
        short_id_of(stepped(n, steps)) == short_id_of(target),
{
    let h = n as int / NUMBERS_PER_ID as int;
    let t = target as int / NUMBERS_PER_ID as int;
    lemma_short_id(n);
    lemma_short_id(target);
    let steps = (t - h) % SHORT_IDS as int;
    lemma_stepped_id(n, steps);
    assert((h + steps) % SHORT_IDS as int == t);
    steps
}

/// An assigned id has eight hexadecimal digits, so that it can stand in a path and shadows no
/// reserved route, whatever number was drawn.
pub proof fn law_assigned_ids_are_names(n: u128)
    ensures
        short_id_of(n).len() == 8,
        forall|i: int| 0 <= i < 8 ==> is_hex_digit(#[trigger] short_id_of(n)[i]),
        crate::slug::is_name(short_id_of(n)),
{
    lemma_short_id(n);
    let m = (n as int / NUMBERS_PER_ID as int) as nat;
    lemma_hex(m, 8);
    lemma_hex_is_name(m);
}

/// A point in time of the system clock.
#[verifier::external_type_specification]
#[verifier::external_body]
pub struct ExSystemTime(std::time::SystemTime);

/// How far a point in time lies behind the Unix epoch; none for one that lies before it.
pub uninterp spec fn time_since_epoch(t: std::time::SystemTime) -> Option<core::time::Duration>;

/// The whole seconds of a duration.
pub uninterp spec fn seconds_of(d: core::time::Duration) -> u64;

/// A point in time in whole seconds since the Unix epoch, with zero for one that lies before it.
pub open spec fn unix_seconds(t: std::time::SystemTime) -> u64 {
    match time_since_epoch(t) {
        Some(d) => seconds_of(d),
        None => 0,
    }
}

/// `std::time::SystemTime::now`. Nothing is claimed of what the clock shows.
#[verifier::external_body]
fn system_now() -> (now: std::time::SystemTime) {
    std::time::SystemTime::now()
}

/// `std::time::SystemTime::duration_since`, asked of the Unix epoch, without its error.
#[verifier::external_body]
fn since_epoch(t: std::time::SystemTime) -> (elapsed: Option<core::time::Duration>)
    ensures
        elapsed == time_since_epoch(t),
{
    t.duration_since(std::time::UNIX_EPOCH).ok()
}

/// `core::time::Duration::as_secs`.
#[verifier::external_body]
fn whole_seconds(d: core::time::Duration) -> (seconds: u64)
    ensures
        seconds == seconds_of(d),
{
    d.as_secs()
}

/// A point in time in whole seconds since the Unix epoch, with zero for one that lies before it.
pub fn unix_seconds_at(t: std::time::SystemTime) -> (seconds: u64)
    ensures
        seconds == unix_seconds(t),
{
    match since_epoch(t) {
        Some(elapsed) => whole_seconds(elapsed),
        None => 0,
    }
}

/// The time that the system clock shows.
pub fn unix_now() -> (seconds: u64)
    ensures
        exists|t: std::time::SystemTime| seconds == unix_seconds(t),
{
    unix_seconds_at(system_now())
}

} // verus!
