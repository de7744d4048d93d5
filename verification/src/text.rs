//! Operations on text, stated over sequences of characters.

use vstd::prelude::*;

verus! {

/// The characters of an optional text.
pub open spec fn text_view(text: Option<String>) -> Option<Seq<char>> {
    match text {
        Some(s) => Some(s@),
        None => None,
    }
}

/// The characters of every text in a list.
pub open spec fn texts_view(texts: Seq<String>) -> Seq<Seq<char>> {
    texts.map_values(|s: String| s@)
}

/// The decimal digit `d`.
pub open spec fn digit(d: nat) -> char
    recommends
        d < 10,
{
    (48 + d) as char
}

/// A number in decimal, without leading zeros.
pub open spec fn decimal(n: nat) -> Seq<char>
    decreases n,
{
    if n < 10 {
        seq![digit(n)]
    } else {
        decimal(n / 10).push(digit(n % 10))
    }
}

/// The hexadecimal digit `d`, in lower case.
pub open spec fn hex_digit(d: nat) -> char
    recommends
        d < 16,
{
    if d < 10 {
        (48 + d) as char
    } else {
        (87 + d) as char
    }
}

/// The lowest `len` hexadecimal digits of a number, most significant first.
pub open spec fn hex(n: nat, len: nat) -> Seq<char>
    decreases len,
{
    if len == 0 {
        Seq::empty()
    } else {
        hex(n / 16, (len - 1) as nat).push(hex_digit(n % 16))
    }
}

/// Whether a character is a digit in `0-9` or `a-f`.
pub open spec fn is_hex_digit(c: char) -> bool {
    '0' <= c <= '9' || 'a' <= c <= 'f'
}

/// A number in hexadecimal consists of hexadecimal digits.
pub proof fn lemma_hex(n: nat, len: nat)
    ensures
        hex(n, len).len() == len,
        forall|i: int| 0 <= i < len ==> is_hex_digit(#[trigger] hex(n, len)[i]),
    decreases len,
{
    if len > 0 {
        lemma_hex(n / 16, (len - 1) as nat);
    }
}

/// `pattern` stands in `text` at position `i`.
pub open spec fn occurs_at(text: Seq<char>, pattern: Seq<char>, i: int) -> bool {
    0 <= i && i + pattern.len() <= text.len() && text.subrange(i, i + pattern.len()) == pattern
}

/// `i` is the first position at which `pattern` stands in `text`.
pub open spec fn first_occurrence(text: Seq<char>, pattern: Seq<char>, i: int) -> bool {
    occurs_at(text, pattern, i) && forall|j: int| 0 <= j < i ==> !occurs_at(text, pattern, j)
}

/// `text` with the first occurrence of `pattern` exchanged for `by`, if there is one.
pub open spec fn replace_first(text: Seq<char>, pattern: Seq<char>, by: Seq<char>) -> Seq<char> {
    if exists|i: int| first_occurrence(text, pattern, i) {
        let i = choose|i: int| first_occurrence(text, pattern, i);
        text.take(i) + by + text.skip(i + pattern.len())
    } else {
        text
    }
}

/// The order of texts by their first different character; a text comes before its extensions.
pub open spec fn text_before(a: Seq<char>, b: Seq<char>) -> bool
    decreases a.len(),
{
    if b.len() == 0 {
        false
    } else if a.len() == 0 {
        true
    } else if a[0] != b[0] {
        a[0] < b[0]
    } else {
        text_before(a.skip(1), b.skip(1))
    }
}

/// No text comes before itself, and of two different texts one comes first.
pub proof fn lemma_text_before_total(a: Seq<char>, b: Seq<char>)
    ensures
        !text_before(a, a),
        text_before(a, b) ==> !text_before(b, a),
        a != b ==> text_before(a, b) || text_before(b, a),
    decreases a.len(),
{
    if a.len() > 0 && b.len() > 0 && a[0] == b[0] {
        lemma_text_before_total(a.skip(1), b.skip(1));
        if a.skip(1) == b.skip(1) {
            assert(a =~= seq![a[0]] + a.skip(1));
            assert(b =~= seq![b[0]] + b.skip(1));
        }
    } else if a.len() > 0 {
        lemma_text_before_total(a.skip(1), a.skip(1));
    } else if b.len() == 0 {
        assert(a =~= b);
    }
}

/// The order of texts is transitive.
pub proof fn lemma_text_before_transitive(a: Seq<char>, b: Seq<char>, c: Seq<char>)
    requires
        text_before(a, b),
        text_before(b, c),
    ensures
        text_before(a, c),
    decreases a.len(),
{
    if a.len() > 0 && a[0] == b[0] && b[0] == c[0] {
        lemma_text_before_transitive(a.skip(1), b.skip(1), c.skip(1));
    }
}

/// A copy of an optional text.
pub fn copy_text(text: &Option<String>) -> (copy: Option<String>)
    ensures
        copy == *text,
{
    match text {
        Some(s) => Some(s.clone()),
        None => None,
    }
}

/// Whether two texts are the same.
pub fn same_text(a: &str, b: &str) -> (same: bool)
    ensures
        same == (a@ == b@),
{
    a.to_owned() == b.to_owned()
}

/// The characters of a text.
pub fn chars_of(text: &str) -> (chars: Vec<char>)
    ensures
        chars@ == text@,
{
    let mut chars: Vec<char> = Vec::new();
    for c in it: text.chars()
        invariant
            it.seq() == text@,
            chars@ == text@.take(it.index()),
    {
        chars.push(c);
        assert(text@.take(chars@.len() as int) =~= chars@);
    }
    assert(text@.take(text@.len() as int) =~= text@);
    chars
}

/// A number in decimal.
pub fn decimal_text(n: u64) -> (text: String)
    ensures
        text@ == decimal(n as nat),
    decreases n,
{
    let last = digit_text(n % 10);
    if n < 10 {
        last
    } else {
        let front = decimal_text(n / 10);
        let text = front.concat(last.as_str());
        assert(text@ =~= decimal(n as nat));
        text
    }
}

fn digit_text(d: u64) -> (text: String)
    requires
        d < 10,
    ensures
        text@ == seq![digit(d as nat)],
{
    let all = "0123456789";
    proof {
        reveal_strlit("0123456789");
    }
    let i = d as usize;
    let text = all.substring_char(i, i + 1).to_owned();
    assert(text@ =~= seq![digit(d as nat)]);
    text
}

/// Exchanges the first occurrence of `pattern` in `text` for `by`.
pub fn with_first_replaced(text: &str, pattern: &str, by: &str) -> (out: String)
    ensures
        out@ == replace_first(text@, pattern@, by@),
{
    let n = text.unicode_len();
    let m = pattern.unicode_len();
    let mut i: usize = 0;
    while i <= n && m <= n - i
        invariant
            n == text@.len(),
            m == pattern@.len(),
            i <= n + 1,
            forall|j: int| 0 <= j < i ==> !occurs_at(text@, pattern@, j),
        ensures
            forall|j: int| !occurs_at(text@, pattern@, j),
        decreases n + 1 - i,
    {
        if same_text(text.substring_char(i, i + m), pattern) {
            proof {
                assert(first_occurrence(text@, pattern@, i as int));
                let k = choose|k: int| first_occurrence(text@, pattern@, k);
                assert(k == i) by {
                    if k < i {
                        assert(!occurs_at(text@, pattern@, k));
                    } else if i < k {
                        assert(!occurs_at(text@, pattern@, i as int));
                    }
                }
            }
            return text.substring_char(0, i).to_owned().concat(by).concat(text.substring_char(i + m, n));
        }
        if i == n {
            break ;
        }
        i = i + 1;
    }
    text.to_owned()
}

/// Whether `a` comes before `b`.
pub fn is_text_before(a: &str, b: &str) -> (before: bool)
    ensures
        before == text_before(a@, b@),
{
    let x = chars_of(a);
    let y = chars_of(b);
    proof {
        assert(a@.skip(0) =~= a@);
        assert(b@.skip(0) =~= b@);
    }
    let mut i: usize = 0;
    while i < x.len() && i < y.len() && x[i] == y[i]
        invariant
            x@ == a@,
            y@ == b@,
            i <= x@.len(),
            i <= y@.len(),
            text_before(a@, b@) == text_before(a@.skip(i as int), b@.skip(i as int)),
        decreases x@.len() - i,
    {
        proof {
            assert(a@.skip(i as int).skip(1) =~= a@.skip(i + 1));
            assert(b@.skip(i as int).skip(1) =~= b@.skip(i + 1));
        }
        i = i + 1;
    }
    if i == y.len() {
        false
    } else if i == x.len() {
        true
    } else {
        x[i] < y[i]
    }
}

} // verus!
