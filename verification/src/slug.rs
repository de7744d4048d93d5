//! Names that can stand in a URL path.

use crate::text::{same_text, lemma_hex};
use vstd::prelude::*;

verus! {

/// The most characters that a slug can have.
pub const MAX_SLUG_LEN: usize = 64;

/// Path segments with a meaning of their own, which no app and no instance can claim.
pub open spec fn reserved_slugs() -> Seq<Seq<char>> {
    seq!["api"@, "mcp"@, "ws"@, "apps"@, "status"@, "tools"@]
}

/// Whether a slug can begin with this character.
pub open spec fn is_slug_start(c: char) -> bool {
    'a' <= c <= 'z' || '0' <= c <= '9'
}

/// Whether a slug can hold this character.
pub open spec fn is_slug_char(c: char) -> bool {
    is_slug_start(c) || c == '-' || c == '_'
}

/// Whether a text is a slug: `[a-z0-9][a-z0-9_-]{0,63}`.
pub open spec fn is_slug(s: Seq<char>) -> bool {
    &&& 1 <= s.len() <= MAX_SLUG_LEN
    &&& is_slug_start(s[0])
    &&& forall|i: int| 0 <= i < s.len() ==> is_slug_char(#[trigger] s[i])
}

/// Whether a text can name an app or an instance: a slug that is not reserved.
pub open spec fn is_name(s: Seq<char>) -> bool {
    is_slug(s) && !reserved_slugs().contains(s)
}

/// What is said of a text that cannot be the `what` it was meant for.
pub open spec fn slug_complaint(s: Seq<char>, what: Seq<char>) -> Seq<char> {
    if is_slug(s) {
        "Invalid "@ + what + " '"@ + s + "': that name is reserved."@
    } else {
        "Invalid "@ + what + " '"@ + s
            + "': use 1-64 chars of [a-z0-9_-], starting with a letter or digit."@
    }
}

fn is_slug_text(s: &str) -> (ok: bool)
    ensures
        ok == is_slug(s@),
{
    let n = s.unicode_len();
    if n == 0 || n > MAX_SLUG_LEN {
        return false;
    }
    let first = s.get_char(0);
    if !(('a' <= first && first <= 'z') || ('0' <= first && first <= '9')) {
        return false;
    }
    for c in it: s.chars()
        invariant
            it.seq() == s@,
            forall|i: int| 0 <= i < it.index() ==> is_slug_char(#[trigger] s@[i]),
    {
        if !(('a' <= c && c <= 'z') || ('0' <= c && c <= '9') || c == '-' || c == '_') {
            assert(!is_slug_char(s@[it.index()]));
            return false;
        }
    }
    true
}

fn is_reserved(s: &str) -> (reserved: bool)
    ensures
        reserved == reserved_slugs().contains(s@),
{
    let reserved = same_text(s, "api") || same_text(s, "mcp") || same_text(s, "ws") || same_text(s, "apps")
        || same_text(s, "status") || same_text(s, "tools");
    proof {
        let all = reserved_slugs();
        assert(all[0] == "api"@ && all[1] == "mcp"@ && all[2] == "ws"@ && all[3] == "apps"@ && all[4] == "status"@
            && all[5] == "tools"@);
    }
    reserved
}

/// App names and instance ids become URL path segments, so they are held to a lowercase slug and
/// must not shadow a reserved route. Gives the text back, or says what is wrong with it.
pub fn validate_slug(s: &str, what: &str) -> (r: Result<String, String>)
    ensures
        match r {
            Ok(slug) => is_name(s@) && slug@ == s@,
            Err(message) => !is_name(s@) && message@ == slug_complaint(s@, what@),
        },
{
    let start = "Invalid ".to_owned().concat(what).concat(" '").concat(s);
    if !is_slug_text(s) {
        return Err(
            start.concat("': use 1-64 chars of [a-z0-9_-], starting with a letter or digit."),
        );
    }
    if is_reserved(s) {
        return Err(start.concat("': that name is reserved."));
    }
    Ok(s.to_owned())
}

/// Eight hexadecimal digits are a name.
pub proof fn lemma_hex_is_name(n: nat)
    ensures
        is_name(crate::text::hex(n, 8)),
{
    let s = crate::text::hex(n, 8);
    lemma_hex(n, 8);
    assert(crate::text::is_hex_digit(s[0]));
    reveal_strlit("api");
    reveal_strlit("mcp");
    reveal_strlit("ws");
    reveal_strlit("apps");
    reveal_strlit("status");
    reveal_strlit("tools");
}

} // verus!
