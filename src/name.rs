//! Display names read from the metadata tree: surrounding whitespace is
//! dropped, and an unreadable file means the name is absent.
use vstd::prelude::*;

verus! {

/// `c` has the Unicode White_Space property.
pub open spec fn is_white_space(c: char) -> bool {
    let u = c as u32;
    (0x09 <= u && u <= 0x0D) || u == 0x20 || u == 0x85 || u == 0xA0 || u == 0x1680 || (0x2000
        <= u && u <= 0x200A) || u == 0x2028 || u == 0x2029 || u == 0x202F || u == 0x205F || u
        == 0x3000
}

/// `s` without its leading white space.
pub open spec fn trim_leading(s: Seq<char>) -> Seq<char>
    decreases s.len(),
{
    if s.len() > 0 && is_white_space(s[0]) {
        trim_leading(s.drop_first())
    } else {
        s
    }
}

/// `s` without its trailing white space.
pub open spec fn trim_trailing(s: Seq<char>) -> Seq<char>
    decreases s.len(),
{
    if s.len() > 0 && is_white_space(s.last()) {
        trim_trailing(s.drop_last())
    } else {
        s
    }
}

/// `s` without leading or trailing white space.
pub open spec fn trimmed(s: Seq<char>) -> Seq<char> {
    trim_trailing(trim_leading(s))
}

/// Relies on `str::trim`: it removes the leading and trailing characters
/// that have the Unicode White_Space property, and nothing else.
#[verifier::external_body]
fn trim_text(s: &str) -> (r: String)
    ensures
        r@ == trimmed(s@),
{
    s.trim().to_string()
}

/// Display name from the contents of a node's metadata file, or `None` where
/// the file could not be read: the contents with surrounding white space removed.
pub fn name_from_contents(contents: Option<String>) -> (r: Option<String>)
    ensures
        match contents {
            Some(c) => r is Some && r->0@ == trimmed(c@),
            None => r is None,
        },
{
    match contents {
        Some(c) => Some(trim_text(c.as_str())),
        None => None,
    }
}

} // verus!
