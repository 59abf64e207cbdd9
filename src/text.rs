//! Small string building blocks.
use vstd::prelude::*;

verus! {

/// Relies on `String::push`: the character is appended at the end.
#[verifier::external_body]
pub(crate) fn push_char(s: &mut String, c: char)
    ensures
        final(s)@ == old(s)@.push(c),
{
    s.push(c)
}

/// Path joining in the manner of `Path::join` for a relative tail: the tail
/// follows the base, with a separator unless the base is empty or already ends
/// in one.
pub open spec fn join_path(base: Seq<char>, tail: Seq<char>) -> Seq<char> {
    if base.len() == 0 || base.last() == '/' {
        base + tail
    } else {
        base + seq!['/'] + tail
    }
}

/// Joins a relative path onto a base directory.
pub fn join(base: &str, tail: &str) -> (r: String)
    ensures
        r@ == join_path(base@, tail@),
{
    let mut r = base.to_owned();
    let n = base.unicode_len();
    if n > 0 && base.get_char(n - 1) != '/' {
        push_char(&mut r, '/');
    }
    r.append(tail);
    r
}

} // verus!
