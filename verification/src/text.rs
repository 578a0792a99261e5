//! Character-level helpers on strings: upper-casing, appending, comparing for
//! equality, and the views of optional and fallible values.

use vstd::prelude::*;

verus! {

/// The view of an optional value.
pub open spec fn option_view<T: View>(o: Option<T>) -> Option<T::V> {
    match o {
        Some(t) => Some(t@),
        None => None,
    }
}

/// The view of a result, both sides taken by their views.
pub open spec fn result_view<T: View, E: View>(r: Result<T, E>) -> Result<T::V, E::V> {
    match r {
        Ok(t) => Ok(t@),
        Err(e) => Err(e@),
    }
}

/// What `char::to_uppercase` yields for a character outside ASCII.
pub uninterp spec fn spec_unicode_uppercase(c: char) -> Seq<char>;

/// The characters that `char::to_uppercase` yields for `c`: for ASCII, as the
/// Unicode standard (which the std documentation defers to) fixes it, a
/// lowercase letter becomes its uppercase letter and every other character,
/// having no uppercase mapping, is yielded unchanged.
pub open spec fn spec_char_to_uppercase(c: char) -> Seq<char> {
    if 'a' <= c && c <= 'z' {
        seq![((c as int) - 32) as char]
    } else if (c as int) < 128 {
        seq![c]
    } else {
        spec_unicode_uppercase(c)
    }
}

/// Trusted: `char::to_uppercase`, collected into a `String`. Claims that the
/// result is [`spec_char_to_uppercase`]: the ASCII mapping stated there, the
/// named mapping elsewhere.
#[verifier::external_body]
pub(crate) fn char_to_uppercase(c: char) -> (up: String)
    ensures
        up@ == spec_char_to_uppercase(c),
        (c as int) >= 128 ==> up@ == spec_unicode_uppercase(c),
{
    c.to_uppercase().collect()
}

/// Trusted: `String::push`, which appends one character.
#[verifier::external_body]
pub(crate) fn push_char(s: &mut String, c: char)
    ensures
        final(s)@ == old(s)@.push(c),
{
    s.push(c);
}

/// Whether two strings hold the same characters.
pub(crate) fn same_text(a: &str, b: &str) -> (r: bool)
    ensures
        r == (a@ == b@),
{
    let n = a.unicode_len();
    let m = b.unicode_len();
    if n != m {
        return false;
    }
    let mut i: usize = 0;
    while i < n
        invariant
            n == a@.len(),
            m == b@.len(),
            n == m,
            i <= n,
            forall|j: int| 0 <= j < i ==> a@[j] == b@[j],
        decreases n - i,
    {
        if a.get_char(i) != b.get_char(i) {
            return false;
        }
        i += 1;
    }
    assert(a@ =~= b@);
    true
}

} // verus!
