//! General helpers.

use vstd::prelude::*;

verus! {

/// The characters that `char::to_lowercase` yields for `c`.
pub uninterp spec fn lowercase_of(c: char) -> Seq<char>;

/// Relies on `char::to_lowercase`, collected into a `String`: the lowercase
/// mapping of one character depends on that character alone.
#[verifier::external_body]
fn lowercase_char(c: char) -> (r: String)
    ensures
        r@ == lowercase_of(c),
{
    c.to_lowercase().collect::<String>()
}

/// `s` with its first character replaced by `first`; empty when `s` is.
pub open spec fn with_first(s: Seq<char>, first: Seq<char>) -> Seq<char> {
    if s.len() == 0 {
        Seq::empty()
    } else {
        first + s.drop_first()
    }
}

/// Replaces the first character of `s` by the text `first`.
pub fn replace_first_char(s: &str, first: &str) -> (r: String)
    ensures
        r@ == with_first(s@, first@),
{
    let n = s.unicode_len();
    if n == 0 {
        String::new()
    } else {
        let rest = s.substring_char(1, n);
        assert(rest@ =~= s@.drop_first());
        String::from_str(first).concat(rest)
    }
}

/// Uncapitalises the first character in s.
pub fn uncapitalise(s: &str) -> (r: String)
    ensures
        r@ == if s@.len() == 0 {
            Seq::empty()
        } else {
            with_first(s@, lowercase_of(s@[0]))
        },
{
    let n = s.unicode_len();
    if n == 0 {
        String::new()
    } else {
        let first = lowercase_char(s.get_char(0));
        replace_first_char(s, first.as_str())
    }
}

} // verus!
