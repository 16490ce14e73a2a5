//! Rendering of values into error messages.

use vstd::prelude::*;
use vstd::string::StringExecFns;

verus! {

/// What `<str as Debug>::fmt` writes for a string: the string in double quotes,
/// with quotes, backslashes and control characters escaped.
pub uninterp spec fn str_debug(s: Seq<char>) -> Seq<char>;

/// Renders `s` with `{:?}`.
///
/// Trusted: the result is what `<str as Debug>::fmt` writes for `s`, named by
/// `str_debug`; the escaping rules themselves are not spelled out.
#[verifier::external_body]
pub(crate) fn debug_str(s: &str) -> (r: String)
    ensures
        r@ == str_debug(s@),
{
    format!("{:?}", s)
}

/// The concatenation of two strings, as a new string.
pub(crate) fn concat(a: &str, b: &str) -> (r: String)
    ensures
        r@ == a@ + b@,
{
    let mut r = a.to_owned();
    r.append(b);
    r
}

} // verus!
