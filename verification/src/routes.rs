//! Route text: leading and trailing slashes, and task operation routes.

use vstd::prelude::*;
use vstd::string::{StrSliceExecFns, StringExecFns};

verus! {

/// `s` without its leading `/` characters.
pub open spec fn trim_leading_slashes(s: Seq<char>) -> Seq<char>
    decreases s.len(),
{
    if s.len() > 0 && s[0] == '/' {
        trim_leading_slashes(s.drop_first())
    } else {
        s
    }
}

/// `s` without its trailing `/` characters.
pub open spec fn trim_trailing_slashes(s: Seq<char>) -> Seq<char>
    decreases s.len(),
{
    if s.len() > 0 && s.last() == '/' {
        trim_trailing_slashes(s.drop_last())
    } else {
        s
    }
}

/// The route of operation `op` of the task endpoint at `route`: `route/op`, with
/// the trailing slashes of `route` removed first.
pub open spec fn task_route(route: Seq<char>, op: Seq<char>) -> Seq<char> {
    trim_trailing_slashes(route) + seq!['/'] + op
}

/// `trim_leading_slashes` drops the first `n` characters when they are all `/`
/// and the next one is not.
proof fn lemma_trim_leading(s: Seq<char>, n: int)
    requires
        0 <= n <= s.len(),
        forall|j: int| 0 <= j < n ==> s[j] == '/',
        n == s.len() || s[n] != '/',
    ensures
        trim_leading_slashes(s) == s.skip(n),
    decreases n,
{
    if n > 0 {
        assert(s.drop_first().skip(n - 1) =~= s.skip(n));
        lemma_trim_leading(s.drop_first(), n - 1);
    } else {
        assert(s.skip(0) =~= s);
    }
}

/// `trim_trailing_slashes` keeps the first `n` characters when the rest are all
/// `/` and the one before them is not.
proof fn lemma_trim_trailing(s: Seq<char>, n: int)
    requires
        0 <= n <= s.len(),
        forall|j: int| n <= j < s.len() ==> s[j] == '/',
        n == 0 || s[n - 1] != '/',
    ensures
        trim_trailing_slashes(s) == s.take(n),
    decreases s.len() - n,
{
    if n < s.len() {
        assert(s.drop_last().take(n) =~= s.take(n));
        lemma_trim_trailing(s.drop_last(), n);
    } else {
        assert(s.take(n) =~= s);
    }
}

/// `s` without its leading `/` characters.
pub fn trim_start_slashes(s: &str) -> (r: &str)
    ensures
        r@ == trim_leading_slashes(s@),
{
    let len = s.unicode_len();
    let mut i: usize = 0;
    while i < len && s.get_char(i) == '/'
        invariant
            i <= len,
            len == s@.len(),
            forall|j: int| 0 <= j < i ==> s@[j] == '/',
        decreases len - i,
    {
        i = i + 1;
    }
    proof {
        lemma_trim_leading(s@, i as int);
    }
    let r = s.substring_char(i, len);
    assert(r@ =~= s@.skip(i as int));
    r
}

/// `s` without its trailing `/` characters.
pub fn trim_end_slashes(s: &str) -> (r: &str)
    ensures
        r@ == trim_trailing_slashes(s@),
{
    let len = s.unicode_len();
    let mut n: usize = len;
    while n > 0 && s.get_char(n - 1) == '/'
        invariant
            n <= len,
            len == s@.len(),
            forall|j: int| n <= j < len ==> s@[j] == '/',
        decreases n,
    {
        n = n - 1;
    }
    proof {
        lemma_trim_trailing(s@, n as int);
    }
    let r = s.substring_char(0, n);
    assert(r@ =~= s@.take(n as int));
    r
}

/// Joins a base route and a task operation suffix into `route/op`.
pub fn join(route: &str, op: &str) -> (r: String)
    ensures
        r@ == task_route(route@, op@),
{
    let mut r = trim_end_slashes(route).to_owned();
    r.append("/");
    r.append(op);
    proof {
        reveal_strlit("/");
    }
    assert(r@ =~= task_route(route@, op@));
    r
}

/// A route names the same endpoint with or without a leading slash: the text that
/// is resolved against the base URL is the same.
pub proof fn lemma_leading_slash_is_ignored(route: Seq<char>)
    ensures
        trim_leading_slashes(seq!['/'] + route) == trim_leading_slashes(route),
{
    assert((seq!['/'] + route).drop_first() =~= route);
}

/// A task endpoint's operation routes are the same whether or not its route ends
/// with a slash.
pub proof fn lemma_trailing_slash_is_ignored(route: Seq<char>, op: Seq<char>)
    ensures
        task_route(route + seq!['/'], op) == task_route(route, op),
{
    assert((route + seq!['/']).drop_last() =~= route);
}

} // verus!
