//! Where a provider is reached.

use crate::text::{owned, slice_text, starts_with, starts_with_str, to_chars};
use vstd::prelude::*;

verus! {

/// A base URL and a path under it.
#[derive(Debug)]
pub struct Endpoint {
    pub base_url: String,
    pub path: String,
}

/// The text without the slashes at its end.
pub open spec fn without_slashes(s: Seq<char>) -> Seq<char>
    decreases s.len(),
{
    if s.len() > 0 && s.last() == '/' {
        without_slashes(s.drop_last())
    } else {
        s
    }
}

/// The path with a slash in front.
pub open spec fn rooted(s: Seq<char>) -> Seq<char> {
    if starts_with(s, "/"@) {
        s
    } else {
        "/"@ + s
    }
}

/// The text without the slashes at its end.
pub fn trim_slashes(s: &str) -> (r: String)
    ensures
        r@ == without_slashes(s@),
{
    let v = to_chars(s);
    let mut n: usize = v.len();
    assert(v@.take(n as int) =~= v@);
    while n > 0 && v[n - 1] == '/'
        invariant
            n <= v@.len(),
            v@ == s@,
            without_slashes(v@.take(n as int)) == without_slashes(v@),
        decreases n,
    {
        assert(v@.take(n as int).drop_last() =~= v@.take(n - 1));
        n = n - 1;
    }
    assert(v@.subrange(0, n as int) =~= v@.take(n as int));
    slice_text(&v, 0, n)
}

impl Endpoint {
    /// The endpoint at `path` under `base_url`.
    pub fn new(base_url: &str, path: &str) -> (r: Endpoint)
        ensures
            r.base_url@ == without_slashes(base_url@),
            r.path@ == rooted(path@),
    {
        let path = if starts_with_str(path, "/") {
            owned(path)
        } else {
            let mut p = owned("/");
            p.append(path);
            p
        };
        Endpoint { base_url: trim_slashes(base_url), path }
    }

    /// The whole URL.
    pub fn url(&self) -> (r: String)
        ensures
            r@ == self.base_url@ + self.path@,
    {
        let mut u = self.base_url.clone();
        u.append(self.path.as_str());
        u
    }
}

/// The base URL does not end in a slash, so that the path is joined with exactly the slash
/// that it brings.
pub proof fn lemma_no_trailing_slash(s: Seq<char>)
    ensures
        without_slashes(s).len() > 0 ==> without_slashes(s).last() != '/',
        without_slashes(without_slashes(s)) == without_slashes(s),
    decreases s.len(),
{
    if s.len() > 0 && s.last() == '/' {
        lemma_no_trailing_slash(s.drop_last());
    }
}

} // verus!
