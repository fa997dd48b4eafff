//! Extracting the owning domain from an entity URI.
//!
//! The instance that owns a URI is identified by the host part between the
//! scheme separator and the next slash; the blocked-instance policy is
//! decided on that domain before any network call.

use vstd::prelude::*;

verus! {

/// Index just past the first `://`, scanning from `k`.
pub open spec fn find_scheme_end(s: Seq<char>, k: int) -> Option<int>
    decreases s.len() - k
        when 0 <= k <= s.len()
{
    if k + 3 > s.len() {
        None
    } else if s[k] == ':' && s[k + 1] == '/' && s[k + 2] == '/' {
        Some(k + 3)
    } else {
        find_scheme_end(s, k + 1)
    }
}

/// Index of the first slash at or after `k`, or the length.
pub open spec fn find_slash_from(s: Seq<char>, k: int) -> int
    decreases s.len() - k
        when 0 <= k <= s.len()
{
    if k >= s.len() {
        s.len() as int
    } else if s[k] == '/' {
        k
    } else {
        find_slash_from(s, k + 1)
    }
}

/// The domain owning a URI: the host between `://` and the next slash.
pub open spec fn spec_uri_domain(s: Seq<char>) -> Option<Seq<char>> {
    match find_scheme_end(s, 0) {
        None => None,
        Some(h) => Some(s.subrange(h, find_slash_from(s, h))),
    }
}

proof fn lemma_scheme_bounds(s: Seq<char>, k: int)
    requires
        0 <= k <= s.len(),
    ensures
        match find_scheme_end(s, k) {
            Some(h) => k + 3 <= h <= s.len(),
            None => true,
        },
    decreases s.len() - k,
{
    if k + 3 <= s.len() && !(s[k] == ':' && s[k + 1] == '/' && s[k + 2] == '/') {
        lemma_scheme_bounds(s, k + 1);
    }
}

proof fn lemma_slash_bounds(s: Seq<char>, k: int)
    requires
        0 <= k <= s.len(),
    ensures
        k <= find_slash_from(s, k) <= s.len(),
    decreases s.len() - k,
{
    if k < s.len() && s[k] != '/' {
        lemma_slash_bounds(s, k + 1);
    }
}

/// The domain owning a URI, or nothing for a URI without a scheme.
pub fn uri_domain(s: &str) -> (r: Option<String>)
    ensures
        match r {
            Some(d) => spec_uri_domain(s@) == Some(d@),
            None => spec_uri_domain(s@) is None,
        },
{
    let n = s.unicode_len();
    if n < 3 {
        return None;
    }
    let mut k: usize = 0;
    while k <= n - 3
        invariant
            n == s@.len(),
            3 <= n,
            k <= n - 2,
            find_scheme_end(s@, 0) == find_scheme_end(s@, k as int),
        decreases n - k,
    {
        if s.get_char(k) == ':' && s.get_char(k + 1) == '/' && s.get_char(k + 2) == '/' {
            let h = k + 3;
            proof {
                assert(find_scheme_end(s@, k as int) == Some(k + 3));
                lemma_slash_bounds(s@, h as int);
            }
            let mut e: usize = h;
            while e < n
                invariant
                    n == s@.len(),
                    3 <= h <= e <= n,
                    find_scheme_end(s@, 0) == Some(h as int),
                    find_slash_from(s@, h as int) == find_slash_from(s@, e as int),
                decreases n - e,
            {
                if s.get_char(e) == '/' {
                    proof {
                        assert(find_slash_from(s@, e as int) == e);
                    }
                    return Some(String::from_str(s.substring_char(h, e)));
                }
                e += 1;
            }
            proof {
                assert(find_slash_from(s@, e as int) == n);
            }
            return Some(String::from_str(s.substring_char(h, e)));
        }
        k += 1;
    }
    proof {
        assert(find_scheme_end(s@, (n - 2) as int) is None);
    }
    None
}

} // verus!
