//! Origin policy of the guarded endpoints: requests under the
//! language-model path prefix may proceed only from a known origin.

use vstd::prelude::*;

verus! {

/// `prefix` is an initial segment of `s`.
pub open spec fn is_prefix_of(prefix: Seq<char>, s: Seq<char>) -> bool {
    prefix.len() <= s.len() && s.take(prefix.len() as int) == prefix
}

/// Character-wise prefix test.
pub fn str_starts_with(s: &str, prefix: &str) -> (r: bool)
    ensures
        r == is_prefix_of(prefix@, s@),
{
    let n = prefix.unicode_len();
    if s.unicode_len() < n {
        return false;
    }
    let mut i: usize = 0;
    while i < n
        invariant
            n == prefix@.len(),
            n <= s@.len(),
            i <= n,
            forall|k: int| 0 <= k < i ==> s@[k] == prefix@[k],
        decreases n - i,
    {
        if s.get_char(i) != prefix.get_char(i) {
            proof {
                if s@.take(n as int) == prefix@ {
                    assert(s@.take(n as int)[i as int] == prefix@[i as int]);
                    assert(false);
                }
            }
            return false;
        }
        i = i + 1;
    }
    proof {
        assert(s@.take(n as int) =~= prefix@);
    }
    true
}

/// Whether `x` occurs in the list.
pub fn contains_string(list: &Vec<String>, x: &String) -> (r: bool)
    ensures
        r == list.deep_view().contains(x@),
{
    let mut i: usize = 0;
    while i < list.len()
        invariant
            i <= list.len(),
            forall|k: int| 0 <= k < i ==> list.deep_view()[k] != x@,
        decreases list.len() - i,
    {
        if list[i].eq(x) {
            proof {
                assert(list.deep_view()[i as int] == x@);
            }
            return true;
        }
        i = i + 1;
    }
    proof {
        if list.deep_view().contains(x@) {
            let k = choose|k: int| 0 <= k < list.deep_view().len() && list.deep_view()[k] == x@;
            assert(false);
        }
    }
    false
}

/// The path prefix whose endpoints require a known origin.
pub open spec fn guarded_prefix() -> Seq<char> {
    "/language-model"@
}

/// Whether a request may proceed: paths outside the guarded prefix always
/// may; guarded paths require an origin that is among the accepted ones.
pub fn origin_allowed(path: &str, origin: Option<&String>, accepted: &Vec<String>) -> (r: bool)
    ensures
        r == (!is_prefix_of(guarded_prefix(), path@) || (origin matches Some(o)
            && accepted.deep_view().contains(o@))),
{
    if !str_starts_with(path, "/language-model") {
        return true;
    }
    match origin {
        Some(o) => contains_string(accepted, o),
        None => false,
    }
}

} // verus!
