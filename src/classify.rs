//! Dependency classification: plain libraries versus platform-specific
//! native bundles.

use crate::descriptor::JsonLibrary;
use crate::rules::{evaluate_rules, rules_outcome, Platform};
use vstd::prelude::*;
use vstd::string::StrSliceExecFns;

verus! {

/// The classified dependencies of a version, each list in declaration
/// order.
pub struct Libraries {
    pub libs: Vec<JsonLibrary>,
    pub natives: Vec<JsonLibrary>,
}

/// Whether `w` occurs in `s` as a contiguous run.
pub open spec fn has_substring(s: Seq<char>, w: Seq<char>) -> bool {
    exists|i: int| 0 <= i && i + w.len() <= s.len() && #[trigger] s.subrange(i, i + w.len()) == w
}

/// The word that marks a native bundle in a coordinate.
pub open spec fn natives_word() -> Seq<char> {
    seq!['n', 'a', 't', 'i', 'v', 'e', 's']
}

/// Whether a dependency may be a native bundle: its coordinate holds the
/// word "natives", or it declares a non-empty classifier map.
pub open spec fn is_native_candidate(d: JsonLibrary) -> bool {
    has_substring(d.name@, natives_word()) || (d.natives matches Some(m) && m@.len() > 0)
}

/// Whether a dependency is a native bundle on the platform: a candidate
/// without rules, or one whose rules include the platform.
pub open spec fn is_native(d: JsonLibrary, p: Platform) -> bool {
    is_native_candidate(d) && match d.rules {
        None => true,
        Some(rs) => rules_outcome(rs@, p, true),
    }
}

/// The dependencies that are plain libraries, in order.
pub open spec fn plain_libraries(deps: Seq<JsonLibrary>) -> Seq<JsonLibrary>
    decreases deps.len(),
{
    if deps.len() == 0 {
        Seq::empty()
    } else if is_native_candidate(deps.last()) {
        plain_libraries(deps.drop_last())
    } else {
        plain_libraries(deps.drop_last()).push(deps.last())
    }
}

/// The dependencies that are native bundles on the platform, in order.
pub open spec fn native_bundles(deps: Seq<JsonLibrary>, p: Platform) -> Seq<JsonLibrary>
    decreases deps.len(),
{
    if deps.len() == 0 {
        Seq::empty()
    } else if is_native(deps.last(), p) {
        native_bundles(deps.drop_last(), p).push(deps.last())
    } else {
        native_bundles(deps.drop_last(), p)
    }
}

/// Whether `w` occurs in `s`.
pub fn contains_substring(s: &str, w: &str) -> (r: bool)
    ensures
        r == has_substring(s@, w@),
{
    let n = s.unicode_len();
    let m = w.unicode_len();
    if m > n {
        proof {
            assert forall|i: int| 0 <= i && i + w@.len() <= s@.len() implies #[trigger] s@.subrange(
                i,
                i + w@.len(),
            ) != w@ by {}
        }
        return false;
    }
    let mut i: usize = 0;
    while i <= n - m
        invariant
            n == s@.len(),
            m == w@.len(),
            m <= n,
            i <= n - m + 1,
            forall|k: int| 0 <= k < i ==> #[trigger] s@.subrange(k, k + m) != w@,
        decreases n - m + 1 - i,
    {
        let mut j: usize = 0;
        while j < m && s.get_char(i + j) == w.get_char(j)
            invariant
                n == s@.len(),
                m == w@.len(),
                i + m <= n,
                j <= m,
                forall|k: int| 0 <= k < j ==> s@[i + k] == w@[k],
            decreases m - j,
        {
            j = j + 1;
        }
        if j == m {
            proof {
                assert(s@.subrange(i as int, i + m) =~= w@);
            }
            return true;
        }
        proof {
            assert(s@.subrange(i as int, i + m)[j as int] != w@[j as int]);
        }
        i = i + 1;
    }
    false
}

/// Whether a dependency may be a native bundle.
pub fn native_candidate(d: &JsonLibrary) -> (r: bool)
    ensures
        r == is_native_candidate(*d),
{
    proof {
        reveal_strlit("natives");
    }
    let word = "natives";
    proof {
        assert(word@ =~= natives_word());
    }
    if contains_substring(d.name.as_str(), word) {
        return true;
    }
    match &d.natives {
        Some(m) => m.len() > 0,
        None => false,
    }
}

/// Whether a dependency is a native bundle on the platform.
pub fn native_on(d: &JsonLibrary, platform: &Platform) -> (r: bool)
    ensures
        r == is_native(*d, *platform),
{
    if !native_candidate(d) {
        return false;
    }
    match &d.rules {
        None => true,
        Some(rs) => evaluate_rules(rs, platform, true),
    }
}

/// Splits dependencies into plain libraries and the native bundles of the
/// platform. Candidates that the platform's rules exclude are in neither
/// list.
pub fn classify(deps: Vec<JsonLibrary>, platform: &Platform) -> (r: Libraries)
    ensures
        r.libs@ == plain_libraries(deps@),
        r.natives@ == native_bundles(deps@, *platform),
{
    let ghost all = deps@;
    let mut rest = deps;
    let mut libs: Vec<JsonLibrary> = Vec::new();
    let mut natives: Vec<JsonLibrary> = Vec::new();
    let ghost mut k: int = 0;
    proof {
        assert(all.take(0) =~= Seq::<JsonLibrary>::empty());
        assert(all.skip(0) =~= all);
    }
    while rest.len() > 0
        invariant
            0 <= k <= all.len(),
            rest@ == all.skip(k),
            libs@ == plain_libraries(all.take(k)),
            natives@ == native_bundles(all.take(k), *platform),
        decreases rest@.len(),
    {
        let d = rest.remove(0);
        proof {
            assert(d == all[k]);
            assert(all.take(k + 1).drop_last() =~= all.take(k));
            assert(all.take(k + 1).last() == d);
        }
        if native_candidate(&d) {
            if native_on(&d, platform) {
                natives.push(d);
            }
        } else {
            libs.push(d);
        }
        proof {
            assert(rest@ =~= all.skip(k + 1));
            k = k + 1;
        }
    }
    proof {
        assert(all.take(k) =~= all);
    }
    Libraries { libs, natives }
}

/// A dependency whose coordinate lacks the word "natives" and which has no
/// classifier map is a plain library, whatever its rules say.
pub proof fn lemma_plain_dependency_is_library(deps: Seq<JsonLibrary>, d: JsonLibrary, p: Platform)
    requires
        !has_substring(d.name@, natives_word()),
        d.natives is None,
    ensures
        plain_libraries(deps.push(d)) == plain_libraries(deps).push(d),
        native_bundles(deps.push(d), p) == native_bundles(deps, p),
{
    assert(deps.push(d).drop_last() =~= deps);
}

} // verus!
