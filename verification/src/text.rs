use vstd::prelude::*;

use vstd::string::StrSliceExecFns;

verus! {

/// Whether `needle` occurs in `hay` starting at position `i`.
pub open spec fn matches_at(hay: Seq<char>, needle: Seq<char>, i: int) -> bool {
    forall|k: int| 0 <= k < needle.len() ==> hay[i + k] == needle[k]
}

/// Whether `needle` occurs somewhere in `hay`; an empty needle occurs in
/// everything.
pub open spec fn contains_seq(hay: Seq<char>, needle: Seq<char>) -> bool {
    exists|i: int| 0 <= i <= hay.len() - needle.len() && matches_at(hay, needle, i)
}

/// Substring search over characters: true exactly when the needle occurs in
/// the haystack.
pub fn str_contains(hay: &str, needle: &str) -> (r: bool)
    ensures
        r == contains_seq(hay@, needle@),
{
    let hn = hay.unicode_len();
    let nn = needle.unicode_len();
    if nn > hn {
        return false;
    }
    let mut i: usize = 0;
    while i <= hn - nn
        invariant
            hn == hay@.len(),
            nn == needle@.len(),
            nn <= hn,
            0 <= i <= hn - nn + 1,
            forall|j: int| 0 <= j < i ==> !matches_at(hay@, needle@, j),
        decreases hn - nn + 1 - i,
    {
        let mut k: usize = 0;
        let mut diverged: bool = false;
        while k < nn && !diverged
            invariant
                hn == hay@.len(),
                nn == needle@.len(),
                nn <= hn,
                0 <= i <= hn - nn,
                0 <= k <= nn,
                !diverged ==> forall|t: int| 0 <= t < k ==> hay@[i + t] == needle@[t],
                diverged ==> !matches_at(hay@, needle@, i as int),
            decreases nn - k + if diverged {
                0int
            } else {
                1int
            },
        {
            if hay.get_char(i + k) == needle.get_char(k) {
                k = k + 1;
            } else {
                diverged = true;
            }
        }
        if !diverged {
            proof {
                assert(matches_at(hay@, needle@, i as int));
            }
            return true;
        }
        i = i + 1;
    }
    proof {
        assert forall|j: int| 0 <= j <= hay@.len() - needle@.len() implies !matches_at(
            hay@,
            needle@,
            j,
        ) by {}
    }
    false
}

/// Relies on `String::push_str`: the string grows by exactly the appended
/// characters.
pub assume_specification [ String::push_str ](s: &mut String, other: &str)
    ensures
        final(s)@ == old(s)@ + other@,
;

/// The condition label an attack-scoped modifier carries for a designated
/// target: the target's name under an `attacking_` prefix, matched later by
/// containment.
pub fn attack_condition_label(target_name: &str) -> (r: String)
    ensures
        r@ == "attacking_"@ + target_name@,
{
    let mut s: String = "attacking_".to_owned();
    s.push_str(target_name);
    s
}

} // verus!
