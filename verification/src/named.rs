//! Association lists keyed by name: the first entry with a given name is
//! the one that counts.
use vstd::prelude::*;
use crate::text::str_eq;

verus! {

/// `k` is the first position of `s` whose name is `n`.
pub open spec fn is_first_named<T>(s: Seq<(String, T)>, n: Seq<char>, k: int) -> bool {
    &&& 0 <= k < s.len()
    &&& s[k].0@ == n
    &&& forall|j: int| 0 <= j < k ==> s[j].0@ != n
}

/// Whether some entry of `s` is named `n`.
pub open spec fn has_name<T>(s: Seq<(String, T)>, n: Seq<char>) -> bool {
    exists|k: int| 0 <= k < s.len() && s[k].0@ == n
}

/// The value of the first entry named `n`.
pub open spec fn lookup_named<T>(s: Seq<(String, T)>, n: Seq<char>) -> Option<T> {
    if exists|k: int| is_first_named(s, n, k) {
        Some(s[choose|k: int| is_first_named(s, n, k)].1)
    } else {
        None
    }
}

/// There is one first position.
pub proof fn lemma_first_named_unique<T>(s: Seq<(String, T)>, n: Seq<char>, a: int, b: int)
    requires
        is_first_named(s, n, a),
        is_first_named(s, n, b),
    ensures
        a == b,
{
}

/// A name that occurs has a first occurrence, and `lookup_named` gives its
/// value.
pub proof fn lemma_lookup_named<T>(s: Seq<(String, T)>, n: Seq<char>, k: int)
    requires
        is_first_named(s, n, k),
    ensures
        lookup_named(s, n) == Some(s[k].1),
{
    let c = choose|c: int| is_first_named(s, n, c);
    lemma_first_named_unique(s, n, c, k);
}

/// Position of the first entry named `name`.
pub fn find_named<T>(v: &Vec<(String, T)>, name: &str) -> (r: Option<usize>)
    ensures
        match r {
            Some(k) => is_first_named(v@, name@, k as int) && lookup_named(v@, name@) == Some(
                v@[k as int].1,
            ),
            None => !has_name(v@, name@) && lookup_named(v@, name@) is None,
        },
{
    let mut i: usize = 0;
    while i < v.len()
        invariant
            i <= v@.len(),
            forall|j: int| 0 <= j < i ==> v@[j].0@ != name@,
        decreases v@.len() - i,
    {
        if str_eq(v[i].0.as_str(), name) {
            proof { lemma_lookup_named(v@, name@, i as int); }
            return Some(i);
        }
        i += 1;
    }
    None
}

/// Whether `v` holds a string equal to `name`.
pub fn contains_str(v: &Vec<String>, name: &str) -> (r: bool)
    ensures
        r == exists|k: int| 0 <= k < v@.len() && v@[k]@ == name@,
{
    let mut i: usize = 0;
    while i < v.len()
        invariant
            i <= v@.len(),
            forall|j: int| 0 <= j < i ==> v@[j]@ != name@,
        decreases v@.len() - i,
    {
        if str_eq(v[i].as_str(), name) {
            return true;
        }
        i += 1;
    }
    false
}

} // verus!
