//! Association lists keyed by strings: the in-memory representation of the
//! ordered name-to-value maps used for collections and sessions. Keys are
//! unique; entries keep their insertion order.
use vstd::prelude::*;

verus! {

/// No two entries of the sequence share a key (compared as character
/// sequences).
pub open spec fn uniq_keys<V>(s: Seq<(Seq<char>, V)>) -> bool {
    forall|i: int, j: int| 0 <= i < j < s.len() ==> s[i].0 != s[j].0
}

/// Some entry of the sequence has the key `k`.
pub open spec fn has_key<V>(s: Seq<(Seq<char>, V)>, k: Seq<char>) -> bool {
    exists|i: int| 0 <= i < s.len() && s[i].0 == k
}

/// The index of the entry with key `k` (meaningful only when `has_key`;
/// unique when the keys are unique).
pub open spec fn key_at<V>(s: Seq<(Seq<char>, V)>, k: Seq<char>) -> int {
    choose|i: int| 0 <= i < s.len() && s[i].0 == k
}

/// The value stored under key `k` (meaningful only when `has_key`).
pub open spec fn val_at<V>(s: Seq<(Seq<char>, V)>, k: Seq<char>) -> V {
    s[key_at(s, k)].1
}

/// With unique keys, any index holding `k` is the one `key_at` names.
pub proof fn lemma_key_at_unique<V>(s: Seq<(Seq<char>, V)>, k: Seq<char>, i: int)
    requires
        uniq_keys(s),
        0 <= i < s.len(),
        s[i].0 == k,
    ensures
        has_key(s, k),
        key_at(s, k) == i,
{
    assert(has_key(s, k));
    let j = key_at(s, k);
    assert(0 <= j < s.len() && s[j].0 == k);
    if i < j {
        assert(s[i].0 != s[j].0);
    } else if j < i {
        assert(s[j].0 != s[i].0);
    }
}

/// Finds the index of the entry whose key equals `key`, if any.
pub fn assoc_find<V>(entries: &Vec<(String, V)>, key: &String) -> (r: Option<usize>)
    ensures
        match r {
            Some(i) => 0 <= i < entries@.len() && entries@[i as int].0@ == key@,
            None => forall|j: int| 0 <= j < entries@.len() ==> entries@[j].0@ != key@,
        },
{
    let mut i: usize = 0;
    while i < entries.len()
        invariant
            i <= entries@.len(),
            forall|j: int| 0 <= j < i ==> entries@[j].0@ != key@,
        decreases entries@.len() - i,
    {
        if entries[i].0 == *key {
            return Some(i);
        }
        i += 1;
    }
    None
}

} // verus!
