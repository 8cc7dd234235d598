//! Spec-level vocabulary for sequences of keyed items: membership by
//! identity, the first matching position, and distinctness of identities.

use vstd::prelude::*;
use crate::types::{Identity, Keyed};

verus! {

/// Some element of `s` carries the identity `x`.
pub open spec fn has_key<T: Keyed>(s: Seq<T>, x: Identity) -> bool {
    exists|i: int| 0 <= i < s.len() && #[trigger] s[i].key_spec() == x
}

/// `i` is the first position of `s` whose element carries `x`.
pub open spec fn is_first_match<T: Keyed>(s: Seq<T>, x: Identity, i: int) -> bool {
    &&& 0 <= i < s.len()
    &&& s[i].key_spec() == x
    &&& forall|j: int| 0 <= j < i ==> #[trigger] s[j].key_spec() != x
}

/// The first position of `s` whose element carries `x`; meaningful only when
/// `has_key(s, x)` holds.
pub open spec fn first_match<T: Keyed>(s: Seq<T>, x: Identity) -> int {
    choose|i: int| is_first_match(s, x, i)
}

/// No two elements of `s` carry the same identity.
pub open spec fn distinct_keys<T: Keyed>(s: Seq<T>) -> bool {
    forall|i: int, j: int|
        #![trigger s[i].key_spec(), s[j].key_spec()]
        0 <= i < j < s.len() ==> s[i].key_spec() != s[j].key_spec()
}

/// Below any matching position sits a first match.
proof fn lemma_first_match_below<T: Keyed>(s: Seq<T>, x: Identity, k: int)
    requires
        0 <= k < s.len(),
        s[k].key_spec() == x,
    ensures
        exists|i: int| is_first_match(s, x, i),
    decreases k,
{
    if forall|j: int| 0 <= j < k ==> #[trigger] s[j].key_spec() != x {
        assert(is_first_match(s, x, k));
    } else {
        let j = choose|j: int| 0 <= j < k && #[trigger] s[j].key_spec() == x;
        lemma_first_match_below(s, x, j);
    }
}

/// A sequence that holds `x` somewhere has a well-defined first match.
pub proof fn lemma_first_match_exists<T: Keyed>(s: Seq<T>, x: Identity)
    requires
        has_key(s, x),
    ensures
        is_first_match(s, x, first_match(s, x)),
{
    let k = choose|i: int| 0 <= i < s.len() && #[trigger] s[i].key_spec() == x;
    lemma_first_match_below(s, x, k);
    assert(is_first_match(s, x, first_match(s, x)));
}

/// Any position that is a first match is the unique one `first_match` names.
pub proof fn lemma_first_match_agrees<T: Keyed>(s: Seq<T>, x: Identity, i: int)
    requires
        is_first_match(s, x, i),
    ensures
        has_key(s, x),
        first_match(s, x) == i,
{
    assert(has_key(s, x));
    assert(exists|k: int| is_first_match(s, x, k));
    let f = first_match(s, x);
    assert(is_first_match(s, x, f));
    if f < i {
        assert(s[f].key_spec() == x);
        assert(false);
    }
    if i < f {
        assert(s[i].key_spec() == x);
        assert(false);
    }
}

/// Pushing `t` adds exactly `t`'s key to the keys present in the sequence.
pub proof fn lemma_push_has_key<T: Keyed>(s: Seq<T>, t: T, y: Identity)
    ensures
        has_key(s.push(t), y) <==> (has_key(s, y) || t.key_spec() == y),
{
    if has_key(s.push(t), y) {
        let i = choose|i: int| 0 <= i < s.push(t).len() && #[trigger] s.push(t)[i].key_spec() == y;
        if i < s.len() {
            assert(s[i].key_spec() == y);
        } else {
            assert(s.push(t)[i] == t);
        }
    }
    if has_key(s, y) {
        let i = choose|i: int| 0 <= i < s.len() && #[trigger] s[i].key_spec() == y;
        assert(s.push(t)[i].key_spec() == y);
    }
    if t.key_spec() == y {
        assert(s.push(t)[s.len() as int].key_spec() == y);
    }
}

/// Pushing a fresh key keeps the keys distinct.
pub proof fn lemma_push_distinct<T: Keyed>(s: Seq<T>, t: T)
    requires
        distinct_keys(s),
        !has_key(s, t.key_spec()),
    ensures
        distinct_keys(s.push(t)),
{
    assert forall|i: int, j: int|
        0 <= i < j < s.push(t).len() implies s.push(t)[i].key_spec() != s.push(t)[j].key_spec() by {
        if j == s.len() {
            assert(s.push(t)[i] == s[i]);
            assert(s.push(t)[j] == t);
            if s[i].key_spec() == t.key_spec() {
                assert(has_key(s, t.key_spec()));
            }
        } else {
            assert(s.push(t)[i] == s[i]);
            assert(s.push(t)[j] == s[j]);
        }
    }
}

/// A key present after a removal was present before it.
pub proof fn lemma_remove_has_key<T: Keyed>(s: Seq<T>, i: int, y: Identity)
    requires
        0 <= i < s.len(),
    ensures
        has_key(s.remove(i), y) ==> has_key(s, y),
{
    s.remove_ensures(i);
    if has_key(s.remove(i), y) {
        let k = choose|k: int|
            0 <= k < s.remove(i).len() && #[trigger] s.remove(i)[k].key_spec() == y;
        if k < i {
            assert(s[k].key_spec() == y);
        } else {
            assert(s[k + 1].key_spec() == y);
        }
    }
}

/// Removing the one position that carries a key keeps the rest distinct and
/// leaves that key wholly absent.
pub proof fn lemma_remove_distinct<T: Keyed>(s: Seq<T>, i: int)
    requires
        distinct_keys(s),
        0 <= i < s.len(),
    ensures
        distinct_keys(s.remove(i)),
        !has_key(s.remove(i), s[i].key_spec()),
{
    s.remove_ensures(i);
    assert forall|p: int, q: int|
        0 <= p < q < s.remove(i).len() implies s.remove(i)[p].key_spec() != s.remove(i)[q].key_spec() by {
        let p0: int = if p < i { p } else { p + 1 };
        let q0: int = if q < i { q } else { q + 1 };
        assert(s.remove(i)[p] == s[p0]);
        assert(s.remove(i)[q] == s[q0]);
        assert(s[p0].key_spec() != s[q0].key_spec());
    }
    if has_key(s.remove(i), s[i].key_spec()) {
        let k = choose|k: int|
            0 <= k < s.remove(i).len() && #[trigger] s.remove(i)[k].key_spec() == s[i].key_spec();
        if k < i {
            assert(s[k].key_spec() == s[i].key_spec());
            assert(false);
        } else {
            assert(s[k + 1].key_spec() == s[i].key_spec());
            assert(false);
        }
    }
}

} // verus!
