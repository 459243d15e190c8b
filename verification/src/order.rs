//! Total orders on keys, as the sorted containers of this crate see them.
//!
//! Every comparison the containers make goes through [`compare_keys`], whose
//! result is described by [`key_order`]. The lemmas below derive, from the
//! laws that a lawful `Ord` implementation obeys, the facts the containers
//! rely on: transitivity, antisymmetry and substitution of equal keys.
use vstd::prelude::*;
use vstd::laws_cmp::obeys_cmp;
use vstd::laws_cmp::obeys_partial_cmp_spec_properties;
use vstd::laws_cmp::obeys_cmp_ord;
use vstd::laws_cmp::obeys_cmp_partial_ord;
use vstd::laws_eq::obeys_eq_spec_properties;
use vstd::std_specs::cmp::OrdSpec;
use vstd::std_specs::cmp::PartialOrdSpec;
use vstd::std_specs::cmp::PartialEqSpec;
use core::cmp::Ordering;

verus! {

/// The outcome of comparing two keys.
#[derive(Clone, Copy, Debug, PartialEq, Eq, Structural)]
pub enum KeyOrder {
    Less,
    Equal,
    Greater,
}

/// The order of `a` relative to `b`, as given by `T`'s `Ord` implementation.
pub open spec fn key_order<T: Ord>(a: T, b: T) -> KeyOrder {
    match a.cmp_spec(&b) {
        Ordering::Less => KeyOrder::Less,
        Ordering::Equal => KeyOrder::Equal,
        Ordering::Greater => KeyOrder::Greater,
    }
}

/// `T`'s `Ord` implementation is a lawful total order.
pub open spec fn lawful_order<T: Ord>() -> bool {
    obeys_cmp::<T>()
}

/// `a` comes before `b`.
pub open spec fn key_lt<T: Ord>(a: T, b: T) -> bool {
    key_order(a, b) == KeyOrder::Less
}

/// `a` and `b` are equal as keys.
pub open spec fn key_eq<T: Ord>(a: T, b: T) -> bool {
    key_order(a, b) == KeyOrder::Equal
}

/// `a` comes after `b`.
pub open spec fn key_gt<T: Ord>(a: T, b: T) -> bool {
    key_order(a, b) == KeyOrder::Greater
}

/// `a` does not come after `b`.
pub open spec fn key_le<T: Ord>(a: T, b: T) -> bool {
    !key_gt(a, b)
}

/// Compare two keys.
pub fn compare_keys<T: Ord>(a: &T, b: &T) -> (r: KeyOrder)
    requires
        lawful_order::<T>(),
    ensures
        r == key_order(*a, *b),
{
    proof {
        reveal(obeys_cmp_partial_ord);
        reveal(obeys_cmp_ord);
    }
    match a.cmp(b) {
        Ordering::Less => KeyOrder::Less,
        Ordering::Equal => KeyOrder::Equal,
        Ordering::Greater => KeyOrder::Greater,
    }
}

/// The facts about keys that follow from a lawful order.
pub proof fn lemma_order_facts<T: Ord>()
    requires
        lawful_order::<T>(),
    ensures
        forall|a: T| #[trigger] key_order(a, a) == KeyOrder::Equal,
        forall|a: T, b: T|
            #![trigger key_order(a, b)]
            #![trigger key_order(b, a)]
            (key_order(a, b) == KeyOrder::Less <==> key_order(b, a) == KeyOrder::Greater)
            && (key_order(a, b) == KeyOrder::Equal <==> key_order(b, a) == KeyOrder::Equal),
        forall|a: T, b: T, c: T|
            #![trigger key_order(a, b), key_order(b, c)]
            #![trigger key_order(a, b), key_order(a, c)]
            #![trigger key_order(b, c), key_order(a, c)]
            key_le(a, b) && key_le(b, c) ==> key_le(a, c)
                && ((key_lt(a, b) || key_lt(b, c)) ==> key_lt(a, c))
                && (key_eq(a, b) && key_eq(b, c) ==> key_eq(a, c)),
{
    reveal(obeys_partial_cmp_spec_properties);
    reveal(obeys_cmp_ord);
    reveal(obeys_cmp_partial_ord);
    reveal(obeys_eq_spec_properties);
    assert forall|a: T| #[trigger] key_order(a, a) == KeyOrder::Equal by {
        assert(a.partial_cmp_spec(&a) == Some(a.cmp_spec(&a)));
    }
    assert forall|a: T, b: T|
        #![trigger key_order(a, b)]
        #![trigger key_order(b, a)]
        (key_order(a, b) == KeyOrder::Less <==> key_order(b, a) == KeyOrder::Greater)
        && (key_order(a, b) == KeyOrder::Equal <==> key_order(b, a) == KeyOrder::Equal) by {
        assert(a.partial_cmp_spec(&b) == Some(a.cmp_spec(&b)));
        assert(b.partial_cmp_spec(&a) == Some(b.cmp_spec(&a)));
    }
    assert forall|a: T, b: T, c: T|
        #![trigger key_order(a, b), key_order(b, c)]
        #![trigger key_order(a, b), key_order(a, c)]
        #![trigger key_order(b, c), key_order(a, c)]
        key_le(a, b) && key_le(b, c) implies key_le(a, c)
            && ((key_lt(a, b) || key_lt(b, c)) ==> key_lt(a, c))
            && (key_eq(a, b) && key_eq(b, c) ==> key_eq(a, c)) by {
        assert(a.partial_cmp_spec(&b) == Some(a.cmp_spec(&b)));
        assert(b.partial_cmp_spec(&a) == Some(b.cmp_spec(&a)));
        assert(b.partial_cmp_spec(&c) == Some(b.cmp_spec(&c)));
        assert(c.partial_cmp_spec(&b) == Some(c.cmp_spec(&b)));
        assert(a.partial_cmp_spec(&c) == Some(a.cmp_spec(&c)));
        assert(c.partial_cmp_spec(&a) == Some(c.cmp_spec(&a)));
    }
}

} // verus!

verus! {

/// `s` is in non-decreasing order.
pub open spec fn sorted<T: Ord>(s: Seq<T>) -> bool {
    forall|i: int, j: int| 0 <= i < j < s.len() ==> key_le(#[trigger] s[i], #[trigger] s[j])
}

/// `s` is in strictly increasing order: sorted, and no two keys are equal.
pub open spec fn strictly_sorted<T: Ord>(s: Seq<T>) -> bool {
    forall|i: int, j: int| 0 <= i < j < s.len() ==> key_lt(#[trigger] s[i], #[trigger] s[j])
}

/// `s` holds a key equal to `v`.
pub open spec fn holds_key<T: Ord>(s: Seq<T>, v: T) -> bool {
    exists|i: int| 0 <= i < s.len() && key_eq(#[trigger] s[i], v)
}

/// `pos` is where `v` belongs in `s`: every key before it is less than
/// `v`, every key from it on is greater.
pub open spec fn insertion_point<T: Ord>(s: Seq<T>, v: T, pos: int) -> bool {
    &&& 0 <= pos <= s.len()
    &&& forall|j: int| 0 <= j < pos ==> key_lt(#[trigger] s[j], v)
    &&& forall|j: int| pos <= j < s.len() ==> key_gt(#[trigger] s[j], v)
}

/// Binary search for `v` in the sorted slice `s`: `Ok(i)` with `s[i]` equal
/// to `v` when `s` holds such a key, otherwise `Err(i)` with `i` the place
/// where `v` belongs.
pub fn search_sorted<T: Ord>(s: &[T], v: &T) -> (r: Result<usize, usize>)
    requires
        lawful_order::<T>(),
        sorted(s@),
    ensures
        match r {
            Ok(i) => i < s@.len() && key_eq(s@[i as int], *v),
            Err(i) => insertion_point(s@, *v, i as int),
        },
        r is Ok <==> holds_key(s@, *v),
{
    proof { lemma_order_facts::<T>(); }
    let mut lo: usize = 0;
    let mut hi: usize = s.len();
    while lo < hi
        invariant
            lawful_order::<T>(),
            sorted(s@),
            0 <= lo <= hi <= s@.len(),
            forall|j: int| 0 <= j < lo ==> key_lt(#[trigger] s@[j], *v),
            forall|j: int| hi <= j < s@.len() ==> key_gt(#[trigger] s@[j], *v),
        decreases hi - lo,
    {
        proof { lemma_order_facts::<T>(); }
        let mid: usize = lo + (hi - lo) / 2;
        match compare_keys(&s[mid], v) {
            KeyOrder::Less => {
                assert forall|j: int| 0 <= j <= mid implies key_lt(#[trigger] s@[j], *v) by {
                    if j < mid {
                        assert(key_le(s@[j], s@[mid as int]));
                    }
                }
                lo = mid + 1;
            },
            KeyOrder::Equal => {
                return Ok(mid);
            },
            KeyOrder::Greater => {
                assert forall|j: int| mid <= j < s@.len() implies key_gt(#[trigger] s@[j], *v) by {
                    if j > mid {
                        assert(key_le(s@[mid as int], s@[j]));
                        assert(key_lt(*v, s@[mid as int]));
                    }
                }
                hi = mid;
            },
        }
    }
    proof {
        assert forall|j: int| 0 <= j < s@.len() implies !key_eq(#[trigger] s@[j], *v) by {
            if j < lo {
                assert(key_lt(s@[j], *v));
            } else {
                assert(key_gt(s@[j], *v));
            }
        }
    }
    Err(lo)
}

/// Whether `data` is in non-decreasing order, checked pair by adjacent pair.
pub fn is_sorted<T: Ord>(data: &[T]) -> (r: bool)
    requires
        lawful_order::<T>(),
    ensures
        r == sorted(data@),
{
    proof { lemma_order_facts::<T>(); }
    let n = data.len();
    if n < 2 {
        return true;
    }
    let mut i: usize = 1;
    while i < n
        invariant
            lawful_order::<T>(),
            n == data@.len(),
            1 <= i <= n,
            forall|a: int, b: int| 0 <= a < b < i ==> key_le(#[trigger] data@[a], #[trigger] data@[b]),
        decreases n - i,
    {
        proof { lemma_order_facts::<T>(); }
        if compare_keys(&data[i - 1], &data[i]) == KeyOrder::Greater {
            assert(!key_le(data@[i - 1], data@[i as int]));
            return false;
        }
        assert forall|a: int, b: int| 0 <= a < b < i + 1 implies key_le(#[trigger] data@[a], #[trigger] data@[b]) by {
            if b == i && a < i - 1 {
                assert(key_le(data@[a], data@[i - 1]));
            }
        }
        i = i + 1;
    }
    true
}

} // verus!

verus! {

/// Inserting a key at its insertion point keeps a sequence sorted.
pub proof fn lemma_insert_sorted<T: Ord>(s: Seq<T>, v: T, pos: int)
    requires
        lawful_order::<T>(),
        sorted(s),
        insertion_point(s, v, pos),
    ensures
        sorted(s.insert(pos, v)),
        strictly_sorted(s) ==> strictly_sorted(s.insert(pos, v)),
{
    lemma_order_facts::<T>();
    let t = s.insert(pos, v);
    assert forall|i: int, j: int| 0 <= i < j < t.len() implies key_le(#[trigger] t[i], #[trigger] t[j]) by {
        if j < pos {
            assert(t[i] == s[i] && t[j] == s[j]);
        } else if j == pos {
            assert(t[i] == s[i] && key_lt(s[i], v));
        } else if i < pos {
            assert(t[i] == s[i] && t[j] == s[j - 1]);
        } else if i == pos {
            assert(t[j] == s[j - 1] && key_gt(s[j - 1], v));
        } else {
            assert(t[i] == s[i - 1] && t[j] == s[j - 1]);
        }
    }
    if strictly_sorted(s) {
        assert forall|i: int, j: int| 0 <= i < j < t.len() implies key_lt(#[trigger] t[i], #[trigger] t[j]) by {
            if j < pos {
                assert(t[i] == s[i] && t[j] == s[j]);
            } else if j == pos {
                assert(t[i] == s[i] && key_lt(s[i], v));
            } else if i < pos {
                assert(t[i] == s[i] && t[j] == s[j - 1]);
            } else if i == pos {
                assert(t[j] == s[j - 1] && key_gt(s[j - 1], v));
            } else {
                assert(t[i] == s[i - 1] && t[j] == s[j - 1]);
            }
        }
    }
}

/// Removing any key keeps a sequence sorted.
pub proof fn lemma_remove_sorted<T: Ord>(s: Seq<T>, pos: int)
    requires
        0 <= pos < s.len(),
    ensures
        sorted(s) ==> sorted(s.remove(pos)),
        strictly_sorted(s) ==> strictly_sorted(s.remove(pos)),
{
    let t = s.remove(pos);
    if sorted(s) {
        assert forall|i: int, j: int| 0 <= i < j < t.len() implies key_le(#[trigger] t[i], #[trigger] t[j]) by {
            let a = if i < pos { i } else { i + 1 };
            let b = if j < pos { j } else { j + 1 };
            assert(t[i] == s[a] && t[j] == s[b]);
        }
    }
    if strictly_sorted(s) {
        assert forall|i: int, j: int| 0 <= i < j < t.len() implies key_lt(#[trigger] t[i], #[trigger] t[j]) by {
            let a = if i < pos { i } else { i + 1 };
            let b = if j < pos { j } else { j + 1 };
            assert(t[i] == s[a] && t[j] == s[b]);
        }
    }
}

/// In a strictly sorted sequence, at most one key equals `v`.
pub proof fn lemma_unique_key<T: Ord>(s: Seq<T>, v: T, i: int, j: int)
    requires
        lawful_order::<T>(),
        strictly_sorted(s),
        0 <= i < s.len(),
        0 <= j < s.len(),
        key_eq(s[i], v),
        key_eq(s[j], v),
    ensures
        i == j,
{
    lemma_order_facts::<T>();
    if i < j {
        assert(key_lt(s[i], s[j]));
        assert(key_eq(v, s[j]));
    } else if j < i {
        assert(key_lt(s[j], s[i]));
        assert(key_eq(v, s[i]));
    }
}

} // verus!
