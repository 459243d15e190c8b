//! Iterators over the keys, the values and the entries of an
//! `AllocatedVectorMap`, in increasing order of keys.
use vstd::prelude::*;
use super::allocated::AllocatedVectorMap;

verus! {

/// An iterator over the keys of a map.
pub struct Keys<'a, K> {
    keys: &'a [K],
    front: usize,
    back: usize,
}

impl<'a, K> Keys<'a, K> {
    /// The keys still to come, in order.
    pub closed spec fn remaining(&self) -> Seq<K> {
        self.keys@.subrange(self.front as int, self.back as int)
    }

    pub closed spec fn wf(&self) -> bool {
        self.front <= self.back <= self.keys@.len()
    }

    /// An iterator over every key of `keys`.
    pub fn new(keys: &'a [K]) -> (r: Self)
        ensures
            r.wf(),
            r.remaining() == keys@,
    {
        let r = Keys { keys, front: 0, back: keys.len() };
        assert(r.remaining() =~= keys@);
        r
    }

    /// The next key from the front.
    pub fn next(&mut self) -> (r: Option<&'a K>)
        requires
            old(self).wf(),
        ensures
            final(self).wf(),
            old(self).remaining().len() == 0 ==> r is None && final(self).remaining() == old(self).remaining(),
            old(self).remaining().len() > 0 ==> r == Some(&old(self).remaining()[0])
                && final(self).remaining() == old(self).remaining().drop_first(),
    {
        if self.front < self.back {
            let keys: &'a [K] = self.keys;
            let r = &keys[self.front];
            self.front = self.front + 1;
            assert(self.remaining() =~= old(self).remaining().drop_first());
            Some(r)
        } else {
            None
        }
    }

    /// The next key from the back.
    pub fn next_back(&mut self) -> (r: Option<&'a K>)
        requires
            old(self).wf(),
        ensures
            final(self).wf(),
            old(self).remaining().len() == 0 ==> r is None && final(self).remaining() == old(self).remaining(),
            old(self).remaining().len() > 0 ==> r == Some(&old(self).remaining().last())
                && final(self).remaining() == old(self).remaining().drop_last(),
    {
        if self.front < self.back {
            let keys: &'a [K] = self.keys;
            self.back = self.back - 1;
            let r = &keys[self.back];
            assert(self.remaining() =~= old(self).remaining().drop_last());
            Some(r)
        } else {
            None
        }
    }

    /// How many keys are still to come, as a lower and an upper bound.
    pub fn size_hint(&self) -> (r: (usize, Option<usize>))
        requires
            self.wf(),
        ensures
            r.0 == self.remaining().len(),
            r.1 == Some(r.0),
    {
        let n = self.back - self.front;
        (n, Some(n))
    }
}

/// An iterator over the values of a map.
pub struct Values<'a, V> {
    values: &'a [V],
    front: usize,
    back: usize,
}

impl<'a, V> Values<'a, V> {
    /// The values still to come, in order.
    pub closed spec fn remaining(&self) -> Seq<V> {
        self.values@.subrange(self.front as int, self.back as int)
    }

    pub closed spec fn wf(&self) -> bool {
        self.front <= self.back <= self.values@.len()
    }

    /// An iterator over every value of `values`.
    pub fn new(values: &'a [V]) -> (r: Self)
        ensures
            r.wf(),
            r.remaining() == values@,
    {
        let r = Values { values, front: 0, back: values.len() };
        assert(r.remaining() =~= values@);
        r
    }

    /// The next value from the front.
    pub fn next(&mut self) -> (r: Option<&'a V>)
        requires
            old(self).wf(),
        ensures
            final(self).wf(),
            old(self).remaining().len() == 0 ==> r is None && final(self).remaining() == old(self).remaining(),
            old(self).remaining().len() > 0 ==> r == Some(&old(self).remaining()[0])
                && final(self).remaining() == old(self).remaining().drop_first(),
    {
        if self.front < self.back {
            let values: &'a [V] = self.values;
            let r = &values[self.front];
            self.front = self.front + 1;
            assert(self.remaining() =~= old(self).remaining().drop_first());
            Some(r)
        } else {
            None
        }
    }

    /// The next value from the back.
    pub fn next_back(&mut self) -> (r: Option<&'a V>)
        requires
            old(self).wf(),
        ensures
            final(self).wf(),
            old(self).remaining().len() == 0 ==> r is None && final(self).remaining() == old(self).remaining(),
            old(self).remaining().len() > 0 ==> r == Some(&old(self).remaining().last())
                && final(self).remaining() == old(self).remaining().drop_last(),
    {
        if self.front < self.back {
            let values: &'a [V] = self.values;
            self.back = self.back - 1;
            let r = &values[self.back];
            assert(self.remaining() =~= old(self).remaining().drop_last());
            Some(r)
        } else {
            None
        }
    }

    /// How many values are still to come, as a lower and an upper bound.
    pub fn size_hint(&self) -> (r: (usize, Option<usize>))
        requires
            self.wf(),
        ensures
            r.0 == self.remaining().len(),
            r.1 == Some(r.0),
    {
        let n = self.back - self.front;
        (n, Some(n))
    }
}

/// An iterator over the entries of a map, as pairs of a key and its value.
pub struct Iter<'a, K, V> {
    keys: &'a [K],
    values: &'a [V],
    front: usize,
    back: usize,
}

impl<'a, K, V> Iter<'a, K, V> {
    /// The keys still to come, in order.
    pub closed spec fn remaining_keys(&self) -> Seq<K> {
        self.keys@.subrange(self.front as int, self.back as int)
    }

    /// The values still to come, in the order of their keys.
    pub closed spec fn remaining_values(&self) -> Seq<V> {
        self.values@.subrange(self.front as int, self.back as int)
    }

    pub closed spec fn wf(&self) -> bool {
        &&& self.front <= self.back <= self.keys@.len()
        &&& self.keys@.len() == self.values@.len()
    }

    /// An iterator over `keys` and `values` paired up.
    pub fn new(keys: &'a [K], values: &'a [V]) -> (r: Self)
        requires
            keys@.len() == values@.len(),
        ensures
            r.wf(),
            r.remaining_keys() == keys@,
            r.remaining_values() == values@,
    {
        let r = Iter { keys, values, front: 0, back: keys.len() };
        assert(r.remaining_keys() =~= keys@);
        assert(r.remaining_values() =~= values@);
        r
    }

    /// The next entry from the front.
    pub fn next(&mut self) -> (r: Option<(&'a K, &'a V)>)
        requires
            old(self).wf(),
        ensures
            final(self).wf(),
            old(self).remaining_keys().len() == 0 ==> r is None && final(self).remaining_keys()
                == old(self).remaining_keys() && final(self).remaining_values() == old(
                self).remaining_values(),
            old(self).remaining_keys().len() > 0 ==> r == Some(
                (&old(self).remaining_keys()[0], &old(self).remaining_values()[0]),
            ) && final(self).remaining_keys() == old(self).remaining_keys().drop_first() && final(
                self).remaining_values() == old(self).remaining_values().drop_first(),
    {
        if self.front < self.back {
            let keys: &'a [K] = self.keys;
            let values: &'a [V] = self.values;
            let r = (&keys[self.front], &values[self.front]);
            self.front = self.front + 1;
            assert(self.remaining_keys() =~= old(self).remaining_keys().drop_first());
            assert(self.remaining_values() =~= old(self).remaining_values().drop_first());
            Some(r)
        } else {
            None
        }
    }

    /// The next entry from the back.
    pub fn next_back(&mut self) -> (r: Option<(&'a K, &'a V)>)
        requires
            old(self).wf(),
        ensures
            final(self).wf(),
            old(self).remaining_keys().len() == 0 ==> r is None && final(self).remaining_keys()
                == old(self).remaining_keys() && final(self).remaining_values() == old(
                self).remaining_values(),
            old(self).remaining_keys().len() > 0 ==> r == Some(
                (&old(self).remaining_keys().last(), &old(self).remaining_values().last()),
            ) && final(self).remaining_keys() == old(self).remaining_keys().drop_last() && final(
                self).remaining_values() == old(self).remaining_values().drop_last(),
    {
        if self.front < self.back {
            let keys: &'a [K] = self.keys;
            let values: &'a [V] = self.values;
            self.back = self.back - 1;
            let r = (&keys[self.back], &values[self.back]);
            assert(self.remaining_keys() =~= old(self).remaining_keys().drop_last());
            assert(self.remaining_values() =~= old(self).remaining_values().drop_last());
            Some(r)
        } else {
            None
        }
    }

    /// How many entries are still to come, as a lower and an upper bound.
    pub fn size_hint(&self) -> (r: (usize, Option<usize>))
        requires
            self.wf(),
        ensures
            r.0 == self.remaining_keys().len(),
            r.1 == Some(r.0),
    {
        let n = self.back - self.front;
        (n, Some(n))
    }
}

} // verus!

verus! {

/// An iterator over the values of a map, each value for writing, from
/// either end. Each value it hands out stays borrowed until the next call.
pub struct ValuesMut<'a, K: Ord, V> {
    this: &'a mut AllocatedVectorMap<K, V>,
    front: usize,
    back: usize,
}

impl<'a, K: Ord, V> ValuesMut<'a, K, V> {
    /// The map being iterated over.
    pub closed spec fn target(&self) -> &'a mut AllocatedVectorMap<K, V> {
        self.this
    }

    /// Once the iterator is no longer used, the map it borrowed ends up
    /// holding what the iterator's target holds at that point.
    pub broadcast proof fn lemma_resolved(self)
        ensures
            #[trigger] has_resolved(self) ==> *final(self.target()) == *self.target(),
    {
    }

    /// The position of the next value from the front.
    pub closed spec fn position(&self) -> int {
        self.front as int
    }

    /// The position just past the next value from the back.
    pub closed spec fn end(&self) -> int {
        self.back as int
    }

    pub open spec fn wf(&self) -> bool {
        &&& self.target().wf()
        &&& 0 <= self.position() <= self.end() <= self.target().size()
    }

    /// An iterator over every value of `this`.
    pub fn new(this: &'a mut AllocatedVectorMap<K, V>) -> (r: Self)
        requires
            old(this).wf(),
        ensures
            r.wf(),
            r.position() == 0,
            r.end() == old(this).size(),
            *r.target() == *old(this),
            *final(r.target()) == *final(this),
    {
        let back = this.len();
        ValuesMut { this, front: 0, back }
    }

    /// The next value from the front, for writing.
    pub fn next(&mut self) -> (r: Option<&mut V>)
        requires
            old(self).wf(),
        ensures
            final(self).wf(),
            *final(final(self).target()) == *final(old(self).target()),
            final(self).target().key_seq() == old(self).target().key_seq(),
            final(self).end() == old(self).end(),
            old(self).position() < old(self).end() ==> r is Some,
            old(self).position() == old(self).end() ==> r is None
                && final(self).position() == old(self).position()
                && final(self).target().value_seq() == old(self).target().value_seq(),
            r matches Some(x) ==> old(self).position() < old(self).end()
                && *x == old(self).target().value_seq()[old(self).position()]
                && final(self).position() == old(self).position() + 1
                && final(self).target().value_seq() == old(self).target().value_seq().update(
                old(self).position(),
                *final(x),
            ),
    {
        if self.front < self.back {
            let pos = self.front;
            self.front = self.front + 1;
            Some(self.this.value_at_mut(pos))
        } else {
            None
        }
    }

    /// The next value from the back, for writing.
    pub fn next_back(&mut self) -> (r: Option<&mut V>)
        requires
            old(self).wf(),
        ensures
            final(self).wf(),
            *final(final(self).target()) == *final(old(self).target()),
            final(self).target().key_seq() == old(self).target().key_seq(),
            final(self).position() == old(self).position(),
            old(self).position() < old(self).end() ==> r is Some,
            old(self).position() == old(self).end() ==> r is None
                && final(self).end() == old(self).end()
                && final(self).target().value_seq() == old(self).target().value_seq(),
            r matches Some(x) ==> old(self).position() < old(self).end()
                && *x == old(self).target().value_seq()[old(self).end() - 1]
                && final(self).end() == old(self).end() - 1
                && final(self).target().value_seq() == old(self).target().value_seq().update(
                old(self).end() - 1,
                *final(x),
            ),
    {
        if self.front < self.back {
            self.back = self.back - 1;
            let pos = self.back;
            Some(self.this.value_at_mut(pos))
        } else {
            None
        }
    }

    /// How many values are still to come, as a lower and an upper bound.
    pub fn size_hint(&self) -> (r: (usize, Option<usize>))
        requires
            self.wf(),
        ensures
            r.0 == self.end() - self.position(),
            r.1 == Some(r.0),
    {
        let n = self.back - self.front;
        (n, Some(n))
    }
}

/// An iterator over the entries of a map, each value for writing, from
/// either end. Each entry it hands out stays borrowed until the next call.
pub struct IterMut<'a, K: Ord, V> {
    this: &'a mut AllocatedVectorMap<K, V>,
    front: usize,
    back: usize,
}

impl<'a, K: Ord, V> IterMut<'a, K, V> {
    /// The map being iterated over.
    pub closed spec fn target(&self) -> &'a mut AllocatedVectorMap<K, V> {
        self.this
    }

    /// Once the iterator is no longer used, the map it borrowed ends up
    /// holding what the iterator's target holds at that point.
    pub broadcast proof fn lemma_resolved(self)
        ensures
            #[trigger] has_resolved(self) ==> *final(self.target()) == *self.target(),
    {
    }

    /// The position of the next entry from the front.
    pub closed spec fn position(&self) -> int {
        self.front as int
    }

    /// The position just past the next entry from the back.
    pub closed spec fn end(&self) -> int {
        self.back as int
    }

    pub open spec fn wf(&self) -> bool {
        &&& self.target().wf()
        &&& 0 <= self.position() <= self.end() <= self.target().size()
    }

    /// An iterator over every entry of `this`.
    pub fn new(this: &'a mut AllocatedVectorMap<K, V>) -> (r: Self)
        requires
            old(this).wf(),
        ensures
            r.wf(),
            r.position() == 0,
            r.end() == old(this).size(),
            *r.target() == *old(this),
            *final(r.target()) == *final(this),
    {
        let back = this.len();
        IterMut { this, front: 0, back }
    }

    /// The next entry from the front, for writing.
    pub fn next(&mut self) -> (r: Option<(&K, &mut V)>)
        requires
            old(self).wf(),
        ensures
            final(self).wf(),
            *final(final(self).target()) == *final(old(self).target()),
            final(self).target().key_seq() == old(self).target().key_seq(),
            final(self).end() == old(self).end(),
            old(self).position() < old(self).end() ==> r is Some,
            old(self).position() == old(self).end() ==> r is None
                && final(self).position() == old(self).position()
                && final(self).target().value_seq() == old(self).target().value_seq(),
            r matches Some((k, x)) ==> old(self).position() < old(self).end()
                && *k == old(self).target().key_seq()[old(self).position()]
                && *x == old(self).target().value_seq()[old(self).position()]
                && final(self).position() == old(self).position() + 1
                && final(self).target().value_seq() == old(self).target().value_seq().update(
                old(self).position(),
                *final(x),
            ),
    {
        if self.front < self.back {
            let pos = self.front;
            self.front = self.front + 1;
            Some(self.this.entry_at_mut(pos))
        } else {
            None
        }
    }

    /// The next entry from the back, for writing.
    pub fn next_back(&mut self) -> (r: Option<(&K, &mut V)>)
        requires
            old(self).wf(),
        ensures
            final(self).wf(),
            *final(final(self).target()) == *final(old(self).target()),
            final(self).target().key_seq() == old(self).target().key_seq(),
            final(self).position() == old(self).position(),
            old(self).position() < old(self).end() ==> r is Some,
            old(self).position() == old(self).end() ==> r is None
                && final(self).end() == old(self).end()
                && final(self).target().value_seq() == old(self).target().value_seq(),
            r matches Some((k, x)) ==> old(self).position() < old(self).end()
                && *k == old(self).target().key_seq()[old(self).end() - 1]
                && *x == old(self).target().value_seq()[old(self).end() - 1]
                && final(self).end() == old(self).end() - 1
                && final(self).target().value_seq() == old(self).target().value_seq().update(
                old(self).end() - 1,
                *final(x),
            ),
    {
        if self.front < self.back {
            self.back = self.back - 1;
            let pos = self.back;
            Some(self.this.entry_at_mut(pos))
        } else {
            None
        }
    }

    /// How many entries are still to come, as a lower and an upper bound.
    pub fn size_hint(&self) -> (r: (usize, Option<usize>))
        requires
            self.wf(),
        ensures
            r.0 == self.end() - self.position(),
            r.1 == Some(r.0),
    {
        let n = self.back - self.front;
        (n, Some(n))
    }
}

impl<K: Ord, V> AllocatedVectorMap<K, V> {
    /// An iterator over the keys, in increasing order.
    pub fn keys(&self) -> (r: Keys<'_, K>)
        requires
            self.wf(),
        ensures
            r.wf(),
            r.remaining() == self.key_seq(),
    {
        Keys::new(self.key_slice())
    }

    /// An iterator over the values, in the order of their keys.
    pub fn values(&self) -> (r: Values<'_, V>)
        requires
            self.wf(),
        ensures
            r.wf(),
            r.remaining() == self.value_seq(),
    {
        Values::new(self.value_slice())
    }

    /// An iterator over the entries, in increasing order of keys.
    pub fn iter(&self) -> (r: Iter<'_, K, V>)
        requires
            self.wf(),
        ensures
            r.wf(),
            r.remaining_keys() == self.key_seq(),
            r.remaining_values() == self.value_seq(),
    {
        proof { self.lemma_wf(); }
        Iter::new(self.key_slice(), self.value_slice())
    }

    /// An iterator over the values, each for writing.
    pub fn values_mut(&mut self) -> (r: ValuesMut<'_, K, V>)
        requires
            old(self).wf(),
        ensures
            r.wf(),
            r.position() == 0,
            r.end() == old(self).size(),
            *r.target() == *old(self),
            *final(r.target()) == *final(self),
    {
        ValuesMut::new(self)
    }

    /// An iterator over the entries, each value for writing.
    pub fn iter_mut(&mut self) -> (r: IterMut<'_, K, V>)
        requires
            old(self).wf(),
        ensures
            r.wf(),
            r.position() == 0,
            r.end() == old(self).size(),
            *r.target() == *old(self),
            *final(r.target()) == *final(self),
    {
        IterMut::new(self)
    }
}

} // verus!
