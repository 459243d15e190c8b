//! The record a buffer keeps of what it has asked of the global allocator.
//!
//! Every request a buffer makes for memory goes through
//! [`AllocLog::try_reserve_exact`], which makes the request and records it
//! together with the allocator's answer. Nothing else writes the record, so
//! a contract that speaks of the record speaks of requests that were made.
use vstd::prelude::*;

verus! {

/// `Vec::try_reserve_exact`: asks for room for `additional` more values and
/// says whether the global allocator gave it. Stated: the contents stay the
/// same either way. Not stated: the vector's own capacity afterwards, which
/// the buffer does not rely on, and when it succeeds, which depends on the
/// allocator.
#[verifier::external_body]
fn slots_try_reserve_exact<T>(slots: &mut std::vec::Vec<T>, additional: usize) -> (ok: bool)
    ensures
        final(slots)@ == old(slots)@,
{
    slots.try_reserve_exact(additional).is_ok()
}

/// The count that follows `n`, wrapping to zero after `usize::MAX`.
pub open spec fn next_count(n: usize) -> usize {
    if n == usize::MAX {
        0
    } else {
        (n + 1) as usize
    }
}

/// The requests for memory a buffer has made of the global allocator: how
/// many (counted modulo `usize::MAX + 1`), and the last one, as the number
/// of values it asked room for and whether the allocator granted it.
#[derive(Debug)]
pub struct AllocLog {
    made: usize,
    last: Option<(usize, bool)>,
}

impl AllocLog {
    /// How many requests have been made, modulo `usize::MAX + 1`.
    pub closed spec fn made(&self) -> usize {
        self.made
    }

    /// The last request: the number of values room was asked for, and
    /// whether it was granted.
    pub closed spec fn last(&self) -> Option<(usize, bool)> {
        self.last
    }

    /// A record of no request.
    pub fn new() -> (r: Self)
        ensures
            r.made() == 0,
            r.last() is None,
    {
        AllocLog { made: 0, last: None }
    }

    /// Ask the global allocator for room for `additional` more values than
    /// `slots` holds, and record the request and the answer. A refusal comes
    /// back as the evidence of it.
    pub fn try_reserve_exact<T>(&mut self, slots: &mut std::vec::Vec<T>, additional: usize) -> (r: Result<(), Refusal>)
        requires
            old(slots)@.len() + additional <= usize::MAX,
        ensures
            final(slots)@ == old(slots)@,
            asked(*old(self), *final(self), old(slots)@.len() + additional, r is Ok),
            r matches Err(t) ==> t.refused_count() == Some((old(slots)@.len() + additional) as usize),
    {
        let n = slots.len() + additional;
        let ok = slots_try_reserve_exact(slots, additional);
        self.made = if self.made == usize::MAX { 0 } else { self.made + 1 };
        self.last = Some((n, ok));
        if ok {
            Ok(())
        } else {
            Err(Refusal { count: n, real: true })
        }
    }
}

/// Evidence that the global allocator refused a request for room for some
/// number of values. Only a refused request in this module makes one that
/// holds a count; any two compare equal, so that errors that carry them
/// compare by their layouts alone.
#[derive(Clone, Copy, Debug, Eq)]
pub struct Refusal {
    count: usize,
    real: bool,
}

impl Refusal {
    /// The number of values whose room the allocator refused, for evidence
    /// of a refused request; `None` otherwise.
    pub closed spec fn refused_count(&self) -> Option<usize> {
        if self.real {
            Some(self.count)
        } else {
            None
        }
    }

    /// The evidence that stands for no refused request.
    pub closed spec fn no_refusal() -> Refusal {
        Refusal { count: 0, real: false }
    }

    /// Evidence of no refused request.
    pub fn none() -> (r: Self)
        ensures
            r == Refusal::no_refusal(),
            r.refused_count() is None,
    {
        Refusal { count: 0, real: false }
    }
}

impl PartialEq for Refusal {
    fn eq(&self, other: &Self) -> (r: bool) {
        true
    }
}

impl vstd::std_specs::cmp::PartialEqSpecImpl for Refusal {
    open spec fn obeys_eq_spec() -> bool {
        true
    }

    open spec fn eq_spec(&self, other: &Self) -> bool {
        true
    }
}

/// `after` records exactly one request more than `before`: one for room for
/// `n` values, which the allocator answered with `granted`.
pub open spec fn asked(before: AllocLog, after: AllocLog, n: int, granted: bool) -> bool {
    &&& after.made() == next_count(before.made())
    &&& after.last() == Some((n as usize, granted))
}

/// When `needed`, `after` records exactly one request more than `before`,
/// for room for `n` values, answered with `granted`; otherwise no request
/// was made.
pub open spec fn requested_if(before: AllocLog, after: AllocLog, needed: bool, n: int, granted: bool) -> bool {
    if needed {
        asked(before, after, n, granted)
    } else {
        after == before
    }
}

/// When `needed`, `after` records exactly one request more than `before`, for
/// room for `n` values, whatever the answer; otherwise no request was made.
pub open spec fn one_request_if(before: AllocLog, after: AllocLog, needed: bool, n: int) -> bool {
    if needed {
        asked(before, after, n, true) || asked(before, after, n, false)
    } else {
        after == before
    }
}

/// `after` records a request beyond `before`.
pub open spec fn requested(before: AllocLog, after: AllocLog) -> bool {
    after.made() != before.made()
}

/// `after` records a request beyond `before`, and the allocator refused it.
pub open spec fn refused(before: AllocLog, after: AllocLog) -> bool {
    &&& requested(before, after)
    &&& match after.last() {
        Some(p) => !p.1,
        None => false,
    }
}

} // verus!
