//! The expiration index: a double-ended priority queue of records, from
//! which the store takes the entry that leaves soonest or the one that
//! stays longest.

use min_max_heap::MinMaxHeap;
use vstd::multiset::Multiset;
use vstd::prelude::*;

verus! {

/// A record of the index: the rank of an entry, then the stamp of the
/// write that made it. Records are ordered by rank, and by stamp where the
/// ranks are equal.
pub type Record = (u64, u64);

/// The order of records: by the first part, then by the second.
pub open spec fn record_le(a: Record, b: Record) -> bool {
    a.0 < b.0 || (a.0 == b.0 && a.1 <= b.1)
}

/// Whether `m` is held in `s` and no record of `s` comes before it.
pub open spec fn is_least(s: Multiset<Record>, m: Record) -> bool {
    s.contains(m) && forall|x: Record| #[trigger] s.contains(x) ==> record_le(m, x)
}

/// Whether `m` is held in `s` and no record of `s` comes after it.
pub open spec fn is_greatest(s: Multiset<Record>, m: Record) -> bool {
    s.contains(m) && forall|x: Record| #[trigger] s.contains(x) ==> record_le(x, m)
}

/// `min_max_heap::MinMaxHeap`, a double-ended priority queue kept in a
/// vector. Nothing of its layout is known here.
#[verifier::external_type_specification]
#[verifier::external_body]
#[verifier::reject_recursive_types(T)]
pub struct ExMinMaxHeap<T>(MinMaxHeap<T>);

/// The records that a heap holds, each as often as it was pushed and not
/// yet popped.
pub uninterp spec fn heap_records(h: MinMaxHeap<Record>) -> Multiset<Record>;

/// `MinMaxHeap::new`: a heap that holds nothing.
#[verifier::external_body]
fn heap_new() -> (h: MinMaxHeap<Record>)
    ensures
        heap_records(h) == Multiset::<Record>::empty(),
{
    MinMaxHeap::new()
}

/// `MinMaxHeap::len`: how many records the heap holds, counting repeats.
#[verifier::external_body]
fn heap_len(h: &MinMaxHeap<Record>) -> (n: usize)
    ensures
        n == heap_records(*h).len(),
{
    h.len()
}

/// `MinMaxHeap::push`: the heap then holds the record once more, and all
/// that it held before.
#[verifier::external_body]
fn heap_push(h: &mut MinMaxHeap<Record>, r: Record)
    ensures
        heap_records(*final(h)) == heap_records(*old(h)).insert(r),
{
    h.push(r)
}

/// `MinMaxHeap::peek_min`: nothing for an empty heap, else a record of the
/// heap that no other comes before, in the order of tuples.
#[verifier::external_body]
fn heap_peek_min(h: &MinMaxHeap<Record>) -> (r: Option<Record>)
    ensures
        match r {
            Some(m) => is_least(heap_records(*h), m),
            None => heap_records(*h).len() == 0,
        },
{
    h.peek_min().copied()
}

/// `MinMaxHeap::peek_max`: nothing for an empty heap, else a record of the
/// heap that no other comes after, in the order of tuples.
#[verifier::external_body]
fn heap_peek_max(h: &MinMaxHeap<Record>) -> (r: Option<Record>)
    ensures
        match r {
            Some(m) => is_greatest(heap_records(*h), m),
            None => heap_records(*h).len() == 0,
        },
{
    h.peek_max().copied()
}

/// `MinMaxHeap::pop_min`: takes out one least record and returns it; an
/// empty heap stays as it is.
#[verifier::external_body]
fn heap_pop_min(h: &mut MinMaxHeap<Record>) -> (r: Option<Record>)
    ensures
        match r {
            Some(m) => is_least(heap_records(*old(h)), m) && heap_records(*final(h))
                == heap_records(*old(h)).remove(m),
            None => heap_records(*old(h)).len() == 0 && heap_records(*final(h)) == heap_records(
                *old(h),
            ),
        },
{
    h.pop_min()
}

/// `MinMaxHeap::pop_max`: takes out one greatest record and returns it; an
/// empty heap stays as it is.
#[verifier::external_body]
fn heap_pop_max(h: &mut MinMaxHeap<Record>) -> (r: Option<Record>)
    ensures
        match r {
            Some(m) => is_greatest(heap_records(*old(h)), m) && heap_records(*final(h))
                == heap_records(*old(h)).remove(m),
            None => heap_records(*old(h)).len() == 0 && heap_records(*final(h)) == heap_records(
                *old(h),
            ),
        },
{
    h.pop_max()
}

/// `MinMaxHeap::clear`: the heap then holds nothing.
#[verifier::external_body]
fn heap_clear(h: &mut MinMaxHeap<Record>)
    ensures
        heap_records(*final(h)) == Multiset::<Record>::empty(),
{
    h.clear()
}

/// A collection of records ordered by rank, open at both ends.
pub struct ExpirationIndex {
    heap: MinMaxHeap<Record>,
}

impl View for ExpirationIndex {
    type V = Multiset<Record>;

    closed spec fn view(&self) -> Multiset<Record> {
        heap_records(self.heap)
    }
}

impl ExpirationIndex {
    /// An index that holds no record.
    pub fn new() -> (r: Self)
        ensures
            r@ == Multiset::<Record>::empty(),
    {
        ExpirationIndex { heap: heap_new() }
    }

    /// The number of records held, stale ones and repeats included.
    pub fn len(&self) -> (n: usize)
        ensures
            n == self@.len(),
    {
        heap_len(&self.heap)
    }

    /// Whether no record is held.
    pub fn is_empty(&self) -> (b: bool)
        ensures
            b == (self@.len() == 0),
    {
        heap_len(&self.heap) == 0
    }

    /// Adds a record.
    pub fn insert(&mut self, record: Record)
        ensures
            final(self)@ == old(self)@.insert(record),
    {
        heap_push(&mut self.heap, record)
    }

    /// The record that comes first, if there is any.
    pub fn peek_min(&self) -> (r: Option<Record>)
        ensures
            match r {
                Some(m) => is_least(self@, m),
                None => self@.len() == 0,
            },
    {
        heap_peek_min(&self.heap)
    }

    /// The record that comes last, if there is any.
    pub fn peek_max(&self) -> (r: Option<Record>)
        ensures
            match r {
                Some(m) => is_greatest(self@, m),
                None => self@.len() == 0,
            },
    {
        heap_peek_max(&self.heap)
    }

    /// Takes out the record that comes first, if there is any.
    pub fn pop_min(&mut self) -> (r: Option<Record>)
        ensures
            match r {
                Some(m) => is_least(old(self)@, m) && final(self)@ == old(self)@.remove(m),
                None => old(self)@.len() == 0 && final(self)@ == old(self)@,
            },
    {
        heap_pop_min(&mut self.heap)
    }

    /// Takes out the record that comes last, if there is any.
    pub fn pop_max(&mut self) -> (r: Option<Record>)
        ensures
            match r {
                Some(m) => is_greatest(old(self)@, m) && final(self)@ == old(self)@.remove(m),
                None => old(self)@.len() == 0 && final(self)@ == old(self)@,
            },
    {
        heap_pop_max(&mut self.heap)
    }

    /// Drops every record.
    pub fn clear(&mut self)
        ensures
            final(self)@ == Multiset::<Record>::empty(),
    {
        heap_clear(&mut self.heap)
    }
}

} // verus!
