//! The store as a mathematical value: a map from keys to entries, and what
//! each operation makes of it.

use crate::scalar::Scalar;
use vstd::prelude::*;

verus! {

/// What a value holds.
pub enum ValueView {
    /// Scalars under text sub-keys.
    Fields(Map<Seq<char>, Scalar>),
    /// Scalars in order, the front first.
    Sequence(Seq<Scalar>),
    /// One scalar.
    Scalar(Scalar),
}

/// What the store holds under one key.
pub struct EntryView {
    /// The value.
    pub value: ValueView,
    /// The first instant at which the entry is no longer served; `None`
    /// for an entry that never expires.
    pub expiration: Option<nat>,
    /// The number of the write that made the entry: no two entries of a
    /// store share it, and a later write has a larger one.
    pub stamp: nat,
}

/// What a store holds: its keys, each with its entry.
pub type Entries = Map<Seq<char>, EntryView>;

/// One end of a sequence.
#[derive(Clone, Copy, Debug, PartialEq, Eq, Structural)]
pub enum End {
    Front,
    Back,
}

/// Whether an entry is still served at the instant `now`.
pub open spec fn live(e: EntryView, now: u64) -> bool {
    match e.expiration {
        Some(t) => now < t,
        None => true,
    }
}

/// The expiration of an entry written at `now` with the time to live
/// `ttl`. No time to live, or one of zero, gives an entry that never
/// expires; so does one that ends after the last instant there is.
pub open spec fn expiry_of(ttl: Option<u64>, now: u64) -> Option<nat> {
    match ttl {
        Some(t) => if t > 0 && now + t <= u64::MAX {
            Some((now + t) as nat)
        } else {
            None
        },
        None => None,
    }
}

/// The last instant at which an entry with this expiration is served; the
/// largest instant for one that never expires.
pub open spec fn last_instant(expiration: Option<nat>) -> nat {
    match expiration {
        Some(t) => (t - 1) as nat,
        None => u64::MAX as nat,
    }
}

/// Whether an entry of a store can have this expiration: an instant above
/// zero that a clock can show, or none.
pub open spec fn possible(expiration: Option<nat>) -> bool {
    match expiration {
        Some(t) => 0 < t <= u64::MAX,
        None => true,
    }
}

/// What holds of the entries of every store after `writes` writes: they
/// are finitely many, each bears the stamp of one of those writes, no two
/// bear the same, and each has a possible expiration.
pub open spec fn coherent(m: Entries, writes: nat) -> bool {
    &&& m.dom().finite()
    &&& forall|k: Seq<char>| #[trigger]
        m.contains_key(k) ==> m[k].stamp < writes && possible(m[k].expiration)
    &&& forall|j: Seq<char>, k: Seq<char>|
        #![trigger m[j], m[k]]
        m.contains_key(j) && m.contains_key(k) && j != k ==> m[j].stamp != m[k].stamp
}

/// The order in which entries leave when room is made: the one served for
/// the shortest time first, and of two served equally long the one
/// written first.
pub open spec fn leaves_before(a: EntryView, b: EntryView) -> bool {
    last_instant(a.expiration) < last_instant(b.expiration) || (last_instant(a.expiration)
        == last_instant(b.expiration) && a.stamp < b.stamp)
}

/// The entry that a client finds under `key` at `now`: none where the key
/// is absent, and none where its entry has expired.
pub open spec fn lookup(m: Entries, key: Seq<char>, now: u64) -> Option<EntryView> {
    if m.contains_key(key) && live(m[key], now) {
        Some(m[key])
    } else {
        None
    }
}

/// The store after a client has looked at `key` at `now`: an entry found
/// expired is gone, and nothing else has changed.
pub open spec fn touched(m: Entries, key: Seq<char>, now: u64) -> Entries {
    if lookup(m, key, now) is Some {
        m
    } else {
        m.remove(key)
    }
}

/// The entry that a write number `stamp` makes at `now`.
pub open spec fn written(value: ValueView, ttl: Option<u64>, now: u64, stamp: nat) -> EntryView {
    EntryView { value, expiration: expiry_of(ttl, now), stamp }
}

/// An entry with another value in place of its own.
pub open spec fn with_value(e: EntryView, value: ValueView) -> EntryView {
    EntryView { value, expiration: e.expiration, stamp: e.stamp }
}

/// The store without the entries that have expired at `now`.
pub open spec fn swept(m: Entries, now: u64) -> Entries {
    Map::new(|k: Seq<char>| m.contains_key(k) && live(m[k], now), |k: Seq<char>| m[k])
}

/// A sequence with `x` added at one end.
pub open spec fn pushed(s: Seq<Scalar>, end: End, x: Scalar) -> Seq<Scalar> {
    match end {
        End::Front => seq![x] + s,
        End::Back => s.push(x),
    }
}

/// The scalar at one end of a sequence that is not empty.
pub open spec fn at_end(s: Seq<Scalar>, end: End) -> Scalar
    recommends
        s.len() > 0,
{
    match end {
        End::Front => s.first(),
        End::Back => s.last(),
    }
}

/// A sequence that is not empty, without the scalar at one end.
pub open spec fn popped(s: Seq<Scalar>, end: End) -> Seq<Scalar>
    recommends
        s.len() > 0,
{
    match end {
        End::Front => s.subrange(1, s.len() as int),
        End::Back => s.subrange(0, s.len() - 1),
    }
}

/// Whether a sequence operation on `key` at `now` meets a value of
/// another kind.
pub open spec fn not_a_sequence(m: Entries, key: Seq<char>, now: u64) -> bool {
    match lookup(m, key, now) {
        Some(e) => !(e.value is Sequence),
        None => false,
    }
}

/// Whether a field operation on `key` at `now` meets a value of another
/// kind.
pub open spec fn not_fields(m: Entries, key: Seq<char>, now: u64) -> bool {
    match lookup(m, key, now) {
        Some(e) => !(e.value is Fields),
        None => false,
    }
}

/// The store after `x` was pushed onto the sequence under `key`: onto the
/// one that is there, or onto an empty one that write number `stamp`
/// makes and that never expires.
pub open spec fn after_push(
    m: Entries,
    key: Seq<char>,
    end: End,
    x: Scalar,
    now: u64,
    stamp: nat,
) -> Entries
    recommends
        !not_a_sequence(m, key, now),
{
    match lookup(m, key, now) {
        Some(e) => m.insert(
            key,
            with_value(e, ValueView::Sequence(pushed(e.value->Sequence_0, end, x))),
        ),
        None => m.insert(key, written(ValueView::Sequence(seq![x]), None, now, stamp)),
    }
}

/// What a pop at one end of the sequence under `key` returns.
pub open spec fn pop_result(m: Entries, key: Seq<char>, end: End, now: u64) -> Option<Scalar>
    recommends
        !not_a_sequence(m, key, now),
{
    match lookup(m, key, now) {
        Some(e) => if e.value->Sequence_0.len() > 0 {
            Some(at_end(e.value->Sequence_0, end))
        } else {
            None
        },
        None => None,
    }
}

/// The store after a pop at one end of the sequence under `key`.
pub open spec fn after_pop(m: Entries, key: Seq<char>, end: End, now: u64) -> Entries
    recommends
        !not_a_sequence(m, key, now),
{
    match lookup(m, key, now) {
        Some(e) => if e.value->Sequence_0.len() > 0 {
            m.insert(key, with_value(e, ValueView::Sequence(popped(e.value->Sequence_0, end))))
        } else {
            m
        },
        None => m.remove(key),
    }
}

/// What reading `field` of the field map under `key` returns.
pub open spec fn field_result(m: Entries, key: Seq<char>, field: Seq<char>, now: u64) -> Option<
    Scalar,
>
    recommends
        !not_fields(m, key, now),
{
    match lookup(m, key, now) {
        Some(e) => if e.value->Fields_0.contains_key(field) {
            Some(e.value->Fields_0[field])
        } else {
            None
        },
        None => None,
    }
}

/// The store after `field` of the field map under `key` was set to `x`:
/// in the map that is there, or in an empty one that write number `stamp`
/// makes and that never expires.
pub open spec fn after_field_set(
    m: Entries,
    key: Seq<char>,
    field: Seq<char>,
    x: Scalar,
    now: u64,
    stamp: nat,
) -> Entries
    recommends
        !not_fields(m, key, now),
{
    match lookup(m, key, now) {
        Some(e) => m.insert(key, with_value(e, ValueView::Fields(e.value->Fields_0.insert(field, x)))),
        None => m.insert(
            key,
            written(ValueView::Fields(Map::<Seq<char>, Scalar>::empty().insert(field, x)), None, now, stamp),
        ),
    }
}

} // verus!
