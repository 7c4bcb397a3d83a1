//! What always holds of the store's operations, whatever it held before.
//!
//! Each operation of the store says what it returns and what the store
//! then holds, over the functions of the model. The laws here are proved
//! of those functions, and so hold of every run of the operations.

use crate::model::leaves_before;
use crate::model::live;
use crate::model::lookup;
use crate::model::not_a_sequence;
use crate::model::not_fields;
use crate::model::possible;
use crate::model::swept;
use crate::model::touched;
use crate::model::written;
use crate::model::Entries;
use crate::model::EntryView;
use crate::model::ValueView;
use crate::scalar::Scalar;
use vstd::prelude::*;

verus! {

/// A value written without a time to live, or with one of zero, is found
/// under its key at every instant.
pub proof fn law_set_then_get(
    m: Entries,
    key: Seq<char>,
    value: ValueView,
    ttl: Option<u64>,
    now: u64,
    later: u64,
    stamp: nat,
)
    requires
        ttl is None || ttl == Some(0u64),
    ensures
        lookup(m.insert(key, written(value, ttl, now, stamp)), key, later) == Some(
            written(value, ttl, now, stamp),
        ),
        written(value, ttl, now, stamp).value == value,
{
}

/// After a key was deleted nothing is found under it, so that deleting it
/// once more removes nothing.
pub proof fn law_delete_then_get(m: Entries, key: Seq<char>, later: u64)
    ensures
        lookup(m.remove(key), key, later) is None,
        m.remove(key).remove(key) == m.remove(key),
{
}

/// A value written at `now` with a time to live above zero is found at
/// every instant before `now + ttl`, and at none from then on.
pub proof fn law_time_to_live(
    m: Entries,
    key: Seq<char>,
    value: ValueView,
    ttl: u64,
    now: u64,
    later: u64,
    stamp: nat,
)
    requires
        ttl > 0,
    ensures
        later < now + ttl ==> lookup(
            m.insert(key, written(value, Some(ttl), now, stamp)),
            key,
            later,
        ) == Some(written(value, Some(ttl), now, stamp)),
        later >= now + ttl ==> lookup(
            m.insert(key, written(value, Some(ttl), now, stamp)),
            key,
            later,
        ) is None,
{
}

/// A sweep changes nothing of what a client finds at the instant of the
/// sweep or after it.
pub proof fn law_sweep_is_unseen(m: Entries, key: Seq<char>, swept_at: u64, later: u64)
    requires
        swept_at <= later,
    ensures
        lookup(swept(m, swept_at), key, later) == lookup(m, key, later),
{
}

/// Looking at a key changes nothing of what a client finds at that
/// instant, under that key or another.
pub proof fn law_touch_is_unseen(m: Entries, touched_key: Seq<char>, key: Seq<char>, now: u64)
    ensures
        lookup(touched(m, touched_key, now), key, now) == lookup(m, key, now),
{
}

/// A sweep at `now` removes the entries whose expiration is at or before
/// `now` and no others, and a second sweep at `now` removes nothing.
pub proof fn law_sweep(m: Entries, now: u64)
    ensures
        forall|k: Seq<char>| #[trigger]
            swept(m, now).contains_key(k) <==> m.contains_key(k) && !(m[k].expiration matches Some(
                t,
            ) && t <= now),
        swept(m, now).submap_of(m),
        swept(swept(m, now), now) == swept(m, now),
{
}

/// Whether the expiration `a` is strictly later than the expiration `b`;
/// never to expire is later than any instant.
pub open spec fn expires_later(a: Option<nat>, b: Option<nat>) -> bool {
    match (a, b) {
        (Some(x), Some(y)) => x > y,
        (None, Some(_)) => true,
        (_, None) => false,
    }
}

/// An entry that leaves before another does not expire strictly later
/// than that other.
pub proof fn law_soonest_leaves_first(a: EntryView, b: EntryView)
    requires
        leaves_before(a, b),
        possible(a.expiration),
        possible(b.expiration),
    ensures
        !expires_later(a.expiration, b.expiration),
{
}

/// Of two entries of one store, which bear different stamps, one leaves
/// before the other: the order of eviction leaves no choice.
pub proof fn law_eviction_is_decided(a: EntryView, b: EntryView)
    requires
        a.stamp != b.stamp,
    ensures
        leaves_before(a, b) || leaves_before(b, a),
        !(leaves_before(a, b) && leaves_before(b, a)),
{
}

/// Under a key that holds a scalar which never expires, no operation on
/// a sequence or a field map finds a value of its kind.
pub proof fn law_scalar_is_no_structure(
    m: Entries,
    key: Seq<char>,
    value: Scalar,
    now: u64,
    later: u64,
    stamp: nat,
)
    ensures
        not_a_sequence(
            m.insert(key, written(ValueView::Scalar(value), None, now, stamp)),
            key,
            later,
        ),
        not_fields(m.insert(key, written(ValueView::Scalar(value), None, now, stamp)), key, later),
{
}

} // verus!
