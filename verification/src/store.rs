//! The value store: keys, their entries, and the operations on them.

use crate::expiry::is_least;
use crate::expiry::record_le;
use crate::expiry::ExpirationIndex;
use crate::expiry::Record;
use crate::model::after_field_set;
use crate::model::after_pop;
use crate::model::after_push;
use crate::model::at_end;
use crate::model::coherent;
use crate::model::expiry_of;
use crate::model::field_result;
use crate::model::last_instant;
use crate::model::leaves_before;
use crate::model::live;
use crate::model::lookup;
use crate::model::not_a_sequence;
use crate::model::not_fields;
use crate::model::pop_result;
use crate::model::popped;
use crate::model::pushed;
use crate::model::swept;
use crate::model::touched;
use crate::model::with_value;
use crate::model::written;
use crate::model::End;
use crate::model::Entries;
use crate::model::EntryView;
use crate::model::ValueView;
use crate::scalar::Scalar;
use crate::scalar::StrValue;
use std::collections::HashMap;
use std::collections::VecDeque;
use vstd::hash_map::StringHashMap;
use vstd::prelude::*;
use vstd::string::StringExecFns;

verus! {

broadcast use vstd::std_specs::hash::group_hash_axioms;

/// A stored value: a field map, an ordered sequence, or a single scalar.
#[allow(inconsistent_fields)]
pub enum Value {
    Fields { backing: StringHashMap<StrValue> },
    List { backing: VecDeque<StrValue> },
    String { backing: StrValue },
}

impl View for Value {
    type V = ValueView;

    open spec fn view(&self) -> ValueView {
        match self {
            Value::Fields { backing } => ValueView::Fields(
                backing@.map_values(|v: StrValue| v@),
            ),
            Value::List { backing } => ValueView::Sequence(backing@.map_values(|v: StrValue| v@)),
            Value::String { backing } => ValueView::Scalar(backing@),
        }
    }
}

/// The error of an operation on a sequence or a field map that finds a
/// value of another kind under its key.
#[derive(Clone, Copy, Debug, PartialEq, Eq, Structural)]
pub struct TypeMismatch;

impl Value {
    /// Whether this is a sequence.
    fn is_list(&self) -> (r: bool)
        ensures
            r == (self@ is Sequence),
    {
        match self {
            Value::List { .. } => true,
            _ => false,
        }
    }

    /// Whether this is a field map.
    fn is_fields(&self) -> (r: bool)
        ensures
            r == (self@ is Fields),
    {
        match self {
            Value::Fields { .. } => true,
            _ => false,
        }
    }

    /// A sequence that holds `x` alone.
    fn list_of(x: StrValue) -> (r: Value)
        ensures
            r@ == ValueView::Sequence(seq![x@]),
    {
        let mut backing: VecDeque<StrValue> = VecDeque::new();
        backing.push_back(x);
        assert(backing@.map_values(|v: StrValue| v@) =~= seq![x@]);
        Value::List { backing }
    }

    /// A field map that holds `x` under `field` and nothing else.
    fn fields_of(field: String, x: StrValue) -> (r: Value)
        ensures
            r@ == ValueView::Fields(Map::<Seq<char>, Scalar>::empty().insert(field@, x@)),
    {
        let mut backing: StringHashMap<StrValue> = StringHashMap::new();
        backing.insert(field, x);
        assert(backing@.map_values(|v: StrValue| v@) =~= Map::<Seq<char>, Scalar>::empty().insert(
            field@,
            x@,
        ));
        Value::Fields { backing }
    }

    /// This sequence with `x` added at one end.
    fn push(self, end: End, x: StrValue) -> (r: Value)
        requires
            self@ is Sequence,
        ensures
            r@ == ValueView::Sequence(pushed(self@->Sequence_0, end, x@)),
    {
        match self {
            Value::List { mut backing } => {
                let ghost before = backing@;
                match end {
                    End::Front => backing.push_front(x),
                    End::Back => backing.push_back(x),
                }
                assert(backing@.map_values(|v: StrValue| v@) =~= pushed(
                    before.map_values(|v: StrValue| v@),
                    end,
                    x@,
                ));
                Value::List { backing }
            },
            other => other,
        }
    }

    /// This sequence without the scalar at one end, and that scalar; the
    /// sequence as it is, and nothing, where it is empty.
    fn pop(self, end: End) -> (r: (Value, Option<StrValue>))
        requires
            self@ is Sequence,
        ensures
            self@->Sequence_0.len() == 0 ==> r.0@ == self@ && r.1 is None,
            self@->Sequence_0.len() > 0 ==> r.0@ == ValueView::Sequence(
                popped(self@->Sequence_0, end),
            ) && r.1 is Some && r.1.unwrap()@ == at_end(self@->Sequence_0, end),
    {
        match self {
            Value::List { mut backing } => {
                let ghost before = backing@;
                let x = match end {
                    End::Front => backing.pop_front(),
                    End::Back => backing.pop_back(),
                };
                if x.is_some() {
                    assert(backing@.map_values(|v: StrValue| v@) =~= popped(
                        before.map_values(|v: StrValue| v@),
                        end,
                    ));
                }
                (Value::List { backing }, x)
            },
            other => (other, None),
        }
    }

    /// The scalar under `field` of this field map, if there is one.
    fn field(&self, field: &str) -> (r: Option<StrValue>)
        requires
            self@ is Fields,
        ensures
            self@->Fields_0.contains_key(field@) ==> r is Some && r.unwrap()@
                == self@->Fields_0[field@],
            !self@->Fields_0.contains_key(field@) ==> r is None,
    {
        match self {
            Value::Fields { backing } => match backing.get(field) {
                Some(x) => Some(x.clone()),
                None => None,
            },
            _ => None,
        }
    }

    /// This field map with `x` under `field`.
    fn with_field(self, field: String, x: StrValue) -> (r: Value)
        requires
            self@ is Fields,
        ensures
            r@ == ValueView::Fields(self@->Fields_0.insert(field@, x@)),
    {
        match self {
            Value::Fields { mut backing } => {
                let ghost before = backing@;
                backing.insert(field, x);
                assert(backing@.map_values(|v: StrValue| v@) =~= before.map_values(
                    |v: StrValue| v@,
                ).insert(field@, x@));
                Value::Fields { backing }
            },
            other => other,
        }
    }
}

struct Entry {
    key: String,
    value: Value,
    /// The last instant at which the entry is served; the largest instant
    /// for an entry that never expires.
    deadline: u64,
}

/// The expiration of an entry that is last served at `deadline`.
spec fn expiration_at(deadline: u64) -> Option<nat> {
    if deadline == u64::MAX {
        None
    } else {
        Some((deadline + 1) as nat)
    }
}

impl Entry {
    spec fn view_at(self, stamp: u64) -> EntryView {
        EntryView {
            value: self.value@,
            expiration: expiration_at(self.deadline),
            stamp: stamp as nat,
        }
    }
}

/// The last instant at which an entry written at `now` with the time to
/// live `ttl` is served.
fn deadline_of(ttl: Option<u64>, now: u64) -> (d: u64)
    ensures
        d == last_instant(expiry_of(ttl, now)),
        expiration_at(d) == expiry_of(ttl, now),
{
    match ttl {
        Some(t) => {
            if t == 0 || now > u64::MAX - t {
                u64::MAX
            } else {
                now + t - 1
            }
        },
        None => u64::MAX,
    }
}

/// The store: every key with its entry, and the index by which entries
/// are found for expiry and eviction.
pub struct Index {
    /// Each key with the stamp of its entry.
    keys: StringHashMap<u64>,
    /// Each entry under its stamp.
    entries: HashMap<u64, Entry>,
    /// A record for each entry, and records left behind by entries that
    /// are gone.
    due: ExpirationIndex,
    /// The stamp that the next write gets.
    next_stamp: u64,
}

impl View for Index {
    type V = Entries;

    closed spec fn view(&self) -> Entries {
        Map::new(
            |k: Seq<char>| self.keys@.contains_key(k),
            |k: Seq<char>| self.entries@[self.keys@[k]].view_at(self.keys@[k]),
        )
    }
}

impl Index {
    /// Whether the keys, the entries and the index agree with one another:
    /// each key leads to the entry that names it; each entry bears a stamp
    /// that was given out and has its record in the index; a record
    /// stands for no entry but the one that bears its stamp, and is held
    /// once.
    pub closed spec fn wf(&self) -> bool {
        &&& self.keys@.dom().finite()
        &&& forall|k: Seq<char>| #[trigger]
            self.keys@.contains_key(k) ==> self.entries@.contains_key(self.keys@[k])
                && self.entries@[self.keys@[k]].key@ == k
        &&& forall|s: u64| #[trigger]
            self.entries@.contains_key(s) ==> self.keys@.contains_key(self.entries@[s].key@)
                && self.keys@[self.entries@[s].key@] == s && s < self.next_stamp
                && self.due@.contains((self.entries@[s].deadline, s))
        &&& forall|r: Record| #[trigger]
            self.due@.contains(r) ==> r.1 < self.next_stamp && (self.entries@.contains_key(r.1)
                ==> self.entries@[r.1].deadline == r.0)
        &&& forall|r: Record| #[trigger] self.due@.count(r) <= 1
    }

    /// The number of writes that made an entry since the store was made or
    /// last cleared.
    pub closed spec fn writes(&self) -> nat {
        self.next_stamp as nat
    }

    /// The entries of a store are coherent.
    pub proof fn lemma_coherent(&self)
        requires
            self.wf(),
        ensures
            coherent(self@, self.writes()),
    {
        self.lemma_dom();
    }

    /// An empty store.
    pub fn new() -> (r: Index)
        ensures
            r.wf(),
            r@ == Map::<Seq<char>, EntryView>::empty(),
            r.writes() == 0,
    {
        Index {
            keys: StringHashMap::with_capacity(1024),
            entries: HashMap::with_capacity(1024),
            due: ExpirationIndex::new(),
            next_stamp: 0,
        }
    }

    /// The number of entries held, expired ones that were not yet swept
    /// included.
    pub fn len(&self) -> (n: usize)
        requires
            self.wf(),
        ensures
            n == self@.len(),
    {
        assert(self@.dom() =~= self.keys@.dom());
        self.keys.len()
    }

    /// The number of writes that made an entry since the store was made or
    /// last cleared.
    pub fn written(&self) -> (n: u64)
        ensures
            n == self.writes(),
    {
        self.next_stamp
    }

    /// Takes the entry of `key` out of the store, if there is one. Its
    /// record stays behind in the index.
    fn unlink(&mut self, key: &str)
        requires
            old(self).wf(),
        ensures
            final(self).wf(),
            final(self)@ == old(self)@.remove(key@),
            final(self).next_stamp == old(self).next_stamp,
            final(self).due == old(self).due,
    {
        match self.keys.get(key) {
            Some(stamp) => {
                let stamp: u64 = *stamp;
                self.entries.remove(&stamp);
                self.keys.remove(key);
            },
            None => {},
        }
    }

    /// The stamp of the entry that a client finds under `key` at `now`. An
    /// entry found expired is taken out of the store.
    fn find(&mut self, key: &str, now: u64) -> (r: Option<u64>)
        requires
            old(self).wf(),
        ensures
            final(self).wf(),
            final(self).next_stamp == old(self).next_stamp,
            final(self)@ == touched(old(self)@, key@, now),
            match r {
                Some(s) => lookup(old(self)@, key@, now) is Some && *final(self) == *old(self)
                    && old(self).keys@.contains_key(key@) && old(self).keys@[key@] == s,
                None => lookup(old(self)@, key@, now) is None,
            },
    {
        let stamp: u64 = match self.keys.get(key) {
            Some(stamp) => *stamp,
            None => {
                return None;
            },
        };
        let expired = match self.entries.get(&stamp) {
            Some(entry) => entry.deadline < now,
            None => true,
        };
        if expired {
            self.unlink(key);
            None
        } else {
            Some(stamp)
        }
    }

    /// Puts a new entry under `key`, in place of any that is there.
    fn put(&mut self, key: String, value: Value, deadline: u64)
        requires
            old(self).wf(),
            old(self).next_stamp < u64::MAX,
        ensures
            final(self).wf(),
            final(self).next_stamp == old(self).next_stamp + 1,
            final(self)@ == old(self)@.insert(
                key@,
                EntryView {
                    value: value@,
                    expiration: expiration_at(deadline),
                    stamp: old(self).next_stamp as nat,
                },
            ),
    {
        self.unlink(key.as_str());
        let ghost mid = *self;
        assert(!mid@.contains_key(key@));
        let stamp: u64 = self.next_stamp;
        self.next_stamp = stamp + 1;
        self.keys.insert(key.clone(), stamp);
        self.entries.insert(stamp, Entry { key, value, deadline });
        self.due.insert((deadline, stamp));
        proof {
            assert forall|r: Record| #[trigger] self.due@.contains(r) implies mid.due@.contains(r)
                || r == (deadline, stamp) by {}
            assert forall|r: Record| #[trigger] self.due@.count(r) <= 1 by {
                assert(mid.due@.count(r) <= 1);
                assert(!mid.due@.contains((deadline, stamp)));
            }
            assert(self.wf());
            let target = old(self)@.insert(
                key@,
                EntryView {
                    value: value@,
                    expiration: expiration_at(deadline),
                    stamp: old(self).next_stamp as nat,
                },
            );
            assert forall|k: Seq<char>| self@.contains_key(k) <==> target.contains_key(k) by {
                assert(k != key@ ==> (mid@.contains_key(k) <==> mid.keys@.contains_key(k)));
            }
            assert forall|k: Seq<char>| self@.contains_key(k) implies self@[k] == target[k] by {
                assert(k != key@ ==> mid@[k] == old(self)@[k]);
            }
            assert(self@ =~= target);
        }
    }

    /// Looks `key` up at the instant `now`. An entry that has expired is
    /// taken out of the store and not returned; nothing else changes.
    pub fn get(&mut self, key: &str, now: u64) -> (r: Option<&Value>)
        requires
            old(self).wf(),
        ensures
            final(self).wf(),
            final(self).writes() == old(self).writes(),
            final(self)@ == touched(old(self)@, key@, now),
            match lookup(old(self)@, key@, now) {
                Some(e) => r is Some && r.unwrap()@ == e.value,
                None => r is None,
            },
    {
        match self.find(key, now) {
            Some(stamp) => match self.entries.get(&stamp) {
                Some(entry) => Some(&entry.value),
                None => None,
            },
            None => None,
        }
    }

    /// Puts the scalar `value` under `key`, in place of whatever is there.
    /// With a time to live above zero the entry expires that long after
    /// `now`; else it never does.
    pub fn set(&mut self, key: String, value: &StrValue, ttl: Option<u64>, now: u64)
        requires
            old(self).wf(),
            old(self).writes() < u64::MAX,
        ensures
            final(self).wf(),
            final(self).writes() == old(self).writes() + 1,
            final(self)@ == old(self)@.insert(
                key@,
                written(ValueView::Scalar(value@), ttl, now, old(self).writes()),
            ),
    {
        let backing = value.clone();
        self.put(key, Value::String { backing }, deadline_of(ttl, now));
    }

    /// Removes the entry of `key`, and says whether a client would have
    /// found one there at `now`.
    pub fn delete(&mut self, key: &str, now: u64) -> (removed: bool)
        requires
            old(self).wf(),
        ensures
            final(self).wf(),
            final(self).writes() == old(self).writes(),
            final(self)@ == old(self)@.remove(key@),
            removed == (lookup(old(self)@, key@, now) is Some),
    {
        let found = self.find(key, now).is_some();
        self.unlink(key);
        found
    }

    /// What the store shows is made of the keys and of nothing else, so
    /// that its entries can be counted in a machine word.
    proof fn lemma_dom(&self)
        ensures
            self@.dom() == self.keys@.dom(),
            self@.len() <= usize::MAX,
    {
        broadcast use vstd::hash_map::group_hash_map_axioms;

        assert(self.keys.spec_len() == self.keys@.len());
    }

    /// Puts `value` in the place of the value of the entry with this
    /// stamp, and hands out the one that was there.
    fn swap_value(&mut self, stamp: u64, value: Value) -> (before: Value)
        requires
            old(self).wf(),
            old(self).entries@.contains_key(stamp),
        ensures
            final(self).wf(),
            final(self).next_stamp == old(self).next_stamp,
            final(self).keys == old(self).keys,
            final(self).entries@.contains_key(stamp),
            final(self).entries@[stamp].key == old(self).entries@[stamp].key,
            before == old(self).entries@[stamp].value,
            old(self)@.contains_key(old(self).entries@[stamp].key@),
            old(self)@[old(self).entries@[stamp].key@].value == before@,
            final(self)@ == old(self)@.insert(
                old(self).entries@[stamp].key@,
                with_value(old(self)@[old(self).entries@[stamp].key@], value@),
            ),
    {
        let ghost owner = self.entries@[stamp].key@;
        match self.entries.remove(&stamp) {
            Some(entry) => {
                let Entry { key, value: before, deadline } = entry;
                self.entries.insert(stamp, Entry { key, value, deadline });
                proof {
                    assert(self.entries@.dom() =~= old(self).entries@.dom());
                    assert(self.wf());
                    assert forall|k: Seq<char>| k != owner && #[trigger] self@.contains_key(
                        k,
                    ) implies self@[k] == old(self)@[k] by {
                        assert(self.keys@[k] != stamp);
                    }
                }
                before
            },
            None => value,
        }
    }

    /// Adds `scalar` at one end of the sequence under `key`. A key that a
    /// client would not find at `now` gets a new sequence that never
    /// expires; a value of another kind is left alone and refused.
    pub fn sequence_push(&mut self, key: &str, end: End, scalar: StrValue, now: u64) -> (r: Result<
        (),
        TypeMismatch,
    >)
        requires
            old(self).wf(),
            lookup(old(self)@, key@, now) is None ==> old(self).writes() < u64::MAX,
        ensures
            final(self).wf(),
            r is Err <==> not_a_sequence(old(self)@, key@, now),
            r is Err ==> final(self)@ == old(self)@ && final(self).writes() == old(self).writes(),
            r is Ok ==> final(self)@ == after_push(
                old(self)@,
                key@,
                end,
                scalar@,
                now,
                old(self).writes(),
            ),
            r is Ok ==> final(self).writes() == old(self).writes() + (if lookup(
                old(self)@,
                key@,
                now,
            ) is None {
                1nat
            } else {
                0nat
            }),
    {
        match self.find(key, now) {
            None => {
                self.put(String::from_str(key), Value::list_of(scalar), u64::MAX);
                assert(self@ =~= after_push(
                    old(self)@,
                    key@,
                    end,
                    scalar@,
                    now,
                    old(self).writes(),
                ));
                Ok(())
            },
            Some(stamp) => {
                let fits = match self.entries.get(&stamp) {
                    Some(entry) => entry.value.is_list(),
                    None => false,
                };
                if !fits {
                    return Err(TypeMismatch);
                }
                let hole = Value::String { backing: StrValue::Numeric(0) };
                let value = self.swap_value(stamp, hole).push(end, scalar);
                self.swap_value(stamp, value);
                assert(self@ =~= after_push(
                    old(self)@,
                    key@,
                    end,
                    scalar@,
                    now,
                    old(self).writes(),
                ));
                Ok(())
            },
        }
    }

    /// Takes the scalar at one end of the sequence under `key`. Nothing
    /// is returned where a client would not find the key at `now`, or
    /// finds an empty sequence; a value of another kind is left alone and
    /// refused.
    pub fn sequence_pop(&mut self, key: &str, end: End, now: u64) -> (r: Result<
        Option<StrValue>,
        TypeMismatch,
    >)
        requires
            old(self).wf(),
        ensures
            final(self).wf(),
            final(self).writes() == old(self).writes(),
            r is Err <==> not_a_sequence(old(self)@, key@, now),
            r is Err ==> final(self)@ == old(self)@,
            r is Ok ==> final(self)@ == after_pop(old(self)@, key@, end, now),
            r is Ok ==> match pop_result(old(self)@, key@, end, now) {
                Some(x) => r->Ok_0 is Some && r->Ok_0->Some_0@ == x,
                None => r->Ok_0 is None,
            },
    {
        match self.find(key, now) {
            None => Ok(None),
            Some(stamp) => {
                let fits = match self.entries.get(&stamp) {
                    Some(entry) => entry.value.is_list(),
                    None => false,
                };
                if !fits {
                    return Err(TypeMismatch);
                }
                let hole = Value::String { backing: StrValue::Numeric(0) };
                let (value, x) = self.swap_value(stamp, hole).pop(end);
                self.swap_value(stamp, value);
                Ok(x)
            },
        }
    }

    /// Reads the scalar under `field` of the field map under `key`.
    /// Nothing is returned where a client would not find the key at `now`,
    /// or the field in the map; a value of another kind is refused.
    pub fn field_get(&mut self, key: &str, field: &str, now: u64) -> (r: Result<
        Option<StrValue>,
        TypeMismatch,
    >)
        requires
            old(self).wf(),
        ensures
            final(self).wf(),
            final(self).writes() == old(self).writes(),
            final(self)@ == touched(old(self)@, key@, now),
            r is Err <==> not_fields(old(self)@, key@, now),
            r is Ok ==> match field_result(old(self)@, key@, field@, now) {
                Some(x) => r->Ok_0 is Some && r->Ok_0->Some_0@ == x,
                None => r->Ok_0 is None,
            },
    {
        match self.find(key, now) {
            None => Ok(None),
            Some(stamp) => match self.entries.get(&stamp) {
                Some(entry) => {
                    if entry.value.is_fields() {
                        Ok(entry.value.field(field))
                    } else {
                        Err(TypeMismatch)
                    }
                },
                None => Ok(None),
            },
        }
    }

    /// Puts `scalar` under `field` of the field map under `key`. A key
    /// that a client would not find at `now` gets a new field map that
    /// never expires; a value of another kind is left alone and refused.
    pub fn field_set(&mut self, key: &str, field: String, scalar: StrValue, now: u64) -> (r:
        Result<(), TypeMismatch>)
        requires
            old(self).wf(),
            lookup(old(self)@, key@, now) is None ==> old(self).writes() < u64::MAX,
        ensures
            final(self).wf(),
            r is Err <==> not_fields(old(self)@, key@, now),
            r is Err ==> final(self)@ == old(self)@ && final(self).writes() == old(self).writes(),
            r is Ok ==> final(self)@ == after_field_set(
                old(self)@,
                key@,
                field@,
                scalar@,
                now,
                old(self).writes(),
            ),
            r is Ok ==> final(self).writes() == old(self).writes() + (if lookup(
                old(self)@,
                key@,
                now,
            ) is None {
                1nat
            } else {
                0nat
            }),
    {
        match self.find(key, now) {
            None => {
                self.put(String::from_str(key), Value::fields_of(field, scalar), u64::MAX);
                assert(self@ =~= after_field_set(
                    old(self)@,
                    key@,
                    field@,
                    scalar@,
                    now,
                    old(self).writes(),
                ));
                Ok(())
            },
            Some(stamp) => {
                let fits = match self.entries.get(&stamp) {
                    Some(entry) => entry.value.is_fields(),
                    None => false,
                };
                if !fits {
                    return Err(TypeMismatch);
                }
                let hole = Value::String { backing: StrValue::Numeric(0) };
                let value = self.swap_value(stamp, hole).with_field(field, scalar);
                self.swap_value(stamp, value);
                assert(self@ =~= after_field_set(
                    old(self)@,
                    key@,
                    field@,
                    scalar@,
                    now,
                    old(self).writes(),
                ));
                Ok(())
            },
        }
    }

    /// Takes the entry with this stamp out of the store, if there is one,
    /// and says whether there was. Its record stays behind in the index.
    fn drop_stamp(&mut self, stamp: u64) -> (removed: bool)
        requires
            old(self).wf(),
        ensures
            final(self).wf(),
            final(self).next_stamp == old(self).next_stamp,
            final(self).due == old(self).due,
            removed == old(self).entries@.contains_key(stamp),
            !removed ==> final(self)@ == old(self)@,
            removed ==> old(self)@.contains_key(old(self).entries@[stamp].key@),
            removed ==> final(self)@ == old(self)@.remove(old(self).entries@[stamp].key@),
            removed ==> final(self)@.len() == old(self)@.len() - 1,
            !final(self).entries@.contains_key(stamp),
    {
        proof {
            self.lemma_dom();
        }
        match self.entries.remove(&stamp) {
            Some(entry) => {
                self.keys.remove(entry.key.as_str());
                proof {
                    self.lemma_dom();
                }
                true
            },
            None => false,
        }
    }

    /// Takes the first record out of the index, which no entry stands
    /// behind any more.
    fn discard(&mut self, m: Record)
        requires
            old(self).wf(),
            is_least(old(self).due@, m),
            !old(self).entries@.contains_key(m.1),
        ensures
            final(self).wf(),
            final(self).next_stamp == old(self).next_stamp,
            final(self).keys == old(self).keys,
            final(self).entries == old(self).entries,
            final(self)@ == old(self)@,
            final(self).due@ == old(self).due@.remove(m),
            final(self).due@.len() == old(self).due@.len() - 1,
    {
        let first = self.due.pop_min();
        proof {
            assert(first == Some(m)) by {
                assert(record_le(m, first->Some_0) && record_le(first->Some_0, m));
            }
            assert forall|r: Record| #[trigger] self.due@.contains(r) implies old(self).due@.contains(
                r,
            ) by {}
        }
    }

    /// Drops the records at the near end of the index that no entry
    /// stands behind, and returns the first one that an entry does stand
    /// behind.
    fn settle_min(&mut self) -> (r: Option<Record>)
        requires
            old(self).wf(),
        ensures
            final(self).wf(),
            final(self).next_stamp == old(self).next_stamp,
            final(self).keys == old(self).keys,
            final(self).entries == old(self).entries,
            final(self)@ == old(self)@,
            match r {
                Some(m) => is_least(final(self).due@, m) && final(self).entries@.contains_key(m.1),
                None => final(self)@.len() == 0,
            },
    {
        loop
            invariant
                self.wf(),
                self.next_stamp == old(self).next_stamp,
                self.keys == old(self).keys,
                self.entries == old(self).entries,
            decreases self.due@.len(),
        {
            match self.due.peek_min() {
                None => {
                    proof {
                        self.lemma_dom();
                        if self@.len() > 0 {
                            let k = self.keys@.dom().choose();
                            assert(self.keys@.contains_key(k));
                            assert(self.due@.contains(
                                (self.entries@[self.keys@[k]].deadline, self.keys@[k]),
                            ));
                        }
                    }
                    return None;
                },
                Some(m) => {
                    if self.entries.contains_key(&m.1) {
                        return Some(m);
                    }
                    self.discard(m);
                },
            }
        }
    }

    /// Removes every entry that has expired at `now`, and returns how
    /// many there were.
    pub fn expire_due(&mut self, now: u64) -> (count: usize)
        requires
            old(self).wf(),
        ensures
            final(self).wf(),
            final(self).writes() == old(self).writes(),
            final(self)@ == swept(old(self)@, now),
            count == old(self)@.len() - final(self)@.len(),
    {
        let mut count: usize = 0;
        let mut more = true;
        proof {
            self.lemma_dom();
        }
        while more
            invariant
                self.wf(),
                old(self).wf(),
                old(self)@.len() <= usize::MAX,
                self.next_stamp == old(self).next_stamp,
                forall|k: Seq<char>| #[trigger]
                    self@.contains_key(k) ==> old(self)@.contains_key(k) && self@[k] == old(self)@[k],
                forall|k: Seq<char>| #[trigger]
                    old(self)@.contains_key(k) && !self@.contains_key(k) ==> !live(
                        old(self)@[k],
                        now,
                    ),
                count + self@.len() == old(self)@.len(),
                !more ==> forall|k: Seq<char>| #[trigger]
                    self@.contains_key(k) ==> live(self@[k], now),
            decreases
                    self.due@.len() + (if more {
                        1nat
                    } else {
                        0nat
                    }),
        {
            match self.due.peek_min() {
                Some(m) => {
                    if m.0 < now {
                        if self.drop_stamp(m.1) {
                            count = count + 1;
                        }
                        self.discard(m);
                    } else {
                        more = false;
                        assert forall|k: Seq<char>| #[trigger] self@.contains_key(k) implies live(
                            self@[k],
                            now,
                        ) by {
                            assert(self.entries@.contains_key(self.keys@[k]));
                        }
                    }
                },
                None => {
                    more = false;
                    assert forall|k: Seq<char>| #[trigger] self@.contains_key(k) implies live(
                        self@[k],
                        now,
                    ) by {
                        assert(self.entries@.contains_key(self.keys@[k]));
                    }
                },
            }
        }
        proof {
            self.lemma_dom();
        }
        count
    }

    /// Makes room: while more than `limit` entries are held, removes the
    /// one that would be served for the shortest time, and of several such
    /// the one written first. Returns how many were removed.
    pub fn evict_to_capacity(&mut self, limit: usize) -> (count: usize)
        requires
            old(self).wf(),
        ensures
            final(self).wf(),
            final(self).writes() == old(self).writes(),
            final(self)@.submap_of(old(self)@),
            final(self)@.len() == if old(self)@.len() <= limit {
                old(self)@.len()
            } else {
                limit as nat
            },
            count == old(self)@.len() - final(self)@.len(),
            forall|e: Seq<char>, r: Seq<char>|
                old(self)@.contains_key(e) && !final(self)@.contains_key(e)
                    && final(self)@.contains_key(r) ==> leaves_before(
                    #[trigger] old(self)@[e],
                    #[trigger] old(self)@[r],
                ),
    {
        let mut count: usize = 0;
        proof {
            self.lemma_dom();
        }
        while self.len() > limit
            invariant
                self.wf(),
                old(self).wf(),
                self.next_stamp == old(self).next_stamp,
                forall|k: Seq<char>| #[trigger]
                    self@.contains_key(k) ==> old(self)@.contains_key(k) && self@[k] == old(self)@[k],
                old(self)@.len() <= usize::MAX,
                count + self@.len() == old(self)@.len(),
                old(self)@.len() <= limit ==> count == 0,
                old(self)@.len() > limit ==> self@.len() >= limit,
                forall|e: Seq<char>, r: Seq<char>|
                    old(self)@.contains_key(e) && !self@.contains_key(e) && self@.contains_key(r)
                        ==> leaves_before(#[trigger] old(self)@[e], #[trigger] old(self)@[r]),
            decreases self@.len(),
        {
            match self.settle_min() {
                Some(m) => {
                    let ghost victim = self.entries@[m.1].key@;
                    let ghost settled = *self;
                    self.drop_stamp(m.1);
                    self.discard(m);
                    count = count + 1;
                    proof {
                        assert forall|r: Seq<char>| #[trigger] self@.contains_key(r) implies leaves_before(
                            old(self)@[victim],
                            old(self)@[r],
                        ) by {
                            let s = settled.keys@[r];
                            assert(settled.entries@[s].key@ == r);
                            assert(record_le(m, (settled.entries@[s].deadline, s)));
                        }
                    }
                },
                None => {},
            }
        }
        proof {
            self.lemma_dom();
        }
        count
    }

    /// Drops every entry and every record: the store is as it was when it
    /// was made.
    pub fn clear(&mut self)
        ensures
            final(self).wf(),
            final(self)@ == Map::<Seq<char>, EntryView>::empty(),
            final(self).writes() == 0,
    {
        self.keys.clear();
        self.entries.clear();
        self.due.clear();
        self.next_stamp = 0;
    }
}

} // verus!
