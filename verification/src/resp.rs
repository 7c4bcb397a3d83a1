//! The adapter for the family of commands with typed replies: it turns a
//! decoded request into calls of the store, and what they return into a
//! reply.

use crate::model::after_field_set;
use crate::model::after_pop;
use crate::model::after_push;
use crate::model::field_result;
use crate::model::leaves_before;
use crate::model::lookup;
use crate::model::not_a_sequence;
use crate::model::not_fields;
use crate::model::pop_result;
use crate::model::swept;
use crate::model::touched;
use crate::model::written;
use crate::model::End;
use crate::model::Entries;
use crate::model::EntryView;
use crate::model::ValueView;
use crate::scalar::Scalar;
use crate::scalar::StrValue;
use crate::store::Index;
use crate::store::Value;
use crate::text::decode;
use crate::text::text_of;
use vstd::prelude::*;
use vstd::string::StringExecFns;

verus! {

/// `std::io::Error`, the error that making a store can in principle
/// report. Nothing of it is known here.
#[verifier::external_type_specification]
#[verifier::external_body]
pub struct ExIoError(std::io::Error);

/// When a written entry is to expire, as a request states it.
#[derive(Clone, Copy, Debug, PartialEq, Eq)]
pub enum ExpireTime {
    Seconds(u64),
    Milliseconds(u64),
    UnixSeconds(u64),
    UnixMilliseconds(u64),
    KeepTtl,
}

/// A request to read the scalar under a key.
#[derive(Debug)]
pub struct Get {
    pub key: Vec<u8>,
}

/// A request to put a scalar under a key.
#[derive(Debug)]
pub struct Put {
    pub key: Vec<u8>,
    pub value: Vec<u8>,
    pub expire_time: Option<ExpireTime>,
}

/// A decoded request.
#[derive(Debug)]
pub enum Request {
    Get(Get),
    Put(Put),
    Del { key: Vec<u8> },
    Push { key: Vec<u8>, end: End, value: Vec<u8> },
    Pop { key: Vec<u8>, end: End },
    FieldGet { key: Vec<u8>, field: Vec<u8> },
    FieldSet { key: Vec<u8>, field: Vec<u8>, value: Vec<u8> },
    /// Any other command.
    Other,
}

/// A reply, before it is encoded.
#[derive(Debug, PartialEq, Eq)]
pub enum Response {
    /// A payload of bytes, for a scalar that was read.
    BulkString(Vec<u8>),
    /// Nothing was found.
    Null,
    /// A short acknowledgement.
    SimpleString(String),
    /// A short reason why the request was refused.
    Error(String),
    /// A count.
    Integer(i64),
}

/// What a reply holds, as a mathematical value.
pub enum Reply {
    Bulk(Seq<u8>),
    Null,
    Status(Seq<char>),
    Error(Seq<char>),
    Integer(int),
}

impl View for Response {
    type V = Reply;

    open spec fn view(&self) -> Reply {
        match self {
            Response::BulkString(b) => Reply::Bulk(b@),
            Response::Null => Reply::Null,
            Response::SimpleString(s) => Reply::Status(s@),
            Response::Error(s) => Reply::Error(s@),
            Response::Integer(n) => Reply::Integer(*n as int),
        }
    }
}

/// The reply to a write that was done.
pub open spec fn done() -> Reply {
    Reply::Status("OK"@)
}

/// The reply to a command that the adapter does not know.
pub open spec fn unknown_command() -> Reply {
    Reply::Error("not supported"@)
}

/// The reply to a key that is no text.
pub open spec fn bad_key() -> Reply {
    Reply::Error("Only UTF-8 keys are supported"@)
}

/// The reply to a value or a field that is no text.
pub open spec fn bad_value() -> Reply {
    Reply::Error("Only UTF-8 values are supported"@)
}

/// The reply to an operation that finds a value of another kind.
pub open spec fn wrong_type() -> Reply {
    Reply::Error("WRONGTYPE Operation against a key holding the wrong kind of value"@)
}

/// The reply to a write that the store has no stamp left for.
pub open spec fn exhausted() -> Reply {
    Reply::Error("write limit reached"@)
}

/// The reply to a read that found `found`: the text of a scalar, an error
/// for a value of another kind, and the null reply for nothing.
pub open spec fn read_reply(found: Option<EntryView>) -> Reply {
    match found {
        Some(e) => match e.value {
            ValueView::Scalar(s) => Reply::Bulk(s.text()),
            _ => wrong_type(),
        },
        None => Reply::Null,
    }
}

/// The reply that hands out the scalar `found`, or says that there is
/// none.
pub open spec fn scalar_reply(found: Option<Scalar>) -> Reply {
    match found {
        Some(s) => Reply::Bulk(s.text()),
        None => Reply::Null,
    }
}

/// Whether `reply` and the store `m2` after `w2` writes are what a read of
/// `key` at `now` makes of the store `m` after `w` writes.
pub open spec fn answers_get(
    m: Entries,
    w: nat,
    key: Seq<u8>,
    now: u64,
    reply: Reply,
    m2: Entries,
    w2: nat,
) -> bool {
    &&& w2 == w
    &&& match text_of(key) {
        Some(k) => reply == read_reply(lookup(m, k, now)) && m2 == touched(m, k, now),
        None => reply == bad_key() && m2 == m,
    }
}

/// Whether `reply`, `m2` and `w2` are what a write of `value` under `key`
/// makes of `m` and `w`.
pub open spec fn answers_set(
    m: Entries,
    w: nat,
    key: Seq<u8>,
    value: Seq<u8>,
    expire_time: Option<ExpireTime>,
    now: u64,
    reply: Reply,
    m2: Entries,
    w2: nat,
) -> bool {
    match (text_of(key), text_of(value)) {
        (None, _) => reply == bad_key() && m2 == m && w2 == w,
        (Some(_), None) => reply == bad_value() && m2 == m && w2 == w,
        (Some(k), Some(v)) => if w < u64::MAX {
            &&& reply == done()
            &&& w2 == w + 1
            &&& m2 == m.insert(
                k,
                written(ValueView::Scalar(Scalar::Text(v)), ttl_of(expire_time), now, w),
            )
        } else {
            reply == exhausted() && m2 == m && w2 == w
        },
    }
}

/// Whether `reply`, `m2` and `w2` are what deleting `key` makes of `m`
/// and `w`.
pub open spec fn answers_del(
    m: Entries,
    w: nat,
    key: Seq<u8>,
    now: u64,
    reply: Reply,
    m2: Entries,
    w2: nat,
) -> bool {
    &&& w2 == w
    &&& match text_of(key) {
        Some(k) => m2 == m.remove(k) && reply == Reply::Integer(
            if lookup(m, k, now) is Some {
                1int
            } else {
                0int
            },
        ),
        None => reply == bad_key() && m2 == m,
    }
}

/// Whether `reply`, `m2` and `w2` are what pushing `value` onto the
/// sequence under `key` makes of `m` and `w`.
pub open spec fn answers_push(
    m: Entries,
    w: nat,
    key: Seq<u8>,
    end: End,
    value: Seq<u8>,
    now: u64,
    reply: Reply,
    m2: Entries,
    w2: nat,
) -> bool {
    match (text_of(key), text_of(value)) {
        (None, _) => reply == bad_key() && m2 == m && w2 == w,
        (Some(_), None) => reply == bad_value() && m2 == m && w2 == w,
        (Some(k), Some(v)) => if w >= u64::MAX {
            reply == exhausted() && m2 == m && w2 == w
        } else if not_a_sequence(m, k, now) {
            reply == wrong_type() && m2 == m && w2 == w
        } else {
            &&& reply == done()
            &&& m2 == after_push(m, k, end, Scalar::Text(v), now, w)
            &&& w2 == w + (if lookup(m, k, now) is None {
                1nat
            } else {
                0nat
            })
        },
    }
}

/// Whether `reply`, `m2` and `w2` are what popping from the sequence
/// under `key` makes of `m` and `w`.
pub open spec fn answers_pop(
    m: Entries,
    w: nat,
    key: Seq<u8>,
    end: End,
    now: u64,
    reply: Reply,
    m2: Entries,
    w2: nat,
) -> bool {
    &&& w2 == w
    &&& match text_of(key) {
        Some(k) => if not_a_sequence(m, k, now) {
            reply == wrong_type() && m2 == m
        } else {
            reply == scalar_reply(pop_result(m, k, end, now)) && m2 == after_pop(m, k, end, now)
        },
        None => reply == bad_key() && m2 == m,
    }
}

/// Whether `reply`, `m2` and `w2` are what reading `field` of the field
/// map under `key` makes of `m` and `w`.
pub open spec fn answers_field_get(
    m: Entries,
    w: nat,
    key: Seq<u8>,
    field: Seq<u8>,
    now: u64,
    reply: Reply,
    m2: Entries,
    w2: nat,
) -> bool {
    &&& w2 == w
    &&& match (text_of(key), text_of(field)) {
        (None, _) => reply == bad_key() && m2 == m,
        (Some(_), None) => reply == bad_value() && m2 == m,
        (Some(k), Some(f)) => m2 == touched(m, k, now) && if not_fields(m, k, now) {
            reply == wrong_type()
        } else {
            reply == scalar_reply(field_result(m, k, f, now))
        },
    }
}

/// Whether `reply`, `m2` and `w2` are what setting `field` of the field
/// map under `key` to `value` makes of `m` and `w`.
pub open spec fn answers_field_set(
    m: Entries,
    w: nat,
    key: Seq<u8>,
    field: Seq<u8>,
    value: Seq<u8>,
    now: u64,
    reply: Reply,
    m2: Entries,
    w2: nat,
) -> bool {
    match (text_of(key), text_of(field), text_of(value)) {
        (None, _, _) => reply == bad_key() && m2 == m && w2 == w,
        (Some(_), None, _) => reply == bad_value() && m2 == m && w2 == w,
        (Some(_), Some(_), None) => reply == bad_value() && m2 == m && w2 == w,
        (Some(k), Some(f), Some(v)) => if w >= u64::MAX {
            reply == exhausted() && m2 == m && w2 == w
        } else if not_fields(m, k, now) {
            reply == wrong_type() && m2 == m && w2 == w
        } else {
            &&& reply == done()
            &&& m2 == after_field_set(m, k, f, Scalar::Text(v), now, w)
            &&& w2 == w + (if lookup(m, k, now) is None {
                1nat
            } else {
                0nat
            })
        },
    }
}

/// Whether `reply`, `m2` and `w2` are what `request` makes of `m` and `w`.
pub open spec fn answers(
    m: Entries,
    w: nat,
    request: Request,
    now: u64,
    reply: Reply,
    m2: Entries,
    w2: nat,
) -> bool {
    match request {
        Request::Get(get) => answers_get(m, w, get.key@, now, reply, m2, w2),
        Request::Put(set) => answers_set(
            m,
            w,
            set.key@,
            set.value@,
            set.expire_time,
            now,
            reply,
            m2,
            w2,
        ),
        Request::Del { key } => answers_del(m, w, key@, now, reply, m2, w2),
        Request::Push { key, end, value } => answers_push(
            m,
            w,
            key@,
            end,
            value@,
            now,
            reply,
            m2,
            w2,
        ),
        Request::Pop { key, end } => answers_pop(m, w, key@, end, now, reply, m2, w2),
        Request::FieldGet { key, field } => answers_field_get(
            m,
            w,
            key@,
            field@,
            now,
            reply,
            m2,
            w2,
        ),
        Request::FieldSet { key, field, value } => answers_field_set(
            m,
            w,
            key@,
            field@,
            value@,
            now,
            reply,
            m2,
            w2,
        ),
        Request::Other => reply == unknown_command() && m2 == m && w2 == w,
    }
}

/// The time to live that a request states: the seconds where it gives
/// seconds, and none in every other case.
pub open spec fn ttl_of(expire_time: Option<ExpireTime>) -> Option<u64> {
    match expire_time {
        Some(ExpireTime::Seconds(n)) => Some(n),
        _ => None,
    }
}

fn reply_error(reason: &str) -> (r: Response)
    ensures
        r@ == Reply::Error(reason@),
{
    Response::Error(String::from_str(reason))
}

fn reply_done() -> (r: Response)
    ensures
        r@ == done(),
{
    Response::SimpleString(String::from_str("OK"))
}

fn reply_bad_key() -> (r: Response)
    ensures
        r@ == bad_key(),
{
    reply_error("Only UTF-8 keys are supported")
}

fn reply_bad_value() -> (r: Response)
    ensures
        r@ == bad_value(),
{
    reply_error("Only UTF-8 values are supported")
}

fn reply_exhausted() -> (r: Response)
    ensures
        r@ == exhausted(),
{
    reply_error("write limit reached")
}

fn reply_wrong_type() -> (r: Response)
    ensures
        r@ == wrong_type(),
{
    reply_error("WRONGTYPE Operation against a key holding the wrong kind of value")
}

fn reply_scalar(found: Option<StrValue>) -> (r: Response)
    ensures
        r@ == scalar_reply(
            match found {
                Some(x) => Some(x@),
                None => None,
            },
        ),
{
    match found {
        Some(x) => Response::BulkString(x.to_bytes()),
        None => Response::Null,
    }
}

fn text_value(text: &str) -> (r: StrValue)
    ensures
        r@ == Scalar::Text(text@),
{
    StrValue::StringValue(String::from_str(text))
}

/// A store behind the adapter.
pub struct MixedDs {
    data: Index,
}

impl View for MixedDs {
    type V = Entries;

    closed spec fn view(&self) -> Entries {
        self.data@
    }
}

impl MixedDs {
    /// Whether the store behind the adapter is well formed.
    pub closed spec fn wf(&self) -> bool {
        self.data.wf()
    }

    /// The number of writes that made an entry since the store was made or
    /// last cleared.
    pub closed spec fn writes(&self) -> nat {
        self.data.writes()
    }

    /// An adapter over an empty store.
    pub fn new() -> (r: Result<Self, std::io::Error>)
        ensures
            r is Ok,
            r->Ok_0.wf(),
            r->Ok_0@ == Map::<Seq<char>, EntryView>::empty(),
            r->Ok_0.writes() == 0,
    {
        let data = Index::new();
        Ok(Self { data })
    }

    /// The number of entries held, expired ones that were not yet swept
    /// included.
    pub fn len(&self) -> (n: usize)
        requires
            self.wf(),
        ensures
            n == self@.len(),
    {
        self.data.len()
    }

    /// Removes every entry that has expired at `now`, and returns how
    /// many there were.
    pub fn expire(&mut self, now: u64) -> (count: usize)
        requires
            old(self).wf(),
        ensures
            final(self).wf(),
            final(self).writes() == old(self).writes(),
            final(self)@ == swept(old(self)@, now),
            count == old(self)@.len() - final(self)@.len(),
    {
        self.data.expire_due(now)
    }

    /// Drops every entry.
    pub fn clear(&mut self)
        ensures
            final(self).wf(),
            final(self)@ == Map::<Seq<char>, EntryView>::empty(),
            final(self).writes() == 0,
    {
        self.data.clear()
    }

    /// Answers a request at the instant `now`. Every key, field and value
    /// of the request is read as text before the store is touched.
    pub fn execute(&mut self, request: &Request, now: u64) -> (r: Response)
        requires
            old(self).wf(),
        ensures
            final(self).wf(),
            answers(
                old(self)@,
                old(self).writes(),
                *request,
                now,
                r@,
                final(self)@,
                final(self).writes(),
            ),
    {
        match request {
            Request::Get(get) => self.get(get, now),
            Request::Put(set) => self.set(set, now),
            Request::Del { key } => self.delete(key.as_slice(), now),
            Request::Push { key, end, value } => self.push(
                key.as_slice(),
                *end,
                value.as_slice(),
                now,
            ),
            Request::Pop { key, end } => self.pop(key.as_slice(), *end, now),
            Request::FieldGet { key, field } => self.field_get(
                key.as_slice(),
                field.as_slice(),
                now,
            ),
            Request::FieldSet { key, field, value } => self.field_set(
                key.as_slice(),
                field.as_slice(),
                value.as_slice(),
                now,
            ),
            Request::Other => reply_error("not supported"),
        }
    }

    /// Reads the scalar under a key.
    pub fn get(&mut self, get: &Get, now: u64) -> (r: Response)
        requires
            old(self).wf(),
        ensures
            final(self).wf(),
            answers_get(
                old(self)@,
                old(self).writes(),
                get.key@,
                now,
                r@,
                final(self)@,
                final(self).writes(),
            ),
    {
        match decode(get.key.as_slice()) {
            Some(key) => match self.data.get(key, now) {
                Some(Value::String { backing }) => Response::BulkString(backing.to_bytes()),
                Some(_) => reply_wrong_type(),
                None => Response::Null,
            },
            None => reply_bad_key(),
        }
    }

    /// Puts a scalar under a key, in place of whatever is there.
    pub fn set(&mut self, set: &Put, now: u64) -> (r: Response)
        requires
            old(self).wf(),
        ensures
            final(self).wf(),
            answers_set(
                old(self)@,
                old(self).writes(),
                set.key@,
                set.value@,
                set.expire_time,
                now,
                r@,
                final(self)@,
                final(self).writes(),
            ),
    {
        let ttl: Option<u64> = match set.expire_time {
            Some(ExpireTime::Seconds(n)) => Some(n),
            _ => None,
        };
        match decode(set.key.as_slice()) {
            Some(key) => match decode(set.value.as_slice()) {
                Some(value) => {
                    if self.data.written() == u64::MAX {
                        return reply_exhausted();
                    }
                    let value = text_value(value);
                    self.data.set(String::from_str(key), &value, ttl, now);
                    reply_done()
                },
                None => reply_bad_value(),
            },
            None => reply_bad_key(),
        }
    }

    /// Deletes a key, and replies with the number of entries that a
    /// client would have found under it.
    pub fn delete(&mut self, key: &[u8], now: u64) -> (r: Response)
        requires
            old(self).wf(),
        ensures
            final(self).wf(),
            answers_del(
                old(self)@,
                old(self).writes(),
                key@,
                now,
                r@,
                final(self)@,
                final(self).writes(),
            ),
    {
        match decode(key) {
            Some(key) => {
                if self.data.delete(key, now) {
                    Response::Integer(1)
                } else {
                    Response::Integer(0)
                }
            },
            None => reply_bad_key(),
        }
    }

    /// Pushes a text onto one end of the sequence under a key.
    pub fn push(&mut self, key: &[u8], end: End, value: &[u8], now: u64) -> (r: Response)
        requires
            old(self).wf(),
        ensures
            final(self).wf(),
            answers_push(
                old(self)@,
                old(self).writes(),
                key@,
                end,
                value@,
                now,
                r@,
                final(self)@,
                final(self).writes(),
            ),
    {
        let key = match decode(key) {
            Some(key) => key,
            None => {
                return reply_bad_key();
            },
        };
        let value = match decode(value) {
            Some(value) => value,
            None => {
                return reply_bad_value();
            },
        };
        if self.data.written() == u64::MAX {
            return reply_exhausted();
        }
        match self.data.sequence_push(key, end, text_value(value), now) {
            Ok(()) => reply_done(),
            Err(_) => reply_wrong_type(),
        }
    }

    /// Pops the scalar at one end of the sequence under a key.
    pub fn pop(&mut self, key: &[u8], end: End, now: u64) -> (r: Response)
        requires
            old(self).wf(),
        ensures
            final(self).wf(),
            answers_pop(
                old(self)@,
                old(self).writes(),
                key@,
                end,
                now,
                r@,
                final(self)@,
                final(self).writes(),
            ),
    {
        match decode(key) {
            Some(key) => match self.data.sequence_pop(key, end, now) {
                Ok(found) => reply_scalar(found),
                Err(_) => reply_wrong_type(),
            },
            None => reply_bad_key(),
        }
    }

    /// Reads one field of the field map under a key.
    pub fn field_get(&mut self, key: &[u8], field: &[u8], now: u64) -> (r: Response)
        requires
            old(self).wf(),
        ensures
            final(self).wf(),
            answers_field_get(
                old(self)@,
                old(self).writes(),
                key@,
                field@,
                now,
                r@,
                final(self)@,
                final(self).writes(),
            ),
    {
        let key = match decode(key) {
            Some(key) => key,
            None => {
                return reply_bad_key();
            },
        };
        let field = match decode(field) {
            Some(field) => field,
            None => {
                return reply_bad_value();
            },
        };
        match self.data.field_get(key, field, now) {
            Ok(found) => reply_scalar(found),
            Err(_) => reply_wrong_type(),
        }
    }

    /// Sets one field of the field map under a key to a text.
    pub fn field_set(&mut self, key: &[u8], field: &[u8], value: &[u8], now: u64) -> (r:
        Response)
        requires
            old(self).wf(),
        ensures
            final(self).wf(),
            answers_field_set(
                old(self)@,
                old(self).writes(),
                key@,
                field@,
                value@,
                now,
                r@,
                final(self)@,
                final(self).writes(),
            ),
    {
        let key = match decode(key) {
            Some(key) => key,
            None => {
                return reply_bad_key();
            },
        };
        let field = match decode(field) {
            Some(field) => field,
            None => {
                return reply_bad_value();
            },
        };
        let value = match decode(value) {
            Some(value) => value,
            None => {
                return reply_bad_value();
            },
        };
        if self.data.written() == u64::MAX {
            return reply_exhausted();
        }
        match self.data.field_set(key, String::from_str(field), text_value(value), now) {
            Ok(()) => reply_done(),
            Err(_) => reply_wrong_type(),
        }
    }

    /// Makes room: removes entries, the soonest to expire first, until at
    /// most `limit` are held. Returns how many were removed.
    pub fn evict(&mut self, limit: usize) -> (count: usize)
        requires
            old(self).wf(),
        ensures
            final(self).wf(),
            final(self).writes() == old(self).writes(),
            final(self)@.submap_of(old(self)@),
            final(self)@.len() == if old(self)@.len() <= limit {
                old(self)@.len()
            } else {
                limit as nat
            },
            count == old(self)@.len() - final(self)@.len(),
            forall|e: Seq<char>, r: Seq<char>|
                old(self)@.contains_key(e) && !final(self)@.contains_key(e) && final(self)@.contains_key(r) ==> leaves_before(
                    #[trigger] old(self)@[e],
                    #[trigger] old(self)@[r],
                ),
    {
        self.data.evict_to_capacity(limit)
    }
}

} // verus!
