//! The adapter for the family of commands with plain text replies: the
//! frames of a read, for one key or for many.

use crate::model::lookup;
use crate::model::touched;
use crate::model::Entries;
use crate::model::ValueView;
use crate::scalar::digits;
use crate::scalar::push_digits;
use crate::store::Index;
use crate::store::Value;
use crate::text::decode;
use crate::text::text_of;
use vstd::prelude::*;
use vstd::string::StringSliceAdditionalSpecFns;

verus! {

/// The word that starts the line of an item, with the space behind it.
pub open spec fn value_word() -> Seq<u8> {
    "VALUE ".spec_bytes()
}

/// The flags of every item, between two spaces.
pub open spec fn no_flags() -> Seq<u8> {
    " 0 ".spec_bytes()
}

/// The bytes that end a line: carriage return, line feed.
pub open spec fn line_end() -> Seq<u8> {
    "\r\n".spec_bytes()
}

/// The line that closes the reply to a read.
pub open spec fn end_marker() -> Seq<u8> {
    "END\r\n".spec_bytes()
}

/// The reply to a read that finds a value which is no scalar.
pub open spec fn wrong_type_line() -> Seq<u8> {
    "SERVER_ERROR wrong type\r\n".spec_bytes()
}

/// The frame of one item that was found: the line `VALUE <key> 0 <length>`,
/// then the value on a line of its own.
pub open spec fn item(key: Seq<u8>, value: Seq<u8>) -> Seq<u8> {
    value_word() + key + no_flags() + digits(value.len()) + line_end() + value + line_end()
}

/// What became of the request for one key.
#[derive(Debug)]
pub enum Fetched {
    /// The key was found, with this value.
    Hit(Vec<u8>),
    /// The key was not found.
    Miss,
    /// The backend failed.
    Failed,
    /// The backend refused the request because too many were made.
    RateLimited,
    /// The backend did not answer in time.
    TimedOut,
}

/// What one key adds to the reply: the frame of its item where it was
/// found, and nothing in every other case.
pub open spec fn framed(key: Seq<u8>, fetched: Fetched) -> Seq<u8> {
    match fetched {
        Fetched::Hit(value) => item(key, value@),
        _ => Seq::<u8>::empty(),
    }
}

/// Counts of what became of the requests.
#[derive(Clone, Copy, Debug, PartialEq, Eq, Structural)]
pub struct Counters {
    /// Requests made to the backend.
    pub requests: u64,
    /// Keys found.
    pub hits: u64,
    /// Keys not found.
    pub misses: u64,
    /// Requests that ended in an error of any kind: a failure, a refusal
    /// or a timeout.
    pub errors: u64,
    /// Requests refused because too many were made.
    pub rate_limited: u64,
    /// Requests not answered in time.
    pub timeouts: u64,
}

/// One more, as far as the counter goes.
pub open spec fn bumped(n: u64) -> u64 {
    if n < u64::MAX {
        (n + 1) as u64
    } else {
        n
    }
}

/// The counters after one more request that ended in `fetched`.
pub open spec fn counted(c: Counters, fetched: Fetched) -> Counters {
    match fetched {
        Fetched::Hit(_) => Counters { requests: bumped(c.requests), hits: bumped(c.hits), ..c },
        Fetched::Miss => Counters { requests: bumped(c.requests), misses: bumped(c.misses), ..c },
        Fetched::Failed => Counters { requests: bumped(c.requests), errors: bumped(c.errors), ..c },
        Fetched::RateLimited => Counters {
            requests: bumped(c.requests),
            errors: bumped(c.errors),
            rate_limited: bumped(c.rate_limited),
            ..c
        },
        Fetched::TimedOut => Counters {
            requests: bumped(c.requests),
            errors: bumped(c.errors),
            timeouts: bumped(c.timeouts),
            ..c
        },
    }
}

fn bump(n: u64) -> (r: u64)
    ensures
        r == bumped(n),
{
    if n < u64::MAX {
        n + 1
    } else {
        n
    }
}

impl Counters {
    /// Counters that have counted nothing.
    pub fn new() -> (r: Counters)
        ensures
            r == (Counters {
                requests: 0,
                hits: 0,
                misses: 0,
                errors: 0,
                rate_limited: 0,
                timeouts: 0,
            }),
    {
        Counters { requests: 0, hits: 0, misses: 0, errors: 0, rate_limited: 0, timeouts: 0 }
    }
}

/// Appends `bytes` to `out`.
fn append(out: &mut Vec<u8>, bytes: &[u8])
    ensures
        final(out)@ == old(out)@ + bytes@,
{
    let mut i: usize = 0;
    while i < bytes.len()
        invariant
            i <= bytes.len(),
            out@ == old(out)@ + bytes@.take(i as int),
        decreases bytes.len() - i,
    {
        out.push(bytes[i]);
        i += 1;
    }
}

/// Appends the frame of one item to `out`.
pub fn push_item(out: &mut Vec<u8>, key: &[u8], value: &[u8])
    ensures
        final(out)@ == old(out)@ + item(key@, value@),
{
    append(out, "VALUE ".as_bytes());
    append(out, key);
    append(out, " 0 ".as_bytes());
    push_digits(out, value.len() as u64);
    append(out, "\r\n".as_bytes());
    append(out, value);
    append(out, "\r\n".as_bytes());
}

/// Closes a reply with the line `END`.
pub fn finish(out: &mut Vec<u8>)
    ensures
        final(out)@ == old(out)@ + end_marker(),
{
    append(out, "END\r\n".as_bytes());
}

/// Takes note of what became of the request for `key`: its frame goes
/// into the reply where it was found, and the counters count it.
pub fn record(out: &mut Vec<u8>, counters: &mut Counters, key: &[u8], fetched: &Fetched)
    ensures
        final(out)@ == old(out)@ + framed(key@, *fetched),
        *final(counters) == counted(*old(counters), *fetched),
{
    counters.requests = bump(counters.requests);
    match fetched {
        Fetched::Hit(value) => {
            counters.hits = bump(counters.hits);
            push_item(out, key, value.as_slice());
        },
        Fetched::Miss => {
            counters.misses = bump(counters.misses);
        },
        Fetched::Failed => {
            counters.errors = bump(counters.errors);
        },
        Fetched::RateLimited => {
            counters.errors = bump(counters.errors);
            counters.rate_limited = bump(counters.rate_limited);
        },
        Fetched::TimedOut => {
            counters.errors = bump(counters.errors);
            counters.timeouts = bump(counters.timeouts);
        },
    }
}

/// The keys of a request, each as its bytes.
pub open spec fn key_bytes(keys: Seq<Vec<u8>>) -> Seq<Seq<u8>> {
    keys.map_values(|k: Vec<u8>| k@)
}

/// What the key `key` adds to the reply of a read from the store `m`: the
/// frame of its item where it is text and a scalar is found under it, and
/// nothing in every other case.
pub open spec fn served(m: Entries, key: Seq<u8>, now: u64) -> Seq<u8> {
    match text_of(key) {
        Some(k) => match lookup(m, k, now) {
            Some(e) => match e.value {
                ValueView::Scalar(s) => item(key, s.text()),
                _ => Seq::<u8>::empty(),
            },
            None => Seq::<u8>::empty(),
        },
        None => Seq::<u8>::empty(),
    }
}

/// Whether a read of `key` finds a value that is no scalar.
pub open spec fn misfit(m: Entries, key: Seq<u8>, now: u64) -> bool {
    match text_of(key) {
        Some(k) => match lookup(m, k, now) {
            Some(e) => !(e.value is Scalar),
            None => false,
        },
        None => false,
    }
}

/// The frames of the items that a read of `keys` finds, in the order of
/// the keys.
pub open spec fn items(m: Entries, keys: Seq<Seq<u8>>, now: u64) -> Seq<u8>
    decreases keys.len(),
{
    if keys.len() == 0 {
        Seq::<u8>::empty()
    } else {
        items(m, keys.drop_last(), now) + served(m, keys.last(), now)
    }
}

/// Whether a read of `keys` finds, under any of them, a value that is no
/// scalar.
pub open spec fn any_misfit(m: Entries, keys: Seq<Seq<u8>>, now: u64) -> bool
    decreases keys.len(),
{
    if keys.len() == 0 {
        false
    } else {
        any_misfit(m, keys.drop_last(), now) || misfit(m, keys.last(), now)
    }
}

/// The store after a read of `keys`: each key that is text was looked at.
pub open spec fn touched_all(m: Entries, keys: Seq<Seq<u8>>, now: u64) -> Entries
    decreases keys.len(),
{
    if keys.len() == 0 {
        m
    } else {
        let rest = touched_all(m, keys.drop_last(), now);
        match text_of(keys.last()) {
            Some(k) => touched(rest, k, now),
            None => rest,
        }
    }
}

/// The reply to a read of `keys`: the frames of the items found and the
/// line `END`; or the line of the error alone, where a value that is no
/// scalar is found.
pub open spec fn batch_reply(m: Entries, keys: Seq<Seq<u8>>, now: u64) -> Seq<u8> {
    if any_misfit(m, keys, now) {
        wrong_type_line()
    } else {
        items(m, keys, now) + end_marker()
    }
}

/// Looking at keys changes nothing of what a client finds at that
/// instant.
pub proof fn lemma_touched_all_is_unseen(m: Entries, keys: Seq<Seq<u8>>, key: Seq<char>, now: u64)
    ensures
        lookup(touched_all(m, keys, now), key, now) == lookup(m, key, now),
    decreases keys.len(),
{
    if keys.len() > 0 {
        lemma_touched_all_is_unseen(m, keys.drop_last(), key, now);
    }
}

/// A read of many keys at once. A key that is no text is passed over, as
/// is one under which nothing is found; the others are served in the
/// order of the request.
pub fn get(store: &mut Index, keys: &[Vec<u8>], now: u64) -> (r: Vec<u8>)
    requires
        old(store).wf(),
    ensures
        final(store).wf(),
        final(store).writes() == old(store).writes(),
        final(store)@ == touched_all(old(store)@, key_bytes(keys@), now),
        r@ == batch_reply(old(store)@, key_bytes(keys@), now),
{
    let mut reply: Vec<u8> = Vec::new();
    let mut mismatch = false;
    let mut i: usize = 0;
    let ghost all = key_bytes(keys@);
    while i < keys.len()
        invariant
            i <= keys.len(),
            all == key_bytes(keys@),
            store.wf(),
            store.writes() == old(store).writes(),
            store@ == touched_all(old(store)@, all.take(i as int), now),
            reply@ == items(old(store)@, all.take(i as int), now),
            mismatch == any_misfit(old(store)@, all.take(i as int), now),
        decreases keys.len() - i,
    {
        let key = &keys[i];
        proof {
            assert(all.take(i + 1).drop_last() == all.take(i as int));
            if text_of(key@) is Some {
                lemma_touched_all_is_unseen(
                    old(store)@,
                    all.take(i as int),
                    text_of(key@)->Some_0,
                    now,
                );
            }
        }
        match decode(key.as_slice()) {
            Some(text) => match store.get(text, now) {
                Some(Value::String { backing }) => {
                    let value = backing.to_bytes();
                    push_item(&mut reply, key.as_slice(), value.as_slice());
                },
                Some(_) => {
                    mismatch = true;
                },
                None => {},
            },
            None => {},
        }
        i += 1;
    }
    assert(all.take(i as int) == all);
    if mismatch {
        let mut line: Vec<u8> = Vec::new();
        append(&mut line, "SERVER_ERROR wrong type\r\n".as_bytes());
        line
    } else {
        finish(&mut reply);
        reply
    }
}

} // verus!
