use mixed_ds::memcache::finish;
use mixed_ds::memcache::get;
use mixed_ds::memcache::push_item;
use mixed_ds::memcache::record;
use mixed_ds::memcache::Counters;
use mixed_ds::memcache::Fetched;
use mixed_ds::End;
use mixed_ds::Index;
use mixed_ds::StrValue;

fn text(s: &str) -> StrValue {
    StrValue::StringValue(s.to_string())
}

fn keys(list: &[&[u8]]) -> Vec<Vec<u8>> {
    list.iter().map(|k| k.to_vec()).collect()
}

#[test]
fn a_batched_read_passes_over_a_key_that_is_no_text() {
    let mut store = Index::new();
    store.set("a".to_string(), &text("1"), None, 0);
    store.set("b".to_string(), &text("22"), None, 0);
    let bad: [u8; 4] = [0x62, 0x61, 0xff, 0x64];
    let reply = get(&mut store, &keys(&[b"a", &bad, b"b"]), 0);
    assert_eq!(reply, b"VALUE a 0 1\r\n1\r\nVALUE b 0 2\r\n22\r\nEND\r\n".to_vec());
    assert_eq!(store.len(), 2);
}

#[test]
fn a_batched_read_of_nothing_found_is_the_end_line() {
    let mut store = Index::new();
    assert_eq!(get(&mut store, &keys(&[]), 0), b"END\r\n".to_vec());
    assert_eq!(get(&mut store, &keys(&[b"x", b"y"]), 0), b"END\r\n".to_vec());
    assert_eq!(get(&mut store, &keys(&[&[0xff]]), 0), b"END\r\n".to_vec());
}

#[test]
fn a_batched_read_serves_in_the_order_of_the_request() {
    let mut store = Index::new();
    store.set("a".to_string(), &text("first"), None, 0);
    store.set("b".to_string(), &StrValue::Numeric(-7), None, 0);
    store.set("gone".to_string(), &text("x"), Some(5), 0);
    let reply = get(&mut store, &keys(&[b"b", b"gone", b"a", b"b"]), 5);
    assert_eq!(
        reply,
        b"VALUE b 0 2\r\n-7\r\nVALUE a 0 5\r\nfirst\r\nVALUE b 0 2\r\n-7\r\nEND\r\n".to_vec()
    );
    assert_eq!(store.len(), 2);
}

#[test]
fn a_batched_read_of_a_structure_is_an_error() {
    let mut store = Index::new();
    store.set("a".to_string(), &text("1"), None, 0);
    assert_eq!(store.sequence_push("l", End::Back, text("x"), 0), Ok(()));
    let reply = get(&mut store, &keys(&[b"a", b"l"]), 0);
    assert_eq!(reply, b"SERVER_ERROR wrong type\r\n".to_vec());
    let reply = get(&mut store, &keys(&[b"a", b"none"]), 0);
    assert_eq!(reply, b"VALUE a 0 1\r\n1\r\nEND\r\n".to_vec());
}

#[test]
fn an_item_is_framed_with_its_length() {
    let mut out = b"before".to_vec();
    push_item(&mut out, b"key", b"0123456789ab");
    assert_eq!(out, b"beforeVALUE key 0 12\r\n0123456789ab\r\n".to_vec());
    let mut empty = Vec::new();
    push_item(&mut empty, b"k", b"");
    assert_eq!(empty, b"VALUE k 0 0\r\n\r\n".to_vec());
    finish(&mut empty);
    assert_eq!(empty, b"VALUE k 0 0\r\n\r\nEND\r\n".to_vec());
}

#[test]
fn only_a_hit_adds_to_the_reply() {
    let mut out = Vec::new();
    let mut counters = Counters::new();
    record(&mut out, &mut counters, b"a", &Fetched::Miss);
    record(&mut out, &mut counters, b"b", &Fetched::Failed);
    record(&mut out, &mut counters, b"c", &Fetched::RateLimited);
    record(&mut out, &mut counters, b"d", &Fetched::TimedOut);
    assert!(out.is_empty());
    record(&mut out, &mut counters, b"e", &Fetched::Hit(b"value".to_vec()));
    record(&mut out, &mut counters, b"f", &Fetched::Hit(b"v".to_vec()));
    finish(&mut out);
    assert_eq!(out, b"VALUE e 0 5\r\nvalue\r\nVALUE f 0 1\r\nv\r\nEND\r\n".to_vec());
    assert_eq!(
        counters,
        Counters { requests: 6, hits: 2, misses: 1, errors: 3, rate_limited: 1, timeouts: 1 }
    );
}

#[test]
fn counters_stop_at_the_largest_number() {
    let mut out = Vec::new();
    let mut counters = Counters {
        requests: u64::MAX,
        hits: u64::MAX - 1,
        misses: 0,
        errors: u64::MAX,
        rate_limited: 3,
        timeouts: u64::MAX,
    };
    record(&mut out, &mut counters, b"k", &Fetched::Hit(Vec::new()));
    record(&mut out, &mut counters, b"k", &Fetched::Hit(Vec::new()));
    record(&mut out, &mut counters, b"k", &Fetched::TimedOut);
    assert_eq!(
        counters,
        Counters {
            requests: u64::MAX,
            hits: u64::MAX,
            misses: 0,
            errors: u64::MAX,
            rate_limited: 3,
            timeouts: u64::MAX,
        }
    );
}

#[test]
fn new_counters_have_counted_nothing() {
    assert_eq!(
        Counters::new(),
        Counters { requests: 0, hits: 0, misses: 0, errors: 0, rate_limited: 0, timeouts: 0 }
    );
}
