use mixed_ds::End;
use mixed_ds::Index;
use mixed_ds::StrValue;
use mixed_ds::TypeMismatch;
use mixed_ds::Value;

fn text(s: &str) -> StrValue {
    StrValue::StringValue(s.to_string())
}

fn scalar_of(v: Option<&Value>) -> Option<StrValue> {
    match v {
        Some(Value::String { backing }) => Some(backing.clone()),
        _ => None,
    }
}

fn list_of(v: Option<&Value>) -> Option<Vec<StrValue>> {
    match v {
        Some(Value::List { backing }) => Some(backing.iter().cloned().collect()),
        _ => None,
    }
}

#[test]
fn set_then_get_returns_the_value() {
    let mut store = Index::new();
    store.set("a".to_string(), &text("hello"), None, 100);
    assert_eq!(scalar_of(store.get("a", 100)), Some(text("hello")));
    assert_eq!(scalar_of(store.get("a", u64::MAX)), Some(text("hello")));
    assert_eq!(store.len(), 1);
}

#[test]
fn set_keeps_numbers_as_numbers() {
    let mut store = Index::new();
    store.set("n".to_string(), &StrValue::Numeric(-42), None, 0);
    assert_eq!(scalar_of(store.get("n", 7)), Some(StrValue::Numeric(-42)));
}

#[test]
fn get_of_a_missing_key_is_none() {
    let mut store = Index::new();
    assert!(store.get("missing", 0).is_none());
    assert_eq!(store.len(), 0);
}

#[test]
fn set_overwrites_whatever_was_there() {
    let mut store = Index::new();
    assert_eq!(store.sequence_push("k", End::Back, text("x"), 0), Ok(()));
    store.set("k".to_string(), &text("v"), None, 0);
    assert_eq!(scalar_of(store.get("k", 0)), Some(text("v")));
    assert_eq!(store.len(), 1);
    store.set("k".to_string(), &text("w"), None, 0);
    assert_eq!(scalar_of(store.get("k", 0)), Some(text("w")));
    assert_eq!(store.len(), 1);
    assert_eq!(store.written(), 3);
}

#[test]
fn delete_then_get_is_none_and_a_second_delete_is_false() {
    let mut store = Index::new();
    store.set("k".to_string(), &text("v"), None, 0);
    assert!(store.delete("k", 0));
    assert!(store.get("k", 0).is_none());
    assert!(!store.delete("k", 0));
    assert!(!store.delete("never-there", 0));
    assert_eq!(store.len(), 0);
}

#[test]
fn delete_of_an_expired_entry_removes_it_and_is_false() {
    let mut store = Index::new();
    store.set("k".to_string(), &text("v"), Some(5), 100);
    assert_eq!(store.len(), 1);
    assert!(!store.delete("k", 105));
    assert_eq!(store.len(), 0);
}

#[test]
fn an_entry_is_served_strictly_before_its_expiration() {
    let mut store = Index::new();
    store.set("k".to_string(), &text("v"), Some(5), 100);
    assert_eq!(scalar_of(store.get("k", 100)), Some(text("v")));
    assert_eq!(scalar_of(store.get("k", 104)), Some(text("v")));
    assert!(store.get("k", 105).is_none());
    assert_eq!(store.len(), 0);

    store.set("k".to_string(), &text("v"), Some(5), 100);
    assert!(store.get("k", 1000).is_none());
}

#[test]
fn expiry_is_the_same_whether_or_not_a_sweep_has_run() {
    let mut swept = Index::new();
    let mut plain = Index::new();
    swept.set("k".to_string(), &text("v"), Some(5), 100);
    plain.set("k".to_string(), &text("v"), Some(5), 100);
    assert_eq!(swept.expire_due(104), 0);
    assert_eq!(scalar_of(swept.get("k", 104)), scalar_of(plain.get("k", 104)));
    assert_eq!(scalar_of(swept.get("k", 104)), Some(text("v")));
    assert_eq!(swept.expire_due(105), 1);
    assert!(swept.get("k", 105).is_none());
    assert!(plain.get("k", 105).is_none());
}

#[test]
fn a_time_to_live_of_zero_never_expires() {
    let mut store = Index::new();
    store.set("k".to_string(), &text("v"), Some(0), 100);
    assert_eq!(scalar_of(store.get("k", u64::MAX)), Some(text("v")));
    assert_eq!(store.expire_due(u64::MAX), 0);
    assert_eq!(store.len(), 1);
}

#[test]
fn a_time_to_live_past_the_last_instant_never_expires() {
    let mut store = Index::new();
    store.set("k".to_string(), &text("v"), Some(5), u64::MAX - 2);
    assert_eq!(scalar_of(store.get("k", u64::MAX)), Some(text("v")));
    store.set("j".to_string(), &text("w"), Some(2), u64::MAX - 2);
    assert_eq!(scalar_of(store.get("j", u64::MAX - 1)), Some(text("w")));
    assert!(store.get("j", u64::MAX).is_none());
}

#[test]
fn expire_due_removes_exactly_the_expired_and_is_idempotent() {
    let mut store = Index::new();
    store.set("a".to_string(), &text("1"), Some(5), 100);
    store.set("b".to_string(), &text("2"), Some(10), 100);
    store.set("c".to_string(), &text("3"), None, 100);
    store.set("d".to_string(), &text("4"), Some(6), 100);
    assert_eq!(store.expire_due(104), 0);
    assert_eq!(store.len(), 4);
    assert_eq!(store.expire_due(106), 2);
    assert_eq!(store.len(), 2);
    assert_eq!(store.expire_due(106), 0);
    assert_eq!(store.len(), 2);
    assert!(store.get("a", 0).is_none());
    assert!(store.get("d", 0).is_none());
    assert_eq!(scalar_of(store.get("b", 106)), Some(text("2")));
    assert_eq!(scalar_of(store.get("c", 106)), Some(text("3")));
    assert_eq!(store.expire_due(u64::MAX), 1);
    assert_eq!(store.len(), 1);
    assert_eq!(scalar_of(store.get("c", u64::MAX)), Some(text("3")));
}

#[test]
fn a_record_left_by_an_overwritten_entry_removes_nothing() {
    let mut store = Index::new();
    store.set("a".to_string(), &text("old"), Some(5), 100);
    store.set("a".to_string(), &text("new"), None, 100);
    store.set("b".to_string(), &text("gone"), Some(5), 100);
    assert!(store.delete("b", 100));
    store.set("b".to_string(), &text("back"), Some(50), 100);
    assert_eq!(store.expire_due(120), 0);
    assert_eq!(scalar_of(store.get("a", 120)), Some(text("new")));
    assert_eq!(scalar_of(store.get("b", 120)), Some(text("back")));
    assert_eq!(store.len(), 2);
}

#[test]
fn eviction_takes_the_soonest_to_expire_first() {
    let mut store = Index::new();
    store.set("late".to_string(), &text("1"), Some(50), 100);
    store.set("never".to_string(), &text("2"), None, 100);
    store.set("soon".to_string(), &text("3"), Some(5), 100);
    store.set("mid".to_string(), &text("4"), Some(20), 100);
    assert_eq!(store.evict_to_capacity(4), 0);
    assert_eq!(store.evict_to_capacity(10), 0);
    assert_eq!(store.len(), 4);
    assert_eq!(store.evict_to_capacity(3), 1);
    assert!(store.get("soon", 100).is_none());
    assert_eq!(store.len(), 3);
    assert_eq!(store.evict_to_capacity(1), 2);
    assert!(store.get("mid", 100).is_none());
    assert!(store.get("late", 100).is_none());
    assert_eq!(scalar_of(store.get("never", 100)), Some(text("2")));
    assert_eq!(store.evict_to_capacity(0), 1);
    assert_eq!(store.len(), 0);
    assert_eq!(store.evict_to_capacity(0), 0);
}

#[test]
fn eviction_among_equals_goes_by_arrival() {
    let mut store = Index::new();
    store.set("first".to_string(), &text("1"), None, 0);
    store.set("second".to_string(), &text("2"), None, 0);
    store.set("third".to_string(), &text("3"), None, 0);
    store.set("first".to_string(), &text("1 again"), None, 0);
    assert_eq!(store.evict_to_capacity(2), 1);
    assert!(store.get("second", 0).is_none());
    assert_eq!(store.evict_to_capacity(1), 1);
    assert!(store.get("third", 0).is_none());
    assert_eq!(scalar_of(store.get("first", 0)), Some(text("1 again")));

    let mut timed = Index::new();
    timed.set("x".to_string(), &text("1"), Some(10), 5);
    timed.set("y".to_string(), &text("2"), Some(5), 10);
    assert_eq!(timed.evict_to_capacity(1), 1);
    assert!(timed.get("x", 0).is_none());
    assert_eq!(scalar_of(timed.get("y", 0)), Some(text("2")));
}

#[test]
fn structure_operations_on_a_scalar_are_refused() {
    let mut store = Index::new();
    store.set("k".to_string(), &StrValue::Numeric(1), None, 0);
    assert_eq!(store.sequence_push("k", End::Back, text("x"), 0), Err(TypeMismatch));
    assert_eq!(store.sequence_push("k", End::Front, text("x"), 0), Err(TypeMismatch));
    assert_eq!(store.sequence_pop("k", End::Front, 0), Err(TypeMismatch));
    assert_eq!(store.field_get("k", "f", 0), Err(TypeMismatch));
    assert_eq!(store.field_set("k", "f".to_string(), text("x"), 0), Err(TypeMismatch));
    assert_eq!(scalar_of(store.get("k", 0)), Some(StrValue::Numeric(1)));
    assert_eq!(store.written(), 1);
}

#[test]
fn sequence_and_field_operations_refuse_each_other() {
    let mut store = Index::new();
    assert_eq!(store.sequence_push("list", End::Back, text("x"), 0), Ok(()));
    assert_eq!(store.field_set("map", "f".to_string(), text("y"), 0), Ok(()));
    assert_eq!(store.field_get("list", "f", 0), Err(TypeMismatch));
    assert_eq!(store.field_set("list", "f".to_string(), text("z"), 0), Err(TypeMismatch));
    assert_eq!(store.sequence_pop("map", End::Back, 0), Err(TypeMismatch));
    assert_eq!(store.sequence_push("map", End::Back, text("z"), 0), Err(TypeMismatch));
    assert_eq!(list_of(store.get("list", 0)), Some(vec![text("x")]));
    assert_eq!(store.field_get("map", "f", 0), Ok(Some(text("y"))));
}

#[test]
fn a_sequence_is_open_at_both_ends() {
    let mut store = Index::new();
    assert_eq!(store.sequence_push("l", End::Back, text("b"), 0), Ok(()));
    assert_eq!(store.sequence_push("l", End::Back, text("c"), 0), Ok(()));
    assert_eq!(store.sequence_push("l", End::Front, text("a"), 0), Ok(()));
    assert_eq!(store.sequence_push("l", End::Back, StrValue::Numeric(4), 0), Ok(()));
    assert_eq!(
        list_of(store.get("l", 0)),
        Some(vec![text("a"), text("b"), text("c"), StrValue::Numeric(4)])
    );
    assert_eq!(store.len(), 1);
    assert_eq!(store.written(), 1);
    assert_eq!(store.sequence_pop("l", End::Front, 0), Ok(Some(text("a"))));
    assert_eq!(store.sequence_pop("l", End::Back, 0), Ok(Some(StrValue::Numeric(4))));
    assert_eq!(list_of(store.get("l", 0)), Some(vec![text("b"), text("c")]));
    assert_eq!(store.sequence_pop("l", End::Back, 0), Ok(Some(text("c"))));
    assert_eq!(store.sequence_pop("l", End::Back, 0), Ok(Some(text("b"))));
    assert_eq!(store.sequence_pop("l", End::Back, 0), Ok(None));
    assert_eq!(store.sequence_pop("l", End::Front, 0), Ok(None));
    assert_eq!(list_of(store.get("l", 0)), Some(vec![]));
    assert_eq!(store.len(), 1);
}

#[test]
fn a_pop_from_a_missing_key_makes_no_entry() {
    let mut store = Index::new();
    assert_eq!(store.sequence_pop("l", End::Front, 0), Ok(None));
    assert_eq!(store.field_get("m", "f", 0), Ok(None));
    assert_eq!(store.len(), 0);
    assert_eq!(store.written(), 0);
}

#[test]
fn fields_are_kept_by_name() {
    let mut store = Index::new();
    assert_eq!(store.field_set("m", "a".to_string(), text("1"), 0), Ok(()));
    assert_eq!(store.field_set("m", "b".to_string(), StrValue::Numeric(2), 0), Ok(()));
    assert_eq!(store.field_set("m", "a".to_string(), text("3"), 0), Ok(()));
    assert_eq!(store.field_get("m", "a", 0), Ok(Some(text("3"))));
    assert_eq!(store.field_get("m", "b", 0), Ok(Some(StrValue::Numeric(2))));
    assert_eq!(store.field_get("m", "c", 0), Ok(None));
    assert_eq!(store.len(), 1);
    assert_eq!(store.written(), 1);
    match store.get("m", 0) {
        Some(Value::Fields { backing }) => assert_eq!(backing.len(), 2),
        _ => panic!("a field map was expected"),
    }
}

#[test]
fn an_expired_entry_gives_way_to_a_new_structure() {
    let mut store = Index::new();
    store.set("k".to_string(), &text("v"), Some(5), 100);
    assert_eq!(store.sequence_push("k", End::Back, text("x"), 104), Err(TypeMismatch));
    assert_eq!(store.sequence_push("k", End::Back, text("x"), 105), Ok(()));
    assert_eq!(list_of(store.get("k", u64::MAX)), Some(vec![text("x")]));
    assert_eq!(store.len(), 1);
}

#[test]
fn a_structure_keeps_the_expiration_of_its_entry() {
    let mut store = Index::new();
    assert_eq!(store.sequence_push("l", End::Back, text("x"), 100), Ok(()));
    assert_eq!(store.sequence_push("l", End::Back, text("y"), 200), Ok(()));
    assert_eq!(store.expire_due(u64::MAX), 0);
    assert_eq!(list_of(store.get("l", u64::MAX)), Some(vec![text("x"), text("y")]));
}

#[test]
fn clear_leaves_the_store_as_new() {
    let mut store = Index::new();
    store.set("a".to_string(), &text("1"), Some(5), 100);
    store.set("b".to_string(), &text("2"), None, 100);
    store.clear();
    assert_eq!(store.len(), 0);
    assert_eq!(store.written(), 0);
    assert!(store.get("a", 0).is_none());
    assert_eq!(store.expire_due(u64::MAX), 0);
    assert_eq!(store.evict_to_capacity(0), 0);
    store.set("a".to_string(), &text("3"), None, 0);
    assert_eq!(scalar_of(store.get("a", 0)), Some(text("3")));
}

#[test]
fn get_removes_an_expired_entry_from_the_count() {
    let mut store = Index::new();
    store.set("a".to_string(), &text("x"), Some(5), 100);
    store.set("b".to_string(), &text("y"), Some(5), 100);
    assert_eq!(store.len(), 2);
    assert!(store.get("a", 110).is_none());
    assert_eq!(store.len(), 1);
    assert!(store.get("a", 110).is_none());
    assert_eq!(store.len(), 1);
}
