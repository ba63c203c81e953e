use interning::lookup::{
    global_cleanup, local_cleanup, local_intern, local_lookup, GlobalLookupTable, LocalLookupTable,
};
use interning::{InternedString, InternedStringHash};

const LONG: &str = "a-much-longer-identifier-string";

#[test]
fn lib_test_small_strings() {
    let mut local = LocalLookupTable::new();
    let mut global = GlobalLookupTable::new();
    let s = "hello";
    let interned = InternedString::from_str(s, &mut local, &mut global);
    assert_eq!(interned.as_str(&mut local, &global), s);
    let interned = InternedString::from_str(s, &mut local, &mut global);
    assert_eq!(interned.as_str(&mut local, &global), s);
}

#[test]
fn short_text_touches_no_table() {
    let mut local = LocalLookupTable::new();
    let mut global = GlobalLookupTable::new();
    let handle = InternedString::from_str("hi", &mut local, &mut global);
    assert!(handle.hash().is_inlined());
    assert_eq!(handle.as_str(&mut local, &global), "hi");
    assert_eq!(global.len(), 0);
    assert_eq!(local.len(), 0);
    let owned = InternedString::new(String::from("hi"), &mut local, &mut global);
    assert_eq!(owned, handle);
    assert_eq!(global.len(), 0);
    assert_eq!(local.len(), 0);
}

#[test]
fn long_text_is_stored_once() {
    let mut local = LocalLookupTable::new();
    let mut global = GlobalLookupTable::new();
    let first = InternedString::from_str(LONG, &mut local, &mut global);
    assert!(!first.hash().is_inlined());
    assert_eq!(global.len(), 1);
    assert_eq!(local.len(), 1);
    assert_eq!(first.as_str(&mut local, &global), LONG);
    let second = InternedString::from_str(LONG, &mut local, &mut global);
    assert_eq!(first, second);
    assert_eq!(first.hash(), second.hash());
    assert_eq!(global.len(), 1);
    let third = InternedString::new(String::from(LONG), &mut local, &mut global);
    assert_eq!(first, third);
    assert_eq!(global.len(), 1);
    assert_eq!(local.len(), 1);
    assert_eq!(third.as_str(&mut local, &global), LONG);
}

#[test]
fn distinct_long_texts_get_distinct_entries() {
    let mut local = LocalLookupTable::new();
    let mut global = GlobalLookupTable::new();
    let a = InternedString::from_str("first-long-identifier", &mut local, &mut global);
    let b = InternedString::from_str("second-long-identifier", &mut local, &mut global);
    assert_ne!(a, b);
    assert_eq!(global.len(), 2);
    assert_eq!(a.as_str(&mut local, &global), "first-long-identifier");
    assert_eq!(b.as_str(&mut local, &global), "second-long-identifier");
}

#[test]
fn same_text_gives_equal_handles_in_different_contexts() {
    let mut global = GlobalLookupTable::new();
    let mut context_a = LocalLookupTable::new();
    let mut context_b = LocalLookupTable::new();
    let a = InternedString::from_str(LONG, &mut context_a, &mut global);
    let b = InternedString::from_str(LONG, &mut context_b, &mut global);
    assert_eq!(a, b);
    assert_eq!(global.len(), 1);
    assert_eq!(context_b.len(), 1);
}

#[test]
fn another_context_finds_the_text_through_the_shared_table() {
    let mut global = GlobalLookupTable::new();
    let mut context_a = LocalLookupTable::new();
    let mut context_b = LocalLookupTable::new();
    let handle = InternedString::from_str(LONG, &mut context_a, &mut global);
    assert_eq!(context_b.len(), 0);
    let found = local_lookup(&mut context_b, &global, handle.hash());
    assert_eq!(found, Some(String::from(LONG)));
    assert_eq!(context_b.len(), 1);
    assert_eq!(handle.as_str(&mut context_b, &global), LONG);
    assert_eq!(global.len(), 1);
}

#[test]
fn many_contexts_interning_one_text_share_one_entry() {
    let mut global = GlobalLookupTable::new();
    let mut handles = Vec::new();
    for _ in 0..8 {
        let mut context = LocalLookupTable::new();
        handles.push(InternedString::from_str(LONG, &mut context, &mut global));
    }
    for handle in &handles {
        assert_eq!(handle.hash(), handles[0].hash());
    }
    assert_eq!(global.len(), 1);
}

#[test]
fn local_teardown_is_refilled_from_the_shared_table() {
    let mut global = GlobalLookupTable::new();
    let mut local = LocalLookupTable::new();
    let handle = InternedString::from_str(LONG, &mut local, &mut global);
    local_cleanup(&mut local);
    assert_eq!(local.len(), 0);
    assert_eq!(global.len(), 1);
    assert_eq!(local_lookup(&mut local, &global, handle.hash()), Some(String::from(LONG)));
    assert_eq!(local.len(), 1);
}

#[test]
fn global_teardown_empties_the_shared_table() {
    let mut global = GlobalLookupTable::new();
    let mut local = LocalLookupTable::new();
    let handle = InternedString::from_str(LONG, &mut local, &mut global);
    InternedString::from_str("first-long-identifier", &mut local, &mut global);
    assert_eq!(global.len(), 2);
    global_cleanup(&mut global);
    assert_eq!(global.len(), 0);
    assert_eq!(global.lookup(handle.hash()), None);
    local_cleanup(&mut local);
    assert_eq!(local_lookup(&mut local, &global, handle.hash()), None);
    assert_eq!(handle.try_as_str(&mut local, &global), None);
    assert_eq!(local.len(), 0);
}

#[test]
fn global_table_detects_a_forced_collision() {
    let mut global = GlobalLookupTable::new();
    let key = InternedStringHash::from_bytes([0, 1, 2, 3, 4, 5, 6, 7]);
    assert_eq!(
        global.try_intern(key, String::from("first text")),
        Some(String::from("first text"))
    );
    assert_eq!(global.try_intern(key, String::from("second text")), None);
    assert_eq!(global.len(), 1);
    assert_eq!(global.lookup(key), Some(String::from("first text")));
    assert_eq!(
        global.try_intern(key, String::from("first text")),
        Some(String::from("first text"))
    );
    assert_eq!(global.len(), 1);
}

#[test]
fn local_cache_detects_a_forced_collision() {
    let mut global = GlobalLookupTable::new();
    let mut local = LocalLookupTable::new();
    let key = InternedStringHash::from_bytes([0, 1, 2, 3, 4, 5, 6, 7]);
    assert_eq!(local_intern(&mut local, &mut global, key, String::from("first text")), "first text");
    assert_eq!(local.try_intern(&mut global, key, String::from("second text")), None);
    assert_eq!(local.peek(&global, key), Some(String::from("first text")));
    let mut other = LocalLookupTable::new();
    assert_eq!(other.try_intern(&mut global, key, String::from("second text")), None);
    assert_eq!(other.len(), 0);
    assert_eq!(global.len(), 1);
    assert_eq!(
        other.try_intern(&mut global, key, String::from("first text")),
        Some(String::from("first text"))
    );
    assert_eq!(other.len(), 1);
    assert_eq!(global.len(), 1);
}

#[test]
fn try_new_reports_a_text_that_collides_with_a_stored_one() {
    let mut global = GlobalLookupTable::new();
    let mut local = LocalLookupTable::new();
    let key = InternedStringHash::from_str(LONG);
    assert_eq!(global.intern(key, String::from("an impostor text")), "an impostor text");
    assert_eq!(InternedString::try_new(String::from(LONG), &mut local, &mut global), None);
    assert_eq!(global.len(), 1);
    assert_eq!(local.len(), 0);
    assert_eq!(global.lookup(key), Some(String::from("an impostor text")));
    let short = InternedString::try_new(String::from("hi"), &mut local, &mut global);
    assert_eq!(short, Some(InternedString::from_str("hi", &mut local, &mut global)));
    let mut clean_global = GlobalLookupTable::new();
    let mut clean_local = LocalLookupTable::new();
    let handle = InternedString::try_new(String::from(LONG), &mut clean_local, &mut clean_global);
    assert_eq!(handle, Some(InternedString::from_hash(key)));
    assert_eq!(clean_global.len(), 1);
}

#[test]
fn global_intern_keeps_the_first_copy() {
    let mut global = GlobalLookupTable::new();
    let key = InternedStringHash::from_str(LONG);
    assert_eq!(global.lookup(key), None);
    assert_eq!(global.intern(key, String::from(LONG)), LONG);
    assert_eq!(global.intern(key, String::from(LONG)), LONG);
    assert_eq!(global.len(), 1);
    assert_eq!(global.lookup(key), Some(String::from(LONG)));
}

#[test]
fn local_lookup_of_an_unknown_key_changes_nothing() {
    let global = GlobalLookupTable::new();
    let mut local = LocalLookupTable::new();
    let key = InternedStringHash::from_str(LONG);
    assert_eq!(local.lookup(&global, key), None);
    assert_eq!(local.peek(&global, key), None);
    assert_eq!(local.len(), 0);
    assert_eq!(global.len(), 0);
}

#[test]
fn from_hash_wraps_the_key_unchanged() {
    let mut global = GlobalLookupTable::new();
    let mut local = LocalLookupTable::new();
    let made = InternedString::from_str(LONG, &mut local, &mut global);
    let rebuilt = InternedString::from_hash(made.hash());
    assert_eq!(made, rebuilt);
    assert_eq!(rebuilt.as_str(&mut local, &global), LONG);
    let inline = InternedString::from_hash(InternedStringHash::from_str("hi"));
    assert_eq!(inline.try_as_str(&mut local, &global), Some(String::from("hi")));
    let unknown = InternedString::from_hash(InternedStringHash::new(42));
    assert_eq!(unknown.try_as_str(&mut local, &global), None);
}

#[test]
fn handles_compare_and_hash_by_their_key_alone() {
    let mut global = GlobalLookupTable::new();
    let mut local = LocalLookupTable::new();
    let a = InternedString::from_str(LONG, &mut local, &mut global);
    let b = InternedString::from_str("hi", &mut local, &mut global);
    let mut seen = std::collections::HashSet::new();
    assert!(seen.insert(a));
    assert!(seen.insert(b));
    global_cleanup(&mut global);
    local_cleanup(&mut local);
    let again = InternedString::from_str(LONG, &mut local, &mut global);
    assert!(a == again);
    assert!(a != b);
    assert!(!seen.insert(again));
    assert_eq!(seen.len(), 2);
}
