//! Tests of the memoized teleporter self-check recurrence.

use std::collections::HashMap;
use synacor_vm::teleport::f;

#[test]
fn base_case_increments() {
    let mut cache = HashMap::new();
    assert_eq!(f(0, 5, 99, &mut cache), 6);
}

#[test]
fn base_case_wraps_sixteen_bits() {
    let mut cache = HashMap::new();
    assert_eq!(f(0, 0xffff, 0, &mut cache), 0);
}

#[test]
fn first_level_adds_c_plus_one() {
    // f(1, b, c) = b + c + 1; a memo table serves one fixed c
    let mut cache = HashMap::new();
    assert_eq!(f(1, 2, 3, &mut cache), 6);
    let mut cache = HashMap::new();
    assert_eq!(f(1, 10, 0, &mut cache), 11);
}

#[test]
fn deeper_levels_match_recurrence() {
    // f(2, b, c) = (2c + 1) + b(c + 1); f(3, 1, 1) unfolds to 13
    let mut cache = HashMap::new();
    assert_eq!(f(2, 3, 2, &mut cache), 14);
    let mut cache = HashMap::new();
    assert_eq!(f(3, 1, 1, &mut cache), 13);
}

#[test]
fn cache_holds_result_and_only_grows() {
    let mut cache = HashMap::new();
    let r = f(0, 5, 9, &mut cache);
    // the entry for (a, b) is present afterwards and holds the result
    assert_eq!(cache.get(&5), Some(&r));
    let before = cache.len();
    f(2, 1, 9, &mut cache);
    // entries are only ever added
    assert!(cache.len() >= before);
    assert_eq!(cache.get(&5), Some(&6));
}

#[test]
fn memo_table_is_reused_consistently() {
    let mut cache = HashMap::new();
    let first = f(3, 2, 2, &mut cache);
    let cached = f(3, 2, 2, &mut cache);
    assert_eq!(first, cached);
    // entries from subproblems stay valid for further calls with the same c
    assert_eq!(f(2, 2, 2, &mut cache), 11);
    assert!(!cache.is_empty());
}
