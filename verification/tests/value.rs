use rvr::value::{RegisterState, RegisterValue};

#[test]
fn test_register_value_constant() {
    let v = RegisterValue::constant(42);
    assert!(v.is_constant());
    assert_eq!(v.values(), Some(&[42][..]));
}

#[test]
fn test_register_value_merge() {
    let a = RegisterValue::constant(1);
    let b = RegisterValue::constant(2);
    let merged = a.merge(&b);
    assert_eq!(merged.values(), Some(&[1, 2][..]));
}

#[test]
fn test_register_state() {
    let mut state = RegisterState::new();
    assert!(state.get(0).is_constant()); // x0 = 0
    assert!(!state.get(1).is_constant()); // x1 unknown

    state.set_constant(1, 100);
    assert_eq!(state.get(1).values(), Some(&[100][..]));
}

#[test]
fn merge_is_commutative_and_idempotent_on_examples() {
    let mut a = RegisterValue::constant(30);
    a.add_value(10);
    a.add_value(20);
    let mut b = RegisterValue::constant(25);
    b.add_value(10);
    assert_eq!(a.merge(&b), b.merge(&a));
    assert_eq!(a.merge(&b).values(), Some(&[10, 20, 25, 30][..]));
    assert_eq!(a.merge(&a), a);
    assert_eq!(a.merge(&RegisterValue::unknown()), RegisterValue::Unknown);
}

#[test]
fn add_value_keeps_order_and_saturates() {
    let mut v = RegisterValue::constant(100);
    for x in (0..15u64).rev() {
        v.add_value(x);
    }
    assert_eq!(v.values().unwrap().len(), 16);
    assert_eq!(v.values().unwrap()[0], 0);
    v.add_value(7); // already present: unchanged
    assert_eq!(v.values().unwrap().len(), 16);
    v.add_value(200); // a 17th value: unknown
    assert!(!v.is_constant());
    v.add_value(1);
    assert!(!v.is_constant());
}

#[test]
fn merge_beyond_limit_is_unknown() {
    let mut a = RegisterValue::constant(0);
    let mut b = RegisterValue::constant(100);
    for x in 1..9u64 {
        a.add_value(x);
        b.add_value(100 + x);
    }
    // 9 + 9 distinct values exceed the limit of 16
    assert!(!a.merge(&b).is_constant());
}

#[test]
fn state_merge_reports_change_once() {
    let mut s = RegisterState::new();
    s.set_constant(5, 1);
    let mut o = RegisterState::new();
    o.set_constant(5, 2);
    o.set_constant(31, 3);
    o.set_constant(0, 99); // ignored: x0 is fixed
    assert!(s.merge(&o));
    assert_eq!(s.get(5).values(), Some(&[1, 2][..]));
    assert!(!s.get(31).is_constant()); // unknown merged with 3 stays unknown
    assert_eq!(s.get(0).values(), Some(&[0][..]));
    assert!(!s.merge(&o));
    assert!(!s.get(40).is_constant());
}

#[test]
fn empty_and_long_constant_lists() {
    // an empty constant list merges to an empty constant list
    let e = RegisterValue::Constant(vec![]);
    let m = e.merge(&RegisterValue::Constant(vec![]));
    assert_eq!(m.values(), Some(&[][..]));
    let m = e.merge(&RegisterValue::constant(5));
    assert_eq!(m.values(), Some(&[5][..]));
    // a list longer than the bound keeps a value it already holds
    let long: Vec<u64> = (0..20).collect();
    let mut v = RegisterValue::Constant(long.clone());
    v.add_value(3);
    assert_eq!(v.values(), Some(&long[..]));
    // and becomes unknown when a new value would be added
    v.add_value(100);
    assert!(!v.is_constant());
    // merging with it gives unknown (the union is too large)
    let w = RegisterValue::Constant(long).merge(&RegisterValue::constant(1));
    assert!(!w.is_constant());
}
