use grepcells::cells::{CellPair, Test};
use grepcells::OpError;

#[test]
fn add_updates_first_then_feeds_back() {
    let mut a = Test { data: 0 };
    let mut b = Test { data: 1 };
    a.add(&mut b);
    assert_eq!(a.data, 1);
    assert_eq!(b.data, 2);
}

#[test]
fn mul_after_add_continues_the_sequence() {
    let mut a = Test { data: 0 };
    let mut b = Test { data: 1 };
    a.add(&mut b);
    b.mul(&mut a);
    assert_eq!(a.data, 2);
    assert_eq!(b.data, 2);
}

#[test]
fn add_wraps_modulo_256() {
    let mut a = Test { data: 200 };
    let mut b = Test { data: 100 };
    a.add(&mut b);
    assert_eq!(a.data, 44);
    assert_eq!(b.data, 144);
}

#[test]
fn mul_wraps_modulo_256() {
    let mut a = Test { data: 16 };
    let mut b = Test { data: 32 };
    a.mul(&mut b);
    assert_eq!(a.data, 0);
    assert_eq!(b.data, 0);
}

#[test]
fn combine_add_final_state() {
    let mut pair = CellPair::new(0, 1);
    assert_eq!(pair.combine_add(), Ok(()));
    assert_eq!(pair.values(), Ok((1, 2)));
}

#[test]
fn combine_mul_after_add_final_state() {
    let mut pair = CellPair::new(0, 1);
    assert_eq!(pair.combine_add(), Ok(()));
    assert_eq!(pair.combine_mul(), Ok(()));
    assert_eq!(pair.values(), Ok((2, 2)));
}

#[test]
fn second_exclusive_update_fails_with_borrow_conflict() {
    let mut pair = CellPair::new(3, 4);
    assert_eq!(pair.begin_exclusive(), Ok(()));
    assert_eq!(pair.combine_add(), Err(OpError::BorrowConflict));
    assert_eq!(pair.combine_mul(), Err(OpError::BorrowConflict));
    assert_eq!(pair.begin_exclusive(), Err(OpError::BorrowConflict));
    pair.end_exclusive();
    assert_eq!(pair.values(), Ok((3, 4)));
    assert_eq!(pair.combine_add(), Ok(()));
    assert_eq!(pair.values(), Ok((7, 11)));
}

#[test]
fn observation_fails_while_window_open() {
    let mut pair = CellPair::new(1, 2);
    assert_eq!(pair.begin_exclusive(), Ok(()));
    assert_eq!(pair.values(), Err(OpError::BorrowConflict));
}

#[test]
fn error_messages_name_the_variant() {
    assert!(OpError::IOError.message().starts_with("IOError"));
    assert!(OpError::BorrowConflict.message().starts_with("BorrowConflict"));
}
