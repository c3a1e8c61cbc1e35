use q3a_muncher::{Error, ExtraCheckedOps};

#[test]
fn extra_checked_ops_works() {
    let mut zero = 0_u8;
    let mut limit = 255_u8;

    zero.checked_increment().unwrap();
    zero.checked_increment().unwrap();
    assert_eq!(zero, 2);
    zero.checked_decrement().unwrap();
    assert_eq!(zero, 1);

    assert!(limit.checked_increment().is_err());
}

#[test]
fn a_failed_step_leaves_the_counter_as_it_was() {
    let mut top = u8::MAX;
    assert!(matches!(top.checked_increment(), Err(Error::Overflow)));
    assert_eq!(top, u8::MAX);

    let mut bottom = 0_u8;
    assert!(matches!(bottom.checked_decrement(), Err(Error::Underflow)));
    assert_eq!(bottom, 0);
}

#[test]
fn checked_steps_on_the_total_of_kills() {
    let mut total = u32::MAX - 1;
    total.checked_increment().unwrap();
    assert_eq!(total, u32::MAX);
    assert!(matches!(total.checked_increment(), Err(Error::Overflow)));
    assert_eq!(total, u32::MAX);

    let mut none = 0_u32;
    assert!(matches!(none.checked_decrement(), Err(Error::Underflow)));
    assert_eq!(none, 0);
}

#[test]
fn checked_steps_on_a_score() {
    let mut score = 0_i32;
    score.checked_decrement().unwrap();
    assert_eq!(score, -1);
    score.checked_increment().unwrap();
    score.checked_increment().unwrap();
    assert_eq!(score, 1);

    let mut lowest = i32::MIN;
    assert!(matches!(lowest.checked_decrement(), Err(Error::Underflow)));
    assert_eq!(lowest, i32::MIN);
    lowest.checked_increment().unwrap();
    assert_eq!(lowest, i32::MIN + 1);

    let mut highest = i32::MAX;
    assert!(matches!(highest.checked_increment(), Err(Error::Overflow)));
    assert_eq!(highest, i32::MAX);
    highest.checked_decrement().unwrap();
    assert_eq!(highest, i32::MAX - 1);
}
