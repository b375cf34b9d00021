use buzzer::decimal::u64_to_decimal;
use buzzer::door::{MyBuzzer, ServiceError};

#[test]
fn first_two_unlocks_count_one_and_two() {
    let mut b = MyBuzzer::new();
    assert_eq!(b.open_door(true), Ok("1".to_string()));
    assert_eq!(b.open_door(true), Ok("2".to_string()));
}

#[test]
fn default_is_fresh() {
    let mut b = MyBuzzer::default();
    assert_eq!(b.open_door(true), Ok("1".to_string()));
}

#[test]
fn unlock_while_shutting_down_is_unavailable() {
    let mut b = MyBuzzer::new();
    assert_eq!(b.open_door(true), Ok("1".to_string()));
    assert_eq!(b.open_door(false), Err(ServiceError::Unavailable));
    // the refused call did not touch the counter
    assert_eq!(b.open_door(true), Ok("2".to_string()));
}

#[test]
fn sequential_unlocks_are_complete_and_distinct() {
    let mut b = MyBuzzer::new();
    let mut replies: Vec<String> = Vec::new();
    for _ in 0..25 {
        replies.push(b.open_door(true).unwrap());
    }
    for (i, reply) in replies.iter().enumerate() {
        assert_eq!(reply, &format!("{}", i + 1));
    }
    for i in 0..replies.len() {
        for j in 0..i {
            assert_ne!(replies[i], replies[j]);
        }
    }
}

#[test]
fn decimal_rendering_exact_values() {
    assert_eq!(u64_to_decimal(0), "0");
    assert_eq!(u64_to_decimal(7), "7");
    assert_eq!(u64_to_decimal(10), "10");
    assert_eq!(u64_to_decimal(200), "200");
    assert_eq!(u64_to_decimal(1234567890), "1234567890");
    assert_eq!(u64_to_decimal(u64::MAX), "18446744073709551615");
}

#[test]
fn independent_instances_do_not_share_a_counter() {
    let mut a = MyBuzzer::new();
    let mut b = MyBuzzer::new();
    assert_eq!(a.open_door(true), Ok("1".to_string()));
    assert_eq!(a.open_door(true), Ok("2".to_string()));
    assert_eq!(b.open_door(true), Ok("1".to_string()));
}
