use randstr::sampling::{keep_last, meets_any};

#[test]
fn meets_any_finds_a_shared_byte() {
    assert!(meets_any(&b"abc1".to_vec(), &b"0123456789".to_vec()));
    assert!(meets_any(&b"9".to_vec(), &b"0123456789".to_vec()));
}

#[test]
fn meets_any_without_a_shared_byte() {
    assert!(!meets_any(&b"abcd".to_vec(), &b"0123456789".to_vec()));
}

#[test]
fn meets_any_with_an_empty_side() {
    assert!(!meets_any(&Vec::new(), &b"0123456789".to_vec()));
    assert!(!meets_any(&b"abcd".to_vec(), &Vec::new()));
    assert!(!meets_any(&Vec::new(), &Vec::new()));
}

#[test]
fn keep_last_cuts_the_front() {
    assert_eq!(keep_last(b"abcde".to_vec(), 3), b"cde".to_vec());
    assert_eq!(keep_last(b"abcde".to_vec(), 1), b"e".to_vec());
}

#[test]
fn keep_last_keeps_a_short_buffer() {
    assert_eq!(keep_last(b"abc".to_vec(), 3), b"abc".to_vec());
    assert_eq!(keep_last(b"abc".to_vec(), 7), b"abc".to_vec());
    assert_eq!(keep_last(Vec::new(), 2), Vec::<u8>::new());
}

#[test]
fn keep_last_of_nothing() {
    assert_eq!(keep_last(b"abc".to_vec(), 0), Vec::<u8>::new());
}
