use indtp::is_sequence_correct;

#[test]
fn test_first_sequence() {
    assert_eq!(is_sequence_correct(0, None), true);
    assert_eq!(is_sequence_correct(123, None), true);
}

#[test]
fn test_normal_increment() {
    assert!(is_sequence_correct(101, Some(100)));
    assert!(is_sequence_correct(200, Some(100)));
}

#[test]
fn test_exact_duplicate() {
    assert!(!is_sequence_correct(100, Some(100)));
}

#[test]
fn test_wrap_around() {
    assert!(is_sequence_correct(0, Some(65535)));
    assert!(is_sequence_correct(1, Some(65535)));
    assert!(is_sequence_correct(65535, Some(65534)));
}

#[test]
fn test_replay_attack() {
    assert!(!is_sequence_correct(100, Some(105)));
    assert!(!is_sequence_correct(65535, Some(5)));
}
