use pwquality::PWQuality;

#[test]
fn test_generate() {
    let pwq = PWQuality::new().unwrap();
    let password = pwq.generate(32).unwrap();

    assert!(!password.is_empty());
}

#[test]
fn test_check() {
    let pwq = PWQuality::new().unwrap();
    let score = pwq.check("p@s5w0rD!", None, None).unwrap();
    assert!(score >= 0);

    let score = pwq.check("p@s5w0rD!", Some("password"), None).unwrap();
    assert!(score >= 0);

    let score = pwq
        .check("p@s5w0rD!", Some("password"), Some("root"))
        .unwrap();
    assert!(score >= 0);

    let score = pwq.check("p@s5w0rD!", None, Some("root")).unwrap();
    assert!(score >= 0);
}

#[test]
fn test_min_diff() {
    let mut pwq = PWQuality::new().unwrap();

    for value in 1..10 {
        pwq.min_diff(value);
        assert_eq!(pwq.get_min_diff(), value);
    }
}

#[test]
fn test_min_length() {
    let mut pwq = PWQuality::new().unwrap();

    for value in 1..6 {
        pwq.min_length(value);
        assert_eq!(pwq.get_min_length(), 6);
    }

    for value in 6..10 {
        pwq.min_length(value);
        assert_eq!(pwq.get_min_length(), value);
    }
}

#[test]
fn test_digit_credit() {
    let mut pwq = PWQuality::new().unwrap();

    for value in 1..10 {
        pwq.digit_credit(value);
        assert_eq!(pwq.get_digit_credit(), value);
    }
}

#[test]
fn test_uppercase_credit() {
    let mut pwq = PWQuality::new().unwrap();

    for value in 1..10 {
        pwq.uppercase_credit(value);
        assert_eq!(pwq.get_uppercase_credit(), value);
    }
}

#[test]
fn test_lowercase_credit() {
    let mut pwq = PWQuality::new().unwrap();

    for value in 1..10 {
        pwq.lowercase_credit(value);
        assert_eq!(pwq.get_lowercase_credit(), value);
    }
}

#[test]
fn test_other_credit() {
    let mut pwq = PWQuality::new().unwrap();

    for value in 1..10 {
        pwq.other_credit(value);
        assert_eq!(pwq.get_other_credit(), value);
    }
}

#[test]
fn test_min_class() {
    let mut pwq = PWQuality::new().unwrap();

    for value in 1..=4 {
        pwq.min_class(value);
        assert_eq!(pwq.get_min_class(), value);
    }

    for value in 4..10 {
        pwq.min_class(value);
        assert_eq!(pwq.get_min_class(), 4);
    }
}

#[test]
fn test_max_repeat() {
    let mut pwq = PWQuality::new().unwrap();

    for value in 1..10 {
        pwq.max_repeat(value);
        assert_eq!(pwq.get_max_repeat(), value);
    }
}

#[test]
fn test_max_sequence() {
    let mut pwq = PWQuality::new().unwrap();

    for value in 1..10 {
        pwq.max_sequence(value);
        assert_eq!(pwq.get_max_sequence(), value);
    }
}

#[test]
fn test_max_class_repeat() {
    let mut pwq = PWQuality::new().unwrap();

    for value in 1..10 {
        pwq.max_class_repeat(value);
        assert_eq!(pwq.get_max_class_repeat(), value);
    }
}

#[test]
fn test_gecos_check() {
    let mut pwq = PWQuality::new().unwrap();

    for value in [true, false] {
        pwq.gecos_check(value);
        assert_eq!(pwq.get_gecos_check(), value);
    }
}

#[test]
fn test_dict_check() {
    let mut pwq = PWQuality::new().unwrap();

    for value in [true, false] {
        pwq.dict_check(value);
        assert_eq!(pwq.get_dict_check(), value);
    }
}

#[test]
fn test_user_check() {
    let mut pwq = PWQuality::new().unwrap();

    for value in [true, false] {
        pwq.user_check(value);
        assert_eq!(pwq.get_user_check(), value);
    }
}

#[test]
fn test_user_substr() {
    let mut pwq = PWQuality::new().unwrap();

    for value in 1..10 {
        pwq.user_substr(value);
        assert_eq!(pwq.get_user_substr(), value);
    }
}

#[test]
fn test_enforcing() {
    let mut pwq = PWQuality::new().unwrap();

    for value in [true, false] {
        pwq.enforcing(value);
        assert_eq!(pwq.get_enforcing(), value);
    }
}

#[test]
fn test_bad_words() {
    let mut pwq = PWQuality::new().unwrap();

    let words = vec!["bad".to_string(), "words".to_string()];
    pwq.bad_words(&words).unwrap();
    let value = pwq.get_bad_words().unwrap();
    assert_eq!(value, vec!["bad".to_string(), "words".to_string()]);
}

#[test]
fn test_dict_path() {
    let mut pwq = PWQuality::new().unwrap();

    for path in ["/path/to/dict", "/path/to/dict2"] {
        pwq.dict_path(path).unwrap();
        let s = pwq.get_dict_path().unwrap();
        assert!(s.eq(path));
    }
}

#[test]
fn test_retry_times() {
    let mut pwq = PWQuality::new().unwrap();

    for value in 1..10 {
        pwq.retry_times(value);
        assert_eq!(pwq.get_retry_times(), value);
    }
}

#[test]
fn test_enforce_for_root() {
    let mut pwq = PWQuality::new().unwrap();

    for value in [true, false] {
        pwq.enforce_for_root(value);
        assert_eq!(pwq.get_enforce_for_root(), value);
    }
}

#[test]
fn test_local_users_only() {
    let mut pwq = PWQuality::new().unwrap();

    for value in [true, false] {
        pwq.local_users_only(value);
        assert_eq!(pwq.get_local_users_only(), value);
    }
}

#[test]
fn test_helper() {
    let mut pwq = PWQuality::new().unwrap();

    let value = 1;
    pwq.min_diff(value);
    assert_eq!(pwq.get_min_diff(), value);

    let value = 12;
    pwq.min_length(value);
    assert_eq!(pwq.get_min_length(), value);

    let value = 2;
    pwq.digit_credit(value);
    assert_eq!(pwq.get_digit_credit(), value);

    let value = 3;
    pwq.uppercase_credit(value);
    assert_eq!(pwq.get_uppercase_credit(), value);

    let value = 6;
    pwq.lowercase_credit(value);
    assert_eq!(pwq.get_lowercase_credit(), value);

    let value = 5;
    pwq.other_credit(value);
    assert_eq!(pwq.get_other_credit(), value);

    let value = 4;
    pwq.min_class(value);
    assert_eq!(pwq.get_min_class(), value);

    let value = 7;
    pwq.max_repeat(value);
    assert_eq!(pwq.get_max_repeat(), value);

    let value = 8;
    pwq.max_sequence(value);
    assert_eq!(pwq.get_max_sequence(), value);

    let value = 9;
    pwq.max_class_repeat(value);
    assert_eq!(pwq.get_max_class_repeat(), value);

    pwq.gecos_check(true);
    assert!(pwq.get_gecos_check());

    pwq.dict_check(true);
    assert!(pwq.get_dict_check());

    pwq.user_check(true);
    assert!(pwq.get_user_check());

    let value = 10;
    pwq.user_substr(value);
    assert_eq!(pwq.get_user_substr(), value);

    pwq.enforcing(true);
    assert!(pwq.get_enforcing());

    let words = vec!["bad".to_string(), "words".to_string()];
    pwq.bad_words(&words).unwrap();
    let value = pwq.get_bad_words().unwrap();
    assert_eq!(value, vec!["bad".to_string(), "words".to_string()]);

    let path = "/path/to/dict";
    pwq.dict_path(path).unwrap();
    let s = pwq.get_dict_path().unwrap();
    assert!(s.eq(path));

    let value = 11;
    pwq.retry_times(value);
    assert_eq!(pwq.get_retry_times(), value);

    pwq.enforce_for_root(true);
    assert!(pwq.get_enforce_for_root());

    pwq.local_users_only(true);
    assert!(pwq.get_local_users_only());
}
