use pwquality::ErrorKind;
use pwquality::PWQuality;

#[test]
fn empty_password_is_rejected() {
    let pwq = PWQuality::new().unwrap();
    let err = pwq.check("", None, None).unwrap_err();
    assert_eq!(err.kind, ErrorKind::EmptyPassword);
    assert_eq!(err.code(), -20);
    assert_eq!(err.message(), "The password is empty");
}

#[test]
fn same_password_is_rejected() {
    let pwq = PWQuality::new().unwrap();
    let err = pwq.check("abcXYZ123", Some("abcXYZ123"), None).unwrap_err();
    assert_eq!(err.kind, ErrorKind::SamePassword);
    assert_eq!(err.code(), -21);
}

#[test]
fn case_changes_only_is_rejected() {
    let pwq = PWQuality::new().unwrap();
    let err = pwq.check("PaSsWoRd7", Some("password7"), None).unwrap_err();
    assert_eq!(err.kind, ErrorKind::CaseChangesOnly);
}

#[test]
fn palindrome_is_rejected() {
    let pwq = PWQuality::new().unwrap();
    let err = pwq.check("Abc1221cba", None, None).unwrap_err();
    assert_eq!(err.kind, ErrorKind::Palindrome);
}

#[test]
fn rotated_password_is_rejected() {
    let pwq = PWQuality::new().unwrap();
    let err = pwq
        .check("sword7!Pas", Some("Password7!"), None)
        .unwrap_err();
    assert_eq!(err.kind, ErrorKind::Rotated);
}

#[test]
fn too_similar_is_rejected() {
    let mut pwq = PWQuality::new().unwrap();
    pwq.min_diff(5);
    let err = pwq
        .check("Quality12x", Some("Quality12y"), None)
        .unwrap_err();
    assert_eq!(err.kind, ErrorKind::TooSimilar);

    // difok = 0 disables the similarity count.
    pwq.min_diff(0);
    assert!(pwq.check("Quality12x", Some("Quality12y"), None).is_ok());
}

#[test]
fn negative_credits_demand_minimum_counts() {
    let mut pwq = PWQuality::new().unwrap();
    pwq.digit_credit(-2);
    let err = pwq.check("NoDigitsHere!", None, None).unwrap_err();
    assert_eq!(err.kind, ErrorKind::MinDigits);

    let mut pwq = PWQuality::new().unwrap();
    pwq.uppercase_credit(-1);
    let err = pwq.check("nouppercase7!", None, None).unwrap_err();
    assert_eq!(err.kind, ErrorKind::MinUppers);

    let mut pwq = PWQuality::new().unwrap();
    pwq.lowercase_credit(-1);
    let err = pwq.check("NOLOWERCASE7!", None, None).unwrap_err();
    assert_eq!(err.kind, ErrorKind::MinLowers);

    let mut pwq = PWQuality::new().unwrap();
    pwq.other_credit(-1);
    let err = pwq.check("NoOthersHere7", None, None).unwrap_err();
    assert_eq!(err.kind, ErrorKind::MinOthers);
}

#[test]
fn scenario_min_length_and_bad_words() {
    let mut pwq = PWQuality::new().unwrap();
    pwq.set_option("minlen=9").unwrap();

    let err = pwq.check("abc", None, None).unwrap_err();
    assert_eq!(err.kind, ErrorKind::MinLength);

    let score = pwq.check("abcdefghi1", None, None).unwrap();
    assert!(score >= 0);

    pwq.set_option("badwords=badpassword").unwrap();
    let err = pwq.check("mybadpasswordtoo", None, None).unwrap_err();
    assert_eq!(err.kind, ErrorKind::BadWords);
}

#[test]
fn score_is_length_beyond_baseline_plus_credits() {
    let mut pwq = PWQuality::new().unwrap();
    pwq.min_length(9);
    // Ten characters, no credits configured: one point past the baseline.
    assert_eq!(pwq.check("abcdefghi1", None, None).unwrap(), 1);

    // A digit credit of two awards one point for the single digit.
    pwq.digit_credit(2);
    assert_eq!(pwq.check("abcdefghi1", None, None).unwrap(), 2);

    // The cap: a long password cannot score above one hundred.
    let long = "aX3!".repeat(30);
    assert_eq!(pwq.check(&long, None, None).unwrap(), 100);
}

#[test]
fn min_classes_is_enforced() {
    let mut pwq = PWQuality::new().unwrap();
    pwq.min_class(3);
    let err = pwq.check("lettersonly", None, None).unwrap_err();
    assert_eq!(err.kind, ErrorKind::MinClasses);
    assert!(pwq.check("Letters0nly", None, None).is_ok());
}

#[test]
fn repeat_runs_are_enforced() {
    let mut pwq = PWQuality::new().unwrap();
    pwq.max_repeat(2);
    let err = pwq.check("Quaaality7", None, None).unwrap_err();
    assert_eq!(err.kind, ErrorKind::MaxConsecutive);
    assert!(pwq.check("Quaality77", None, None).is_ok());
}

#[test]
fn class_runs_are_enforced() {
    let mut pwq = PWQuality::new().unwrap();
    pwq.max_class_repeat(4);
    let err = pwq.check("abcdefg37!", None, None).unwrap_err();
    assert_eq!(err.kind, ErrorKind::MaxClassRepeat);
    assert!(pwq.check("abcd3fg37!", None, None).is_ok());
}

#[test]
fn monotonic_sequences_are_enforced() {
    let mut pwq = PWQuality::new().unwrap();
    pwq.max_sequence(3);
    let err = pwq.check("x12345zW!", None, None).unwrap_err();
    assert_eq!(err.kind, ErrorKind::MaxSequence);
    // Descending runs count too.
    let err = pwq.check("xedcbazW!", None, None).unwrap_err();
    assert_eq!(err.kind, ErrorKind::MaxSequence);
    assert!(pwq.check("x123z456W!", None, None).is_ok());
}

#[test]
fn gecos_words_are_enforced() {
    let mut pwq = PWQuality::new().unwrap();
    pwq.gecos_check(true);
    let err = pwq
        .check("xSmithers9!", None, Some("John Smith"))
        .unwrap_err();
    assert_eq!(err.kind, ErrorKind::GecosCheck);
    // Words of one or two characters are not searched for.
    assert!(pwq.check("xyzWq29!", None, Some("wq zy")).is_ok());
}

#[test]
fn user_name_forms_are_enforced() {
    let pwq = PWQuality::new().unwrap();
    let err = pwq.check("myROOTpw9!", None, Some("root")).unwrap_err();
    assert_eq!(err.kind, ErrorKind::UserCheck);
    let err = pwq.check("mytoorpw9!", None, Some("root")).unwrap_err();
    assert_eq!(err.kind, ErrorKind::UserCheck);

    let mut pwq = PWQuality::new().unwrap();
    pwq.user_substr(3);
    let err = pwq.check("xxadminyy7!", None, Some("administrator")).unwrap_err();
    assert_eq!(err.kind, ErrorKind::UserCheck);

    // With the check disabled the same password passes.
    pwq.user_check(false);
    assert!(pwq.check("xxadminyy7!", None, Some("administrator")).is_ok());
}

#[test]
fn dictionary_verdict_is_honored() {
    let pwq = PWQuality::new().unwrap();
    let err = pwq
        .check_with_dict("Quality12!", None, None, Some("quality"))
        .unwrap_err();
    assert_eq!(err.kind, ErrorKind::CracklibCheck);
    assert_eq!(err.aux.as_deref(), Some("quality"));
    assert_eq!(
        err.message(),
        "The password fails the dictionary check - quality"
    );

    // With the dictionary check disabled the verdict is ignored.
    let mut pwq = PWQuality::new().unwrap();
    pwq.dict_check(false);
    assert!(pwq
        .check_with_dict("Quality12!", None, None, Some("quality"))
        .is_ok());
}

#[test]
fn option_string_matches_direct_setter() {
    let mut by_option = PWQuality::new().unwrap();
    let mut by_setter = PWQuality::new().unwrap();

    by_option.set_option("minlen=9").unwrap();
    by_setter.min_length(9);
    assert_eq!(by_option.get_min_length(), by_setter.get_min_length());

    by_option.set_option("dcredit=-3").unwrap();
    by_setter.digit_credit(-3);
    assert_eq!(by_option.get_digit_credit(), by_setter.get_digit_credit());

    by_option.set_option("badwords=one two").unwrap();
    let words = vec!["one".to_string(), "two".to_string()];
    by_setter.bad_words(&words).unwrap();
    assert_eq!(
        by_option.get_bad_words().unwrap(),
        by_setter.get_bad_words().unwrap()
    );
}

#[test]
fn option_string_errors() {
    let mut pwq = PWQuality::new().unwrap();

    let err = pwq.set_option("nosuchoption=1").unwrap_err();
    assert_eq!(err.kind, ErrorKind::UnknownSetting);
    assert_eq!(err.aux.as_deref(), Some("nosuchoption"));
    assert_eq!(err.code(), -5);

    let err = pwq.set_option("minlen=abc").unwrap_err();
    assert_eq!(err.kind, ErrorKind::NonIntSetting);

    // A value outside the 32-bit range is not an acceptable integer.
    let err = pwq.set_option("minlen=99999999999").unwrap_err();
    assert_eq!(err.kind, ErrorKind::NonIntSetting);

    // None of the failures disturbed the store.
    assert_eq!(pwq.get_min_length(), 8);
}

#[test]
fn setter_clamps_are_observable() {
    let mut pwq = PWQuality::new().unwrap();
    pwq.min_length(1);
    assert_eq!(pwq.get_min_length(), 6);
    pwq.set_option("minlen=1").unwrap();
    assert_eq!(pwq.get_min_length(), 6);
    pwq.min_class(9);
    assert_eq!(pwq.get_min_class(), 4);
}

#[test]
fn comments_only_config_keeps_defaults() {
    let mut pwq = PWQuality::new().unwrap();
    pwq.parse_config("# a comment\n\n   \n\t\n# another = comment\n")
        .unwrap();
    assert_eq!(pwq.get_min_length(), 8);
    assert_eq!(pwq.get_min_diff(), 1);
    assert_eq!(pwq.get_min_class(), 0);
    assert!(pwq.get_dict_check());
    assert!(pwq.get_user_check());
    assert!(!pwq.get_gecos_check());
    assert_eq!(pwq.get_retry_times(), 1);
    assert!(pwq.get_bad_words().unwrap().is_empty());
}

#[test]
fn config_applies_directives() {
    let mut pwq = PWQuality::new().unwrap();
    pwq.parse_config("# policy\nminlen = 12\n\nmaxrepeat=3\r\nbadwords = alpha beta\n")
        .unwrap();
    assert_eq!(pwq.get_min_length(), 12);
    assert_eq!(pwq.get_max_repeat(), 3);
    assert_eq!(
        pwq.get_bad_words().unwrap(),
        vec!["alpha".to_string(), "beta".to_string()]
    );
}

#[test]
fn malformed_config_line_fails_fast() {
    let mut pwq = PWQuality::new().unwrap();
    let err = pwq
        .parse_config("minlen = 9\nthis line is malformed\nminlen = 11\n")
        .unwrap_err();
    assert_eq!(err.kind, ErrorKind::CfgFileMalformed);
    assert_eq!(err.aux.as_deref(), Some("this line is malformed"));
    assert_eq!(err.code(), -4);

    // The directive before the malformed line stays applied; the one after
    // it was never reached.
    assert_eq!(pwq.get_min_length(), 9);
}

#[test]
fn unrecognized_config_name_is_malformed() {
    let mut pwq = PWQuality::new().unwrap();
    let err = pwq.parse_config("bogus = 1\n").unwrap_err();
    assert_eq!(err.kind, ErrorKind::CfgFileMalformed);
    assert_eq!(err.aux.as_deref(), Some("bogus = 1"));
}

#[test]
fn generated_passwords_pass_their_own_check() {
    let pwq = PWQuality::new().unwrap();
    for bits in [56, 64, 100, 256] {
        let password = pwq.generate(bits).unwrap();
        let score = pwq.check(&password, None, None).unwrap();
        assert!(score >= 0);
    }
}

#[test]
fn generated_length_follows_entropy_target() {
    let pwq = PWQuality::new().unwrap();
    // Targets below the floor are raised to it: 56 bits over a 64-character
    // alphabet make ten characters.
    assert_eq!(pwq.generate(32).unwrap().chars().count(), 10);
    // Targets above the ceiling are lowered to it.
    assert_eq!(pwq.generate(1000).unwrap().chars().count(), 43);
}

#[test]
fn generation_fails_under_impossible_policy() {
    let mut pwq = PWQuality::new().unwrap();
    // No candidate of at most 43 characters can reach this baseline.
    pwq.min_length(90);
    let err = pwq.generate(256).unwrap_err();
    assert_eq!(err.kind, ErrorKind::GenerationFailed);
    assert_eq!(err.code(), -24);
}

#[test]
fn error_codes_are_stable() {
    let pwq = PWQuality::new().unwrap();
    assert_eq!(pwq.check("", None, None).unwrap_err().code(), -20);
    assert_eq!(pwq.check("ab1", Some("ab1"), None).unwrap_err().code(), -21);
    assert_eq!(pwq.check("abc", None, None).unwrap_err().code(), -14);
    let mut pwq = PWQuality::new().unwrap();
    pwq.max_repeat(1);
    assert_eq!(pwq.check("aabbccdd123", None, None).unwrap_err().code(), -19);
}
