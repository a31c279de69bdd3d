//! The validator functions, exercised on concrete values.

use std::borrow::Cow;
use std::collections::HashMap;

use preprocess::validators::contains::validate_contains;
use preprocess::validators::does_not_contain::validate_does_not_contain;
use preprocess::validators::domain::validate_domain;
use preprocess::validators::email::validate_email;
use preprocess::validators::empty::validate_empty;
use preprocess::validators::length::validate_length;
use preprocess::validators::range::validate_range;

#[test]
fn test_validate_contains_string() {
    assert!(validate_contains("hey", "e").is_ok());
}

#[test]
fn test_validate_contains_string_can_fail() {
    assert!(validate_contains("hey", "o").is_err());
}

#[test]
fn test_validate_contains_hashmap_key() {
    let mut map = HashMap::new();
    map.insert("hey".to_string(), 1);
    assert!(validate_contains(map, "hey").is_ok());
}

#[test]
fn test_validate_contains_hashmap_key_can_fail() {
    let mut map = HashMap::new();
    map.insert("hey".to_string(), 1);
    assert!(validate_contains(map, "bob").is_err());
}

#[test]
fn test_validate_contains_cow() {
    let test: Cow<'static, str> = "hey".into();
    assert!(validate_contains(test.as_ref(), "e").is_ok());
    let test: Cow<'static, str> = String::from("hey").into();
    assert!(validate_contains(test.as_ref(), "e").is_ok());
}

#[test]
fn test_validate_contains_cow_can_fail() {
    let test: Cow<'static, str> = "hey".into();
    assert!(validate_contains(test.as_ref(), "o").is_err());
    let test: Cow<'static, str> = String::from("hey").into();
    assert!(validate_contains(test.as_ref(), "o").is_err());
}

#[test]
fn test_validate_contains_hashmap() {
    let test: HashMap<String, ()> = [("hey".into(), ())].into_iter().collect();
    assert!(validate_contains(test, "o").is_err());
    let test: HashMap<&'static str, ()> = [("hey", ())].into_iter().collect();
    assert!(validate_contains(test, "o").is_err());
}

#[test]
fn test_validate_does_not_contain() {
    assert!(validate_does_not_contain("hey", "o").is_ok());
    assert!(validate_does_not_contain("hey", "e").is_err());
}

#[test]
fn test_validate_empty_passes_everything_through() {
    assert_eq!(validate_empty(41), Ok(41));
    assert_eq!(validate_empty("x"), Ok("x"));
}

#[test]
fn test_validate_email() {
    // Test cases taken from Django
    // https://github.com/django/django/blob/master/tests/validators/tests.py#L48
    let tests = vec![
        ("email@here.com", true),
        ("weirder-email@here.and.there.com", true),
        (r#"!def!xyz%abc@example.com"#, true),
        ("email@[127.0.0.1]", false),
        ("email@[2001:dB8::1]", false),
        ("email@[2001:dB8:0:0:0:0:0:1]", false),
        ("email@[::fffF:127.0.0.1]", false),
        ("example@valid-----hyphens.com", true),
        ("example@valid-with-hyphens.com", true),
        ("test@domain.with.idn.tld.उदाहरण.परीक्षा", true),
        (r#""test@test"@example.com"#, false),
        // max length for domain name labels is 63 characters per RFC 1034
        (
            "a@atm.aaaaaaaaaaaaaaaaaaaaaaaaaaaaaaaaaaaaaaaaaaaaaaaaaaaaaaaaaaaaaaa",
            true,
        ),
        (
            "a@aaaaaaaaaaaaaaaaaaaaaaaaaaaaaaaaaaaaaaaaaaaaaaaaaaaaaaaaaaaaaaa.atm",
            true,
        ),
        (
            "a@aaaaaaaaaaaaaaaaaaaaaaaaaaaaaaaaaaaaaaaaaaaaaaaaaaaaaaaaaaaaaaa.bbbbbbbbbb.atm",
            true,
        ),
        // 64 * a
        (
            "a@atm.aaaaaaaaaaaaaaaaaaaaaaaaaaaaaaaaaaaaaaaaaaaaaaaaaaaaaaaaaaaaaaaa",
            false,
        ),
        ("", false),
        ("abc", false),
        ("abc@", false),
        ("abc@bar", true),
        ("a @x.cz", false),
        ("abc@.com", false),
        ("something@@somewhere.com", false),
        ("email@127.0.0.1", false),
        ("email@[127.0.0.256]", false),
        ("email@[2001:db8::12345]", false),
        ("email@[2001:db8:0:0:0:0:1]", false),
        ("email@[::ffff:127.0.0.256]", false),
        ("example@invalid-.com", false),
        ("example@-invalid.com", false),
        ("example@invalid.com-", false),
        ("example@inv-.alid-.com", false),
        ("example@inv-.-alid.com", false),
        (r#"test@example.com\n\n<script src="x.js">"#, false),
        (r#""\\\011"@here.com"#, false),
        (r#""\\\012"@here.com"#, false),
        ("trailingdot@shouldfail.com.", false),
        // Trailing newlines in username or domain not allowed
        ("a@b.com\n", false),
        ("a\n@b.com", false),
        (r#""test@test"\n@example.com"#, false),
        ("a@[127.0.0.1]\n", false),
        // underscores are not allowed
        ("John.Doe@exam_ple.com", false),
    ];

    for (input, expected) in tests {
        assert_eq!(
            validate_email(input).is_ok(),
            expected,
            "Email `{}` was not classified correctly",
            input
        );
    }
}

#[test]
fn test_validate_email_cow() {
    let test = "email@here.com";
    assert!(validate_email(test).is_ok());
    let test = String::from("email@here.com");
    assert!(validate_email(test).is_ok());
    let test = "a@[127.0.0.1]\n";
    assert!(validate_email(test).is_err());
    let test = String::from("a@[127.0.0.1]\n");
    assert!(validate_email(test).is_err());
}

#[test]
fn test_validate_email_rfc5321() {
    // 65 character local part
    let test = "aaaaaaaaaaaaaaaaaaaaaaaaaaaaaaaaaaaaaaaaaaaaaaaaaaaaaaaaaaaaaaaaa@mail.com";
    assert!(validate_email(test).is_err());
    // 256 character domain part
    let test = "a@aaaaaaaaaaaaaaaaaaaaaaaaaaaaaaaaaaaaaaaaaaaaaaaaaaaaaaaaaaaaaaaaaaaaaaaaaaaaaaaaaaaaaaaaaaaaaaaaaaaaaaaaaaaaaaaaaaaaaaaaaaaaaaaaaaaaaaaaaaaaaaaaaaaaaaaaaaaaaaaaaaaaaaaaaaaaaaaaaaaaaaaaaaaaaaaaaaaaaaaaaaaaaaaaaaaaaaaaaaaaaaaaaaaaaaaaaaaaaaaaaaaaaaaaaaaaaaaa.com";
    assert!(validate_email(test).is_err());
}

#[test]
fn test_validate_length_equal_overrides_min_max() {
    assert!(validate_length("hello", Some(1), Some(2), Some(5)).is_err());
}

#[test]
fn test_validate_length_string_min_max() {
    assert!(validate_length("hello", Some(1), Some(10), None).is_ok());
}

#[test]
fn test_validate_length_string_min_only() {
    assert!(validate_length("hello", Some(10), None, None).is_err());
}

#[test]
fn test_validate_length_string_max_only() {
    assert!(validate_length("hello", None, Some(1), None).is_err());
}

#[test]
fn test_validate_length_cow() {
    let test: Cow<'static, str> = "hello".into();
    assert!(validate_length(test.as_ref(), None, None, None).is_ok());

    let test: Cow<'static, str> = String::from("hello").into();
    assert!(validate_length(test.as_ref(), None, None, Some(5)).is_ok());
}

#[test]
fn test_validate_length_vec() {
    assert!(validate_length(vec![1, 2, 3], None, None, Some(3)).is_ok());
}

#[test]
fn test_validate_length_unicode_chars() {
    assert!(validate_length("日本", None, None, Some(2)).is_ok());
}

#[test]
fn test_validate_range_generic_ok() {
    // Unspecified generic type:
    assert_eq!(validate_range(10, Some(-10), Some(10)), Ok(10));
    assert_eq!(validate_range(0.0, Some(0.0), Some(10.0)), Ok(0.0));

    // Specified type:
    assert_eq!(validate_range(5u8, Some(0), Some(255)), Ok(5u8));
    assert_eq!(validate_range(4u16, Some(0), Some(16)), Ok(4u16));
    assert_eq!(validate_range(6u32, Some(0), Some(23)), Ok(6u32));
}

#[test]
fn test_validate_range_generic_fail() {
    assert!(validate_range(5, Some(17), Some(19)).is_err());
    assert!(validate_range(-1.0, Some(0.0), Some(10.0)).is_err());
}

#[test]
fn test_validate_range_generic_min_only() {
    assert!(validate_range(5, Some(10), None).is_err());
    assert_eq!(validate_range(15, Some(10), None), Ok(15));
}

#[test]
fn test_validate_range_generic_max_only() {
    assert_eq!(validate_range(5, None, Some(10)), Ok(5));
    assert!(validate_range(15, None, Some(10)).is_err());
}
