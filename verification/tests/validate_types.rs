//! The struct-shaped validator API, exercised on concrete values.

use std::borrow::Cow;

use preprocess::validate::email::{validate_domain_part, validate_email};
use preprocess::validate::ip4::{validate_ip_v4, Ipv4AddrValidator};
use preprocess::validate::ip6::{validate_ip_v6, Ipv6AddrValidator};
use preprocess::validate::length::{validate_length, LengthValidator, LengthValidatorArgs};
use preprocess::validate::url::{validate_url, UrlValidator};
use preprocess::validators::ip::{validate_ip, IpAddress, Ipv4Address};

#[test]
fn length_test_validate_length_string_min_max() {
    assert!(validate_length(
        "hello".chars().count(),
        LengthValidatorArgs::MinMax { min: 1, max: 10 }
    ));
}

#[test]
fn length_test_validate_length_string_min_only() {
    assert!(!validate_length(
        "hello".chars().count(),
        LengthValidatorArgs::Min { min: 10 }
    ));
}

#[test]
fn length_test_validate_length_string_max_only() {
    assert!(!validate_length(
        "hello".chars().count(),
        LengthValidatorArgs::Max { max: 1 }
    ));
}

#[test]
fn length_test_validate_length_cow() {
    let test: Cow<'static, str> = "hello".into();
    assert!(validate_length(
        test.chars().count(),
        LengthValidatorArgs::Exact { exact: 5 }
    ));

    let test: Cow<'static, str> = String::from("hello").into();
    assert!(validate_length(
        test.chars().count(),
        LengthValidatorArgs::Exact { exact: 5 }
    ));
}

#[test]
fn length_test_validate_length_vec() {
    assert!(validate_length(
        vec![1, 2, 3].len(),
        LengthValidatorArgs::Exact { exact: 3 }
    ));
}

#[test]
fn length_test_validate_length_unicode_chars() {
    assert!(validate_length(
        "日本".chars().count(),
        LengthValidatorArgs::Exact { exact: 2 }
    ));
}

#[test]
fn test_length_validator_struct() {
    let items = vec![1, 2, 3];
    let mut validator = LengthValidator::from(items);
    validator.set_args(LengthValidatorArgs::Min { min: 2 });
    assert!(validator.preprocess().is_ok());

    let string: &str = "hello";
    let mut validator = LengthValidator::from(string);
    validator.set_args(LengthValidatorArgs::Exact { exact: 4 });
    assert!(validator.preprocess().is_err());
}

#[test]
fn test_validate_url() {
    let tests = vec![
        ("http", false),
        ("https://google.com", true),
        ("http://localhost:80", true),
        ("ftp://localhost:80", true),
    ];

    for (url, expected) in tests {
        assert_eq!(validate_url(url), expected);
    }
}

#[test]
fn test_validate_url_cow() {
    let test: Cow<'static, str> = "http://localhost:80".into();
    assert!(validate_url(&test));
    let test: Cow<'static, str> = String::from("http://localhost:80").into();
    assert!(validate_url(&test));
    let test: Cow<'static, str> = "http".into();
    assert!(!validate_url(&test));
    let test: Cow<'static, str> = String::from("http").into();
    assert!(!validate_url(&test));
}

#[test]
fn test_url_validator_struct() {
    let url: &str = "https://google.com";
    assert!(UrlValidator::from(url).validate());
    assert!(UrlValidator::from(url).preprocess().is_ok());
    assert!(UrlValidator::from("http").preprocess().is_err());
}

#[test]
fn test_validate_ip_v4() {
    let tests = vec![
        ("1.1.1.1", true),
        ("255.0.0.0", true),
        ("0.0.0.0", true),
        ("256.1.1.1", false),
        ("25.1.1.", false),
        ("25,1,1,1", false),
        ("25.1 .1.1", false),
        ("1.1.1.1\n", false),
        ("٧.2٥.3٣.243", false),
    ];

    for (input, expected) in tests {
        assert_eq!(validate_ip_v4(input), expected, "ip `{}`", input);
    }
}

#[test]
fn test_validate_ip_v4_cow() {
    let test: Cow<'static, str> = "1.1.1.1".into();
    assert!(validate_ip_v4(test.as_ref()));
    let test: Cow<'static, str> = String::from("1.1.1.1").into();
    assert!(validate_ip_v4(test.as_ref()));
    let test: Cow<'static, str> = "٧.2٥.3٣.243".into();
    assert!(!validate_ip_v4(test.as_ref()));
    let test: Cow<'static, str> = String::from("٧.2٥.3٣.243").into();
    assert!(!validate_ip_v4(test.as_ref()));
}

#[test]
fn test_ipv4_validator_struct() {
    let v4: &str = "192.168.1.2";
    assert!(Ipv4AddrValidator::from(v4).validate());
    assert_eq!(
        Ipv4AddrValidator::from("192.168.1.4").preprocess(),
        Ok(Ipv4Address { a: 192, b: 168, c: 1, d: 4 })
    );
    assert!(Ipv4AddrValidator::from("01.2.3.4").preprocess().is_err());
}

#[test]
fn test_validate_ip_v6() {
    let tests = vec![
        ("fe80::223:6cff:fe8a:2e8a", true),
        ("2a02::223:6cff:fe8a:2e8a", true),
        ("1::2:3:4:5:6:7", true),
        ("::", true),
        ("::a", true),
        ("2::", true),
        ("::ffff:254.42.16.14", true),
        ("::ffff:0a0a:0a0a", true),
        ("::254.42.16.14", true),
        ("::0a0a:0a0a", true),
        ("foo", false),
        ("127.0.0.1", false),
        ("12345::", false),
        ("1::2::3::4", false),
        ("1::zzz", false),
        ("1:2", false),
        ("fe80::223: 6cff:fe8a:2e8a", false),
        ("2a02::223:6cff :fe8a:2e8a", false),
        ("::ffff:999.42.16.14", false),
        ("::ffff:zzzz:0a0a", false),
    ];

    for (input, expected) in tests {
        assert_eq!(validate_ip_v6(input), expected, "ip `{}`", input);
    }
}

#[test]
fn test_validate_ip_v6_cow() {
    let test: Cow<'static, str> = "fe80::223:6cff:fe8a:2e8a".into();
    assert!(validate_ip_v6(test.as_ref()));
    let test: Cow<'static, str> = String::from("fe80::223:6cff:fe8a:2e8a").into();
    assert!(validate_ip_v6(test.as_ref()));
    let test: Cow<'static, str> = "::ffff:zzzz:0a0a".into();
    assert!(!validate_ip_v6(test.as_ref()));
    let test: Cow<'static, str> = String::from("::ffff:zzzz:0a0a").into();
    assert!(!validate_ip_v6(test.as_ref()));
}

#[test]
fn test_ipv6_validator_struct() {
    assert!(Ipv6AddrValidator::from("2001:db8::ff00:42:8329").validate());
    let parsed = Ipv6AddrValidator::from("2001:db8::ff00:42:8329").preprocess().unwrap();
    assert_eq!(parsed.g0, 0x2001);
    assert_eq!(parsed.g1, 0x0db8);
    assert_eq!(parsed.g2, 0);
    assert_eq!(parsed.g5, 0xff00);
    assert_eq!(parsed.g6, 0x42);
    assert_eq!(parsed.g7, 0x8329);
    assert!(Ipv6AddrValidator::from("1::2::3").preprocess().is_err());
}

#[test]
fn test_validate_ip_any() {
    assert!(matches!(validate_ip("127.0.0.1"), Ok(IpAddress::V4(_))));
    assert!(matches!(validate_ip("::1"), Ok(IpAddress::V6(_))));
    assert!(validate_ip("not-an-ip").is_err());
}

#[test]
fn test_validate_domain_part() {
    assert!(validate_domain_part("example.com", false, false).is_ok());
    assert!(validate_domain_part("ex_ample.com", false, false).is_err());
    assert!(validate_domain_part("-example.com", false, false).is_err());
    // An IP in the domain position needs the allow flag.
    assert!(validate_domain_part("127.0.0.1", false, false).is_err());
    assert!(validate_domain_part("127.0.0.1", true, false).is_ok());
    // Only the pattern is checked at top level.
    assert!(validate_domain_part("127.0.0.1", false, true).is_ok());
}

#[test]
fn test_validate_email_with_ips() {
    assert!(validate_email("email@here.com", false).is_ok());
    assert!(validate_email("email@127.0.0.1", true).is_ok());
    assert!(validate_email("email@127.0.0.1", false).is_err());
    assert!(validate_email("test@उदाहरण.परीक्षा", false).is_ok());
    assert!(validate_email("not-an-email", false).is_err());
    assert!(validate_email("", true).is_err());
}
