//! The preprocessors, the in-place helpers, the string-level catalog and
//! the error value, exercised on concrete inputs.

use preprocess::catalog::PreprocessorType;
use preprocess::preprocessors::{preprocess_lowercase, preprocess_trim, preprocess_uppercase};
use preprocess::process::{length, lowercase, process, process_mut, regex, trim};
use preprocess::text::{u64_to_string, usize_to_string};
use preprocess::utils::Error;
use preprocess::validate::length::LengthValidatorArgs;

#[test]
fn test_preprocess_trim() {
    assert_eq!(preprocess_trim("  HelloWorld  ").unwrap(), "HelloWorld");
    assert_eq!(preprocess_trim("\t spaced \n").unwrap(), "spaced");
    assert_eq!(preprocess_trim("untouched").unwrap(), "untouched");
}

#[test]
fn test_preprocess_lowercase() {
    assert_eq!(preprocess_lowercase("HeLLo").unwrap(), "hello");
}

#[test]
fn test_preprocess_uppercase() {
    assert_eq!(preprocess_uppercase("HeLLo").unwrap(), "HELLO");
}

#[test]
fn test_process_trim_in_place() {
    let mut s = "  HEllo  ".to_string();
    trim(&mut s).unwrap();
    assert_eq!(s, "HEllo");
}

#[test]
fn test_process_lowercase_in_place() {
    let mut s = "HEllo".to_string();
    lowercase(&mut s).unwrap();
    assert_eq!(s, "hello");
}

#[test]
fn test_process_length() {
    assert!(length(&"hello", Some(1), Some(10)).is_ok());
    assert!(length(&"hello", Some(6), None).is_err());
    assert!(length(&"hello", None, Some(4)).is_err());
    assert!(length(&vec![1, 2, 3], Some(3), Some(3)).is_ok());
}

#[test]
fn test_process_steps() {
    let value = 5;
    assert!(process(&value, |v: &i32| {
        if *v > 0 {
            Ok(())
        } else {
            Err(Error::new("must be positive"))
        }
    })
    .is_ok());

    let out = process_mut("hello".to_string(), |mut v: String| {
        v.push('0');
        Ok(v)
    })
    .unwrap();
    assert_eq!(out, "hello0");
}

#[test]
fn test_process_regex() {
    let pat = regex::Regex::new("^HE").unwrap();
    assert!(regex(&"HEllo", &pat).is_ok());
    assert!(regex(&"hello", &pat).is_err());
}

#[test]
fn test_error_text() {
    let e = Error::new("too short").set_field("password");
    assert_eq!(e.field, "password");
    assert_eq!(e.message, "too short");
    assert_eq!(e.to_text(), "error preprocessing field `password`: too short");
}

#[test]
fn test_number_rendering() {
    assert_eq!(usize_to_string(0), "0");
    assert_eq!(usize_to_string(12345), "12345");
    assert_eq!(u64_to_string(18446744073709551615), "18446744073709551615");
}

#[test]
fn test_catalog_names() {
    assert_eq!(PreprocessorType::Email.preprocessor_name(), "email");
    assert_eq!(PreprocessorType::Trimmed.preprocessor_name(), "trimmed");
    let parsed = PreprocessorType::parse_preprocessor_name("length").unwrap();
    assert_eq!(parsed.preprocessor_name(), "length");
    assert!(matches!(
        parsed,
        PreprocessorType::Length(LengthValidatorArgs::Min { min: 0 })
    ));
    assert!(PreprocessorType::parse_preprocessor_name("frobnicate").is_err());
}

#[test]
fn test_catalog_processed_types() {
    assert_eq!(PreprocessorType::Email.get_processed_type("String"), "String");
    assert_eq!(
        PreprocessorType::Nested.get_processed_type("SignUpRequest"),
        "SignUpRequestProcessed"
    );
    assert_eq!(
        PreprocessorType::Ipv4.get_processed_type("String"),
        "std::net::Ipv4Addr"
    );
    assert_eq!(
        PreprocessorType::TypeSpecifier { type_path: "i64".to_string() }.get_processed_type("i16"),
        "i64"
    );
}
