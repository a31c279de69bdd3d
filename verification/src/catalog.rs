//! A string-level catalog of the preprocessor vocabulary: each kind's
//! recognized spelling and the type its output has, named by text.

use vstd::prelude::*;
use vstd::string::*;
use crate::text::str_eq;
use crate::utils::Error;
use crate::validate::length::LengthValidatorArgs;

verus! {

/// One preprocessor kind, with its kind-specific payload.
pub enum PreprocessorType {
    /// A user-supplied function, referred to by name.
    Custom { function_name: String },
    /// A coercion to the named type.
    TypeSpecifier { type_path: String },
    /// Delegation to the field type's own generated transformation.
    Nested,
    /// The validators.
    Email,
    Ip,
    Ipv4,
    Ipv6,
    Length(LengthValidatorArgs),
    Url,
    Host,
    Domain,
    Contains { value: String },
    DoesNotContain { value: String },
    Required,
    Regex { regex: String },
    /// The mutators.
    Trimmed,
    Lowercase,
    Uppercase,
}

/// The mathematical form of a preprocessor kind.
pub enum PreprocessorTypeView {
    Custom { function_name: Seq<char> },
    TypeSpecifier { type_path: Seq<char> },
    Nested,
    Email,
    Ip,
    Ipv4,
    Ipv6,
    Length(LengthValidatorArgs),
    Url,
    Host,
    Domain,
    Contains { value: Seq<char> },
    DoesNotContain { value: Seq<char> },
    Required,
    Regex { regex: Seq<char> },
    Trimmed,
    Lowercase,
    Uppercase,
}

impl View for PreprocessorType {
    type V = PreprocessorTypeView;

    open spec fn view(&self) -> PreprocessorTypeView {
        match self {
            PreprocessorType::Custom { function_name } => PreprocessorTypeView::Custom {
                function_name: function_name@,
            },
            PreprocessorType::TypeSpecifier { type_path } => PreprocessorTypeView::TypeSpecifier {
                type_path: type_path@,
            },
            PreprocessorType::Nested => PreprocessorTypeView::Nested,
            PreprocessorType::Email => PreprocessorTypeView::Email,
            PreprocessorType::Ip => PreprocessorTypeView::Ip,
            PreprocessorType::Ipv4 => PreprocessorTypeView::Ipv4,
            PreprocessorType::Ipv6 => PreprocessorTypeView::Ipv6,
            PreprocessorType::Length(args) => PreprocessorTypeView::Length(*args),
            PreprocessorType::Url => PreprocessorTypeView::Url,
            PreprocessorType::Host => PreprocessorTypeView::Host,
            PreprocessorType::Domain => PreprocessorTypeView::Domain,
            PreprocessorType::Contains { value } => PreprocessorTypeView::Contains {
                value: value@,
            },
            PreprocessorType::DoesNotContain { value } => PreprocessorTypeView::DoesNotContain {
                value: value@,
            },
            PreprocessorType::Required => PreprocessorTypeView::Required,
            PreprocessorType::Regex { regex } => PreprocessorTypeView::Regex { regex: regex@ },
            PreprocessorType::Trimmed => PreprocessorTypeView::Trimmed,
            PreprocessorType::Lowercase => PreprocessorTypeView::Lowercase,
            PreprocessorType::Uppercase => PreprocessorTypeView::Uppercase,
        }
    }
}

/// The recognized spelling of a preprocessor kind; a type coercion has no
/// spelling of its own.
pub open spec fn preprocessor_name_of(p: PreprocessorTypeView) -> Seq<char> {
    match p {
        PreprocessorTypeView::Custom { .. } => "custom"@,
        PreprocessorTypeView::TypeSpecifier { .. } => ""@,
        PreprocessorTypeView::Nested => "nested"@,
        PreprocessorTypeView::Email => "email"@,
        PreprocessorTypeView::Ip => "ip"@,
        PreprocessorTypeView::Ipv4 => "ipv4"@,
        PreprocessorTypeView::Ipv6 => "ipv6"@,
        PreprocessorTypeView::Length(_) => "length"@,
        PreprocessorTypeView::Url => "url"@,
        PreprocessorTypeView::Host => "host"@,
        PreprocessorTypeView::Domain => "domain"@,
        PreprocessorTypeView::Contains { .. } => "contains"@,
        PreprocessorTypeView::DoesNotContain { .. } => "doesnotcontain"@,
        PreprocessorTypeView::Required => "required"@,
        PreprocessorTypeView::Regex { .. } => "regex"@,
        PreprocessorTypeView::Trimmed => "trimmed"@,
        PreprocessorTypeView::Lowercase => "lowercase"@,
        PreprocessorTypeView::Uppercase => "uppercase"@,
    }
}

/// The preprocessor kind a spelling denotes, with its default payload, or
/// `None` for an unknown spelling.
pub open spec fn parse_name_spec(s: Seq<char>) -> Option<PreprocessorTypeView> {
    if s == "custom"@ {
        Some(PreprocessorTypeView::Custom { function_name: " "@ })
    } else if s == "type"@ {
        Some(PreprocessorTypeView::TypeSpecifier { type_path: " "@ })
    } else if s == "nested"@ {
        Some(PreprocessorTypeView::Nested)
    } else if s == "email"@ {
        Some(PreprocessorTypeView::Email)
    } else if s == "ip"@ {
        Some(PreprocessorTypeView::Ip)
    } else if s == "ipv4"@ {
        Some(PreprocessorTypeView::Ipv4)
    } else if s == "ipv6"@ {
        Some(PreprocessorTypeView::Ipv6)
    } else if s == "length"@ {
        Some(PreprocessorTypeView::Length(LengthValidatorArgs::Min { min: 0 }))
    } else if s == "url"@ {
        Some(PreprocessorTypeView::Url)
    } else if s == "host"@ {
        Some(PreprocessorTypeView::Host)
    } else if s == "domain"@ {
        Some(PreprocessorTypeView::Domain)
    } else if s == "contains"@ {
        Some(PreprocessorTypeView::Contains { value: ""@ })
    } else if s == "doesnotcontain"@ {
        Some(PreprocessorTypeView::DoesNotContain { value: ""@ })
    } else if s == "required"@ {
        Some(PreprocessorTypeView::Required)
    } else if s == "regex"@ {
        Some(PreprocessorTypeView::Regex { regex: ""@ })
    } else if s == "trimmed"@ {
        Some(PreprocessorTypeView::Trimmed)
    } else if s == "lowercase"@ {
        Some(PreprocessorTypeView::Lowercase)
    } else if s == "uppercase"@ {
        Some(PreprocessorTypeView::Uppercase)
    } else {
        None
    }
}

/// The type a field has after this preprocessor, named by text; kinds that
/// only check leave the input type unchanged.
pub open spec fn processed_type_of(p: PreprocessorTypeView, input: Seq<char>) -> Seq<char> {
    match p {
        PreprocessorTypeView::Custom { .. } => input,
        PreprocessorTypeView::TypeSpecifier { type_path } => type_path,
        PreprocessorTypeView::Nested => input + "Processed"@,
        PreprocessorTypeView::Email => input,
        PreprocessorTypeView::Ip => "std::net::IpAddr"@,
        PreprocessorTypeView::Ipv4 => "std::net::Ipv4Addr"@,
        PreprocessorTypeView::Ipv6 => "std::net::Ipv6Addr"@,
        PreprocessorTypeView::Length(_) => input,
        PreprocessorTypeView::Url => "preprocess::validators::url::Url"@,
        PreprocessorTypeView::Host => "String"@,
        PreprocessorTypeView::Domain => "String"@,
        PreprocessorTypeView::Contains { .. } => input,
        PreprocessorTypeView::DoesNotContain { .. } => input,
        PreprocessorTypeView::Required => input,
        PreprocessorTypeView::Regex { .. } => input,
        PreprocessorTypeView::Trimmed => input,
        PreprocessorTypeView::Lowercase => input,
        PreprocessorTypeView::Uppercase => input,
    }
}

impl PreprocessorType {
    /// The recognized spelling of this kind.
    pub fn preprocessor_name(&self) -> (r: &'static str)
        ensures
            r@ == preprocessor_name_of(self@),
    {
        match self {
            PreprocessorType::Custom { .. } => "custom",
            PreprocessorType::TypeSpecifier { .. } => "",
            PreprocessorType::Nested => "nested",
            PreprocessorType::Email => "email",
            PreprocessorType::Ip => "ip",
            PreprocessorType::Ipv4 => "ipv4",
            PreprocessorType::Ipv6 => "ipv6",
            PreprocessorType::Length(_) => "length",
            PreprocessorType::Url => "url",
            PreprocessorType::Host => "host",
            PreprocessorType::Domain => "domain",
            PreprocessorType::Contains { .. } => "contains",
            PreprocessorType::DoesNotContain { .. } => "doesnotcontain",
            PreprocessorType::Required => "required",
            PreprocessorType::Regex { .. } => "regex",
            PreprocessorType::Trimmed => "trimmed",
            PreprocessorType::Lowercase => "lowercase",
            PreprocessorType::Uppercase => "uppercase",
        }
    }

    /// Parses a spelling into its kind with a default payload; an unknown
    /// spelling is a diagnostic.
    pub fn parse_preprocessor_name(name: &str) -> (r: Result<Self, Error>)
        ensures
            r matches Ok(p) ==> parse_name_spec(name@) == Some(p@),
            r is Err ==> parse_name_spec(name@) is None,
    {
        if str_eq(name, "custom") {
            Ok(PreprocessorType::Custom { function_name: String::from_str(" ") })
        } else if str_eq(name, "type") {
            Ok(PreprocessorType::TypeSpecifier { type_path: String::from_str(" ") })
        } else if str_eq(name, "nested") {
            Ok(PreprocessorType::Nested)
        } else if str_eq(name, "email") {
            Ok(PreprocessorType::Email)
        } else if str_eq(name, "ip") {
            Ok(PreprocessorType::Ip)
        } else if str_eq(name, "ipv4") {
            Ok(PreprocessorType::Ipv4)
        } else if str_eq(name, "ipv6") {
            Ok(PreprocessorType::Ipv6)
        } else if str_eq(name, "length") {
            Ok(PreprocessorType::Length(LengthValidatorArgs::Min { min: 0 }))
        } else if str_eq(name, "url") {
            Ok(PreprocessorType::Url)
        } else if str_eq(name, "host") {
            Ok(PreprocessorType::Host)
        } else if str_eq(name, "domain") {
            Ok(PreprocessorType::Domain)
        } else if str_eq(name, "contains") {
            Ok(PreprocessorType::Contains { value: String::from_str("") })
        } else if str_eq(name, "doesnotcontain") {
            Ok(PreprocessorType::DoesNotContain { value: String::from_str("") })
        } else if str_eq(name, "required") {
            Ok(PreprocessorType::Required)
        } else if str_eq(name, "regex") {
            Ok(PreprocessorType::Regex { regex: String::from_str("") })
        } else if str_eq(name, "trimmed") {
            Ok(PreprocessorType::Trimmed)
        } else if str_eq(name, "lowercase") {
            Ok(PreprocessorType::Lowercase)
        } else if str_eq(name, "uppercase") {
            Ok(PreprocessorType::Uppercase)
        } else {
            Err(Error::new("unknown preprocessor"))
        }
    }

    /// The type a field of the given input type has after this kind.
    pub fn get_processed_type(&self, input: &str) -> (r: String)
        ensures
            r@ == processed_type_of(self@, input@),
    {
        match self {
            PreprocessorType::Custom { .. } => String::from_str(input),
            PreprocessorType::TypeSpecifier { type_path } => type_path.clone(),
            PreprocessorType::Nested => String::from_str(input).concat("Processed"),
            PreprocessorType::Email => String::from_str(input),
            PreprocessorType::Ip => String::from_str("std::net::IpAddr"),
            PreprocessorType::Ipv4 => String::from_str("std::net::Ipv4Addr"),
            PreprocessorType::Ipv6 => String::from_str("std::net::Ipv6Addr"),
            PreprocessorType::Length(_) => String::from_str(input),
            PreprocessorType::Url => String::from_str("preprocess::validators::url::Url"),
            PreprocessorType::Host => String::from_str("String"),
            PreprocessorType::Domain => String::from_str("String"),
            PreprocessorType::Contains { .. } => String::from_str(input),
            PreprocessorType::DoesNotContain { .. } => String::from_str(input),
            PreprocessorType::Required => String::from_str(input),
            PreprocessorType::Regex { .. } => String::from_str(input),
            PreprocessorType::Trimmed => String::from_str(input),
            PreprocessorType::Lowercase => String::from_str(input),
            PreprocessorType::Uppercase => String::from_str(input),
        }
    }
}

} // verus!
