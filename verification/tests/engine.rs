//! The directive parser, the model builder, the synthesizer and the
//! evaluator, exercised end to end on concrete declarations and values.

use preprocess::ast::{
    ArgValue, AttrDecl, DirectiveAttr, FieldDecl, FieldsDecl, MetaItem, RecordBody, RecordDecl,
    TypeExpr, VariantDecl,
};
use preprocess::builder::build_record;
use preprocess::directive::{parse_attr, parse_directive, Directive};
use preprocess::eval::{process_record, CustomRule, FieldValue, Value};
use preprocess::synth::generate;

fn word(name: &str) -> MetaItem {
    MetaItem::Word { name: name.to_string() }
}

fn assign(name: &str, value: ArgValue) -> MetaItem {
    MetaItem::Assign { name: name.to_string(), value }
}

fn call(name: &str, args: Vec<MetaItem>) -> MetaItem {
    MetaItem::Call { name: name.to_string(), args }
}

fn directive_attr(items: Vec<MetaItem>) -> AttrDecl {
    AttrDecl::Directive(DirectiveAttr::ArgList(items))
}

fn named_field(name: &str, ty: TypeExpr, attrs: Vec<AttrDecl>) -> FieldDecl {
    FieldDecl { name: Some(name.to_string()), vis: "pub".to_string(), attrs, ty }
}

fn struct_decl(name: &str, attrs: Vec<AttrDecl>, fields: Vec<FieldDecl>) -> RecordDecl {
    RecordDecl {
        name: name.to_string(),
        vis: "pub".to_string(),
        attrs,
        generics: String::new(),
        body: RecordBody::Struct(FieldsDecl::Named(fields)),
    }
}

fn text_value(s: &str) -> Value {
    Value::Text(s.to_string())
}

fn field_value(name: &str, value: Value) -> FieldValue {
    FieldValue { name: name.to_string(), value }
}

fn login_request_decl() -> RecordDecl {
    struct_decl(
        "LoginRequest",
        vec![],
        vec![
            named_field(
                "username",
                TypeExpr::Named("String".to_string()),
                vec![directive_attr(vec![
                    word("trim"),
                    word("lowercase"),
                    call("length", vec![assign("max", ArgValue::IntLit(64))]),
                    assign("regex", ArgValue::StrLit("^[a-z0-9_]+$".to_string())),
                ])],
            ),
            named_field(
                "password",
                TypeExpr::Named("String".to_string()),
                vec![directive_attr(vec![
                    word("trim"),
                    call("length", vec![assign("min", ArgValue::IntLit(8))]),
                ])],
            ),
        ],
    )
}

#[test]
fn end_to_end_struct_scenario() {
    let (model, text) = generate(login_request_decl(), false).unwrap();
    assert!(text.contains("pub struct LoginRequestProcessed"));
    assert!(text.contains("pub fn preprocess(self)"));
    assert!(text.contains("validate_regex"));

    let env = vec![model];
    let rules: Vec<CustomRule> = vec![];
    let input = Value::StructVal {
        name: "LoginRequest".to_string(),
        fields: vec![
            field_value("username", text_value("  HelloWorld  ")),
            field_value("password", text_value("  HelloWorld  ")),
        ],
    };
    let out = process_record(&env, &rules, 8, &env[0], input).unwrap();
    assert_eq!(
        out,
        Value::StructVal {
            name: "LoginRequestProcessed".to_string(),
            fields: vec![
                field_value("username", text_value("helloworld")),
                field_value("password", text_value("HelloWorld")),
            ],
        }
    );
}

#[test]
fn end_to_end_failing_field_is_tagged() {
    let (model, _) = generate(login_request_decl(), false).unwrap();
    let env = vec![model];
    let rules: Vec<CustomRule> = vec![];
    // The trimmed password is shorter than the minimum of eight.
    let input = Value::StructVal {
        name: "LoginRequest".to_string(),
        fields: vec![
            field_value("username", text_value("  HelloWorld  ")),
            field_value("password", text_value("  short  ")),
        ],
    };
    let err = process_record(&env, &rules, 8, &env[0], input).unwrap_err();
    assert_eq!(err.field, "password");
}

#[test]
fn optional_chain_leaves_absent_values_alone() {
    let decl = struct_decl(
        "MaybeName",
        vec![],
        vec![named_field(
            "name",
            TypeExpr::Opt(Box::new(TypeExpr::Named("String".to_string()))),
            vec![directive_attr(vec![call("optional", vec![word("trim")])])],
        )],
    );
    let (model, _) = generate(decl, false).unwrap();
    let env = vec![model];
    let rules: Vec<CustomRule> = vec![];

    let absent = Value::StructVal {
        name: "MaybeName".to_string(),
        fields: vec![field_value("name", Value::OptionVal(None))],
    };
    let out = process_record(&env, &rules, 8, &env[0], absent).unwrap();
    assert_eq!(
        out,
        Value::StructVal {
            name: "MaybeNameProcessed".to_string(),
            fields: vec![field_value("name", Value::OptionVal(None))],
        }
    );

    let present = Value::StructVal {
        name: "MaybeName".to_string(),
        fields: vec![field_value(
            "name",
            Value::OptionVal(Some(Box::new(text_value("  x  ")))),
        )],
    };
    let out = process_record(&env, &rules, 8, &env[0], present).unwrap();
    assert_eq!(
        out,
        Value::StructVal {
            name: "MaybeNameProcessed".to_string(),
            fields: vec![field_value(
                "name",
                Value::OptionVal(Some(Box::new(text_value("x")))),
            )],
        }
    );
}

#[test]
fn nested_failure_keeps_the_inner_field_name() {
    let inner = struct_decl(
        "Inner",
        vec![],
        vec![named_field(
            "name",
            TypeExpr::Named("String".to_string()),
            vec![directive_attr(vec![
                word("trim"),
                call("length", vec![assign("min", ArgValue::IntLit(5))]),
            ])],
        )],
    );
    let outer = RecordDecl {
        name: "Wrapper".to_string(),
        vis: "pub".to_string(),
        attrs: vec![],
        generics: String::new(),
        body: RecordBody::Enum(vec![VariantDecl {
            name: "V".to_string(),
            attrs: vec![],
            fields: FieldsDecl::Named(vec![named_field(
                "inner",
                TypeExpr::Named("Inner".to_string()),
                vec![AttrDecl::Directive(DirectiveAttr::Marker)],
            )]),
            has_discriminant: false,
        }]),
    };
    let (inner_model, _) = generate(inner, false).unwrap();
    let (outer_model, _) = generate(outer, false).unwrap();
    let env = vec![inner_model, outer_model];
    let rules: Vec<CustomRule> = vec![];

    let input = Value::EnumVal {
        name: "Wrapper".to_string(),
        variant: "V".to_string(),
        fields: vec![field_value(
            "inner",
            Value::StructVal {
                name: "Inner".to_string(),
                fields: vec![field_value("name", text_value("  ab  "))],
            },
        )],
    };
    let err = process_record(&env, &rules, 8, &env[1], input).unwrap_err();
    // The failure carries the inner struct's field name, not `inner`.
    assert_eq!(err.field, "name");

    let good = Value::EnumVal {
        name: "Wrapper".to_string(),
        variant: "V".to_string(),
        fields: vec![field_value(
            "inner",
            Value::StructVal {
                name: "Inner".to_string(),
                fields: vec![field_value("name", text_value("  hello  "))],
            },
        )],
    };
    let out = process_record(&env, &rules, 8, &env[1], good).unwrap();
    assert_eq!(
        out,
        Value::EnumVal {
            name: "WrapperProcessed".to_string(),
            variant: "V".to_string(),
            fields: vec![field_value(
                "inner",
                Value::StructVal {
                    name: "InnerProcessed".to_string(),
                    fields: vec![field_value("name", text_value("hello"))],
                },
            )],
        }
    );
}

#[test]
fn strict_mode_requires_a_directive_on_every_struct_field() {
    let bare = struct_decl(
        "Bare",
        vec![],
        vec![named_field("value_field", TypeExpr::Named("String".to_string()), vec![])],
    );
    assert!(generate(bare, true).is_err());

    let bare_again = struct_decl(
        "Bare",
        vec![],
        vec![named_field("value_field", TypeExpr::Named("String".to_string()), vec![])],
    );
    assert!(generate(bare_again, false).is_ok());

    // The explicit no-op silences strict mode.
    let silenced = struct_decl(
        "Bare",
        vec![],
        vec![named_field(
            "value_field",
            TypeExpr::Named("String".to_string()),
            vec![directive_attr(vec![word("none")])],
        )],
    );
    assert!(generate(silenced, true).is_ok());
}

#[test]
fn noop_chain_keeps_type_and_value() {
    let decl = struct_decl(
        "Plain",
        vec![],
        vec![named_field(
            "value_field",
            TypeExpr::Named("String".to_string()),
            vec![directive_attr(vec![word("none")])],
        )],
    );
    let (model, text) = generate(decl, true).unwrap();
    // The resolved type stays the declared one.
    assert!(text.contains("value_field: String,"));
    let env = vec![model];
    let rules: Vec<CustomRule> = vec![];
    let input = Value::StructVal {
        name: "Plain".to_string(),
        fields: vec![field_value("value_field", text_value("as it was"))],
    };
    let out = process_record(&env, &rules, 8, &env[0], input).unwrap();
    assert_eq!(
        out,
        Value::StructVal {
            name: "PlainProcessed".to_string(),
            fields: vec![field_value("value_field", text_value("as it was"))],
        }
    );
}

#[test]
fn duplicate_bound_arguments_are_rejected() {
    assert!(parse_directive(&call(
        "length",
        vec![
            assign("min", ArgValue::IntLit(1)),
            assign("min", ArgValue::IntLit(2)),
        ]
    ))
    .is_err());
    assert!(parse_directive(&call(
        "length",
        vec![
            assign("max", ArgValue::IntLit(9)),
            assign("equal", ArgValue::IntLit(4)),
            assign("max", ArgValue::IntLit(2)),
        ]
    ))
    .is_err());
    assert!(parse_directive(&call(
        "range",
        vec![
            assign("min", ArgValue::IntLit(1)),
            assign("min", ArgValue::IntLit(2)),
        ]
    ))
    .is_err());
}

#[test]
fn bound_directives_need_at_least_one_argument() {
    assert!(parse_directive(&call("length", vec![])).is_err());
    assert!(parse_directive(&call("range", vec![])).is_err());
    assert!(parse_directive(&call("length", vec![assign("min", ArgValue::IntLit(1))])).is_ok());
}

#[test]
fn invalid_regex_literals_fail_generation() {
    assert!(parse_directive(&assign("regex", ArgValue::StrLit("[".to_string()))).is_err());
    assert!(parse_directive(&assign("regex", ArgValue::StrLit("^a+$".to_string()))).is_ok());
    // A non-literal argument is rejected outright.
    assert!(parse_directive(&assign("regex", ArgValue::Opaque)).is_err());
}

#[test]
fn length_spellings_resolve_identically() {
    let a = parse_directive(&assign("length", ArgValue::IntLit(5))).unwrap();
    let b = parse_directive(&call("length", vec![assign("equal", ArgValue::IntLit(5))])).unwrap();
    match (a, b) {
        (
            Directive::Length { min: am, max: ax, equal: ae },
            Directive::Length { min: bm, max: bx, equal: be },
        ) => {
            assert_eq!(am, bm);
            assert_eq!(ax, bx);
            assert_eq!(ae, be);
            assert_eq!(ae, Some(5));
        },
        _ => panic!("expected length directives"),
    }
}

#[test]
fn bare_attribute_is_shorthand_for_nested() {
    let parsed = parse_attr(&DirectiveAttr::Marker, false).unwrap();
    assert_eq!(parsed.len(), 1);
    assert!(matches!(parsed[0], Directive::Nested));
    // At record level the bare attribute is rejected.
    assert!(parse_attr(&DirectiveAttr::Marker, true).is_err());
}

#[test]
fn record_level_directives_are_restricted() {
    let decl = struct_decl(
        "Outer",
        vec![directive_attr(vec![word("email")])],
        vec![named_field(
            "value_field",
            TypeExpr::Named("String".to_string()),
            vec![directive_attr(vec![word("none")])],
        )],
    );
    assert!(build_record(decl, false).is_err());

    let allowed = struct_decl(
        "Outer",
        vec![directive_attr(vec![assign(
            "custom",
            ArgValue::StrLit("check_outer".to_string()),
        )])],
        vec![named_field(
            "value_field",
            TypeExpr::Named("String".to_string()),
            vec![directive_attr(vec![word("none")])],
        )],
    );
    assert!(build_record(allowed, false).is_ok());
}

#[test]
fn global_chain_runs_before_field_chains() {
    let decl = struct_decl(
        "Gated",
        vec![directive_attr(vec![assign(
            "custom",
            ArgValue::StrLit("gate".to_string()),
        )])],
        vec![named_field(
            "name",
            TypeExpr::Named("String".to_string()),
            vec![directive_attr(vec![call(
                "length",
                vec![assign("min", ArgValue::IntLit(100))],
            )])],
        )],
    );
    let (model, _) = generate(decl, false).unwrap();
    let env = vec![model];
    let gate_closed = vec![CustomRule { name: "gate".to_string(), reject: true }];
    let input = || Value::StructVal {
        name: "Gated".to_string(),
        fields: vec![field_value("name", text_value("x"))],
    };
    // The record-level failure is reported, not the field's, and it carries
    // the record-scoped tag.
    let err = process_record(&env, &gate_closed, 8, &env[0], input()).unwrap_err();
    assert_eq!(err.field, "value");

    let gate_open = vec![CustomRule { name: "gate".to_string(), reject: false }];
    let err = process_record(&env, &gate_open, 8, &env[0], input()).unwrap_err();
    assert_eq!(err.field, "name");
}

#[test]
fn fail_fast_returns_the_first_error() {
    // A chain where the first directive fails and the second would succeed.
    let chain = vec![
        Directive::Length { min: Some(10), max: None, equal: None },
        Directive::Trim,
    ];
    let env: Vec<preprocess::builder::RecordModel> = vec![];
    let rules: Vec<CustomRule> = vec![];
    let err =
        preprocess::eval::eval_chain_exec(&env, &rules, 8, &chain, text_value("short")).unwrap_err();
    assert_eq!(err.message, "invalid length");
}

#[test]
fn enum_discriminants_are_rejected() {
    let decl = RecordDecl {
        name: "Tagged".to_string(),
        vis: "pub".to_string(),
        attrs: vec![],
        generics: String::new(),
        body: RecordBody::Enum(vec![VariantDecl {
            name: "A".to_string(),
            attrs: vec![],
            fields: FieldsDecl::Unit,
            has_discriminant: true,
        }]),
    };
    assert!(build_record(decl, false).is_err());
}

#[test]
fn type_coercion_directive_converts_values() {
    let decl = struct_decl(
        "Aged",
        vec![],
        vec![named_field(
            "age",
            TypeExpr::Named("String".to_string()),
            vec![directive_attr(vec![assign(
                "type",
                ArgValue::StrLit("u64".to_string()),
            )])],
        )],
    );
    let (model, text) = generate(decl, false).unwrap();
    assert!(text.contains("age: u64,"));
    let env = vec![model];
    let rules: Vec<CustomRule> = vec![];
    let input = Value::StructVal {
        name: "Aged".to_string(),
        fields: vec![field_value("age", text_value("42"))],
    };
    let out = process_record(&env, &rules, 8, &env[0], input).unwrap();
    assert_eq!(
        out,
        Value::StructVal {
            name: "AgedProcessed".to_string(),
            fields: vec![field_value("age", Value::Integer(42))],
        }
    );

    let bad = Value::StructVal {
        name: "Aged".to_string(),
        fields: vec![field_value("age", text_value("forty-two"))],
    };
    assert!(process_record(&env, &rules, 8, &env[0], bad).is_err());
}

#[test]
fn positional_fields_get_derived_bindings() {
    let decl = RecordDecl {
        name: "Pair".to_string(),
        vis: "pub".to_string(),
        attrs: vec![],
        generics: String::new(),
        body: RecordBody::Struct(FieldsDecl::Unnamed(vec![
            FieldDecl {
                name: None,
                vis: String::new(),
                attrs: vec![directive_attr(vec![word("trim")])],
                ty: TypeExpr::Named("String".to_string()),
            },
            FieldDecl {
                name: None,
                vis: String::new(),
                attrs: vec![directive_attr(vec![call(
                    "ip",
                    vec![word("v4")],
                )])],
                ty: TypeExpr::Named("String".to_string()),
            },
        ])),
    };
    let (model, text) = generate(decl, false).unwrap();
    // Positional fields are bound under index-derived names, and the ip
    // directive resolves the second field to the address type.
    assert!(text.contains("field_0"));
    assert!(text.contains("field_1"));
    assert!(text.contains("::std::net::Ipv4Addr"));

    let env = vec![model];
    let rules: Vec<CustomRule> = vec![];
    let input = Value::StructVal {
        name: "Pair".to_string(),
        fields: vec![
            field_value("field_0", text_value("  spaced  ")),
            field_value("field_1", text_value("192.168.0.1")),
        ],
    };
    let out = process_record(&env, &rules, 8, &env[0], input).unwrap();
    assert_eq!(
        out,
        Value::StructVal {
            name: "PairProcessed".to_string(),
            fields: vec![
                field_value("field_0", text_value("spaced")),
                field_value("field_1", text_value("192.168.0.1")),
            ],
        }
    );

    let bad = Value::StructVal {
        name: "Pair".to_string(),
        fields: vec![
            field_value("field_0", text_value("x")),
            field_value("field_1", text_value("192.168.0.256")),
        ],
    };
    let err = process_record(&env, &rules, 8, &env[0], bad).unwrap_err();
    assert_eq!(err.field, "field_1");
}

#[test]
fn enum_rendering_covers_every_variant() {
    let decl = RecordDecl {
        name: "Shape".to_string(),
        vis: "pub".to_string(),
        attrs: vec![AttrDecl::Other("#[non_exhaustive]".to_string())],
        generics: String::new(),
        body: RecordBody::Enum(vec![
            VariantDecl {
                name: "Empty".to_string(),
                attrs: vec![],
                fields: FieldsDecl::Unit,
                has_discriminant: false,
            },
            VariantDecl {
                name: "Named".to_string(),
                attrs: vec![],
                fields: FieldsDecl::Named(vec![named_field(
                    "tag",
                    TypeExpr::Named("String".to_string()),
                    vec![directive_attr(vec![word("uppercase")])],
                )]),
                has_discriminant: false,
            },
        ]),
    };
    let (model, text) = generate(decl, false).unwrap();
    assert!(text.contains("pub enum Shape"));
    assert!(text.contains("pub enum ShapeProcessed"));
    assert!(text.contains("#[non_exhaustive]"));
    assert!(text.contains("Shape::Empty"));
    assert!(text.contains("ShapeProcessed::Named"));

    let env = vec![model];
    let rules: Vec<CustomRule> = vec![];
    let unit_value = Value::EnumVal {
        name: "Shape".to_string(),
        variant: "Empty".to_string(),
        fields: vec![],
    };
    let out = process_record(&env, &rules, 8, &env[0], unit_value).unwrap();
    assert_eq!(
        out,
        Value::EnumVal {
            name: "ShapeProcessed".to_string(),
            variant: "Empty".to_string(),
            fields: vec![],
        }
    );

    let named_value = Value::EnumVal {
        name: "Shape".to_string(),
        variant: "Named".to_string(),
        fields: vec![field_value("tag", text_value("low"))],
    };
    let out = process_record(&env, &rules, 8, &env[0], named_value).unwrap();
    assert_eq!(
        out,
        Value::EnumVal {
            name: "ShapeProcessed".to_string(),
            variant: "Named".to_string(),
            fields: vec![field_value("tag", text_value("LOW"))],
        }
    );
}

#[test]
fn type_directive_accepts_a_bare_path() {
    let parsed = parse_directive(&assign("type", ArgValue::PathName("u64".to_string()))).unwrap();
    assert!(matches!(parsed, Directive::Type(t) if t == "u64"));
    // A non-literal argument is rejected.
    assert!(parse_directive(&assign("type", ArgValue::Opaque)).is_err());
}

#[test]
fn unknown_directives_are_rejected_with_their_name() {
    let err = parse_directive(&word("frobnicate")).unwrap_err();
    assert_eq!(err.message, "unexpected preprocessor `frobnicate`");
}
