//! The properties the generator and the evaluator are held to, each stated
//! over the same specifications the executable functions are verified
//! against.

use vstd::prelude::*;
use crate::ast::TypeExpr;
use crate::builder::{
    build_field_list_spec, build_field_spec, build_record_spec, field_chain_spec, BodyModelView,
    FieldDeclView, FieldModelView, FieldsDeclView, FieldsModelView, RecordBodyView,
    RecordDeclView, RecordModelView,
};
use crate::directive::{
    attr_directives, directive_of, directives_of, ArgValueView, DirectiveAttrView, DirectiveView,
    MetaItemView,
};
use crate::eval::{
    eval_chain, eval_directive, eval_record, tag_of, CustomRuleView, EvalOutcome, ValueView,
};
use crate::resolve::{resolve_chain, transition, TypeExprView};
use crate::validators::regex::regex_valid;

verus! {

broadcast use vstd::string::group_string_axioms;


/// The lengths, and where needed the first characters, of the directive
/// names, so that distinct names compare as distinct.
proof fn reveal_names()
    ensures
        "none"@.len() == 4,
        "email"@.len() == 5,
        "domain"@.len() == 6,
        "url"@.len() == 3,
        "nested"@.len() == 6,
        "trim"@.len() == 4,
        "lowercase"@.len() == 9,
        "uppercase"@.len() == 9,
        "length"@.len() == 6,
        "ip"@.len() == 2,
        "optional"@.len() == 8,
        "range"@.len() == 5,
        "min"@.len() == 3,
        "max"@.len() == 3,
        "equal"@.len() == 5,
        "contains"@.len() == 8,
        "does_not_contain"@.len() == 16,
        "custom"@.len() == 6,
        "regex"@.len() == 5,
        "type"@.len() == 4,
        "domain"@[0] == 'd',
        "nested"@[0] == 'n',
        "length"@[0] == 'l',
        "custom"@[0] == 'c',
        "min"@[1] == 'i',
        "max"@[1] == 'a',
        "none"@[0] == 'n',
        "none"@[1] == 'o',
        "nested"@[1] == 'e',
        "trim"@[0] == 't',
        "type"@[0] == 't',
        "type"@[1] == 'y',
        "trim"@[1] == 'r',
        "lowercase"@[0] == 'l',
        "uppercase"@[0] == 'u',
        "regex"@[0] == 'r',
        "range"@[0] == 'r',
        "regex"@[1] == 'e',
        "range"@[1] == 'a',
        "equal"@[0] == 'e',
        "email"@[0] == 'e',
        "equal"@[1] == 'q',
        "email"@[1] == 'm',
{
    reveal_strlit("none");
    reveal_strlit("email");
    reveal_strlit("domain");
    reveal_strlit("url");
    reveal_strlit("nested");
    reveal_strlit("trim");
    reveal_strlit("lowercase");
    reveal_strlit("uppercase");
    reveal_strlit("length");
    reveal_strlit("ip");
    reveal_strlit("optional");
    reveal_strlit("range");
    reveal_strlit("min");
    reveal_strlit("max");
    reveal_strlit("equal");
    reveal_strlit("contains");
    reveal_strlit("does_not_contain");
    reveal_strlit("custom");
    reveal_strlit("regex");
    reveal_strlit("type");
}

/// The resolved output type of a built field is the left fold of the
/// catalog's type transition over its parsed chain, starting from the
/// declared type.
pub proof fn law_resolved_type_is_fold(
    f: FieldDeclView,
    binding: Seq<char>,
    strict: bool,
    m: FieldModelView,
)
    requires
        build_field_spec(f, binding, strict) == Some(m),
    ensures
        resolve_chain(m.chain, f.ty) == Some(m.resolved),
        field_chain_spec(f) == Some(m.chain),
{
}

/// Spelling independence of the exact-length bound: `length = n` and
/// `length(equal = n)` parse to the same directive, so any chain spelled
/// either way resolves to the same output type.
pub proof fn law_length_spellings_agree(n: u64)
    ensures
        directive_of(MetaItemView::Assign { name: "length"@, value: ArgValueView::IntLit(n) })
            == directive_of(
            MetaItemView::Call {
                name: "length"@,
                args: seq![
                    MetaItemView::Assign { name: "equal"@, value: ArgValueView::IntLit(n) },
                ],
            },
        ),
{
    let args = seq![MetaItemView::Assign { name: "equal"@, value: ArgValueView::IntLit(n) }];
    assert(args.drop_first() =~= Seq::<MetaItemView>::empty());
    reveal_with_fuel(crate::directive::fold_length_args, 3);
    reveal_names();
}

/// A bare directive attribute on a field is shorthand for a single nested
/// directive: it parses exactly as an explicit `nested` entry does.
pub proof fn law_bare_attr_is_nested()
    ensures
        attr_directives(DirectiveAttrView::Marker, false) == attr_directives(
            DirectiveAttrView::ArgList(seq![MetaItemView::Word { name: "nested"@ }]),
            false,
        ),
        attr_directives(DirectiveAttrView::Marker, false) == Some(seq![DirectiveView::Nested]),
{
    let items = seq![MetaItemView::Word { name: "nested"@ }];
    assert(items.drop_first() =~= Seq::<MetaItemView>::empty());
    reveal_with_fuel(directives_of, 3);
    reveal_names();
    assert(directive_of(items[0]) == Some(DirectiveView::Nested));
    assert(directives_of(items) == Some(seq![DirectiveView::Nested] + Seq::<DirectiveView>::empty()));
    assert(seq![DirectiveView::Nested] + Seq::<DirectiveView>::empty() =~= seq![
        DirectiveView::Nested,
    ]);
}

/// The explicit no-op: a chain of just `none` resolves to the declared type
/// unchanged, and its evaluation returns the input value unchanged.
pub proof fn law_noop_round_trip(
    env: Seq<RecordModelView>,
    rules: Seq<CustomRuleView>,
    fuel: nat,
    t: TypeExprView,
    v: ValueView,
)
    ensures
        resolve_chain(seq![DirectiveView::NoOp], t) == Some(t),
        eval_chain(env, rules, fuel, seq![DirectiveView::NoOp], v) == EvalOutcome::Done(v),
{
    let c = seq![DirectiveView::NoOp];
    reveal_with_fuel(resolve_chain, 3);
    reveal_with_fuel(eval_chain, 3);
    assert(c.drop_first() =~= Seq::<DirectiveView>::empty());
}

/// Whether every field of a built field list carries at least one
/// directive.
pub open spec fn chains_nonempty(ms: Seq<FieldModelView>) -> bool {
    forall|i: int| 0 <= i < ms.len() ==> (#[trigger] ms[i]).chain.len() > 0
}

/// Whether every struct field of a built record carries at least one
/// directive; enum variants are exempt.
pub open spec fn record_chains_nonempty(m: RecordModelView) -> bool {
    match m.body {
        BodyModelView::Struct(fm) => match fm {
            FieldsModelView::Unit => true,
            FieldsModelView::Named(ms) => chains_nonempty(ms),
            FieldsModelView::Unnamed(ms) => chains_nonempty(ms),
        },
        BodyModelView::Enum(_) => true,
    }
}

proof fn lemma_strict_field_list(fs: Seq<FieldDeclView>, index: int, named: bool)
    ensures
        build_field_list_spec(fs, index, named, true) == (match build_field_list_spec(
            fs,
            index,
            named,
            false,
        ) {
            Some(ms) => if chains_nonempty(ms) {
                Some(ms)
            } else {
                None::<Seq<FieldModelView>>
            },
            None => None,
        }),
    decreases fs,
{
    if fs.len() == 0 {
        assert(chains_nonempty(Seq::<FieldModelView>::empty()));
    } else {
        lemma_strict_field_list(fs.drop_first(), index + 1, named);
        let b = if named {
            fs[0].name
        } else {
            crate::builder::binding_spec(None, index)
        };
        match b {
            None => {},
            Some(binding) => {
                match build_field_spec(fs[0], binding, false) {
                    None => {},
                    Some(fm) => {
                        match build_field_list_spec(fs.drop_first(), index + 1, named, false) {
                            None => {},
                            Some(rest) => {
                                let all = seq![fm] + rest;
                                assert(all[0] == fm);
                                assert(all.drop_first() =~= rest);
                                if fm.chain.len() == 0 {
                                    assert(!chains_nonempty(all));
                                    assert(build_field_spec(fs[0], binding, true) is None);
                                } else {
                                    assert(build_field_spec(fs[0], binding, true) == Some(fm));
                                    if chains_nonempty(all) {
                                        assert(chains_nonempty(rest)) by {
                                            assert(forall|i: int|
                                                0 <= i < rest.len() ==> rest[i] == all[i + 1]);
                                        }
                                    } else {
                                        if chains_nonempty(rest) {
                                            assert forall|i: int|
                                                0 <= i < all.len() implies (#[trigger] all[i]).chain.len()
                                                > 0 by {
                                                if i > 0 {
                                                    assert(all[i] == rest[i - 1]);
                                                }
                                            }
                                        }
                                    }
                                }
                            },
                        }
                    },
                }
            },
        }
    }
}

/// Strict mode rejects generation exactly when some struct field carries no
/// directive: for a declaration that builds without strict mode, building
/// with strict mode succeeds if and only if every struct field's chain is
/// nonempty, and then yields the same model.  Enum variant fields are
/// exempt.
pub proof fn law_strict_mode(d: RecordDeclView, m: RecordModelView)
    requires
        build_record_spec(d, false) == Some(m),
    ensures
        build_record_spec(d, true) == (if record_chains_nonempty(m) {
            Some(m)
        } else {
            None::<RecordModelView>
        }),
{
    match d.body {
        RecordBodyView::Struct(f) => {
            match f {
                FieldsDeclView::Unit => {},
                FieldsDeclView::Named(fs) => {
                    lemma_strict_field_list(fs, 0, true);
                },
                FieldsDeclView::Unnamed(fs) => {
                    lemma_strict_field_list(fs, 0, false);
                },
            }
        },
        RecordBodyView::Enum(_) => {},
    }
}

proof fn lemma_length_slot_taken(
    args: Seq<MetaItemView>,
    min: Option<u64>,
    max: Option<u64>,
    equal: Option<u64>,
    nm: Seq<char>,
)
    requires
        (nm == "min"@ && min is Some) || (nm == "max"@ && max is Some) || (nm == "equal"@
            && equal is Some),
        exists|k: int|
            0 <= k < args.len() && ((#[trigger] args[k]) matches MetaItemView::Assign {
                name,
                value,
            } && name == nm),
    ensures
        crate::directive::fold_length_args(args, min, max, equal) is None,
    decreases args.len(),
{
    reveal_with_fuel(crate::directive::fold_length_args, 2);
    reveal_names();
    let k = choose|k: int|
        0 <= k < args.len() && ((#[trigger] args[k]) matches MetaItemView::Assign { name, value }
            && name == nm);
    if args.len() > 0 {
        match args[0] {
            MetaItemView::Assign { name, value } => {
                if k > 0 {
                    match value {
                        ArgValueView::IntLit(n) => {
                            if name == "min"@ && min is None {
                                assert(args.drop_first()[k - 1] == args[k]);
                                lemma_length_slot_taken(
                                    args.drop_first(),
                                    Some(n),
                                    max,
                                    equal,
                                    nm,
                                );
                            } else if name == "max"@ && max is None {
                                assert(args.drop_first()[k - 1] == args[k]);
                                lemma_length_slot_taken(
                                    args.drop_first(),
                                    min,
                                    Some(n),
                                    equal,
                                    nm,
                                );
                            } else if name == "equal"@ && equal is None {
                                assert(args.drop_first()[k - 1] == args[k]);
                                lemma_length_slot_taken(
                                    args.drop_first(),
                                    min,
                                    max,
                                    Some(n),
                                    nm,
                                );
                            }
                        },
                        _ => {},
                    }
                }
            },
            _ => {},
        }
    }
}

/// Duplicate `min`, `max` or `equal` arguments within one `length(...)`
/// occurrence are rejected, wherever the two duplicates stand.
pub proof fn law_length_duplicates_rejected(args: Seq<MetaItemView>, i: int, j: int, nm: Seq<char>)
    requires
        0 <= i < j < args.len(),
        args[i] matches MetaItemView::Assign { name, value } && name == nm,
        args[j] matches MetaItemView::Assign { name, value } && name == nm,
        nm == "min"@ || nm == "max"@ || nm == "equal"@,
    ensures
        directive_of(MetaItemView::Call { name: "length"@, args }) is None,
    decreases args.len(),
{
    reveal_names();
    lemma_length_dup_fold(args, None, None, None, i, j, nm);
}

proof fn lemma_length_dup_fold(
    args: Seq<MetaItemView>,
    min: Option<u64>,
    max: Option<u64>,
    equal: Option<u64>,
    i: int,
    j: int,
    nm: Seq<char>,
)
    requires
        0 <= i < j < args.len(),
        args[i] matches MetaItemView::Assign { name, value } && name == nm,
        args[j] matches MetaItemView::Assign { name, value } && name == nm,
        nm == "min"@ || nm == "max"@ || nm == "equal"@,
    ensures
        crate::directive::fold_length_args(args, min, max, equal) is None,
    decreases args.len(),
{
    reveal_with_fuel(crate::directive::fold_length_args, 2);
    reveal_names();
    if i == 0 {
        match args[0] {
            MetaItemView::Assign { name, value } => {
                match value {
                    ArgValueView::IntLit(n) => {
                        if nm == "min"@ && min is None {
                            assert(args.drop_first()[j - 1] == args[j]);
                            lemma_length_slot_taken(args.drop_first(), Some(n), max, equal, nm);
                        } else if nm == "max"@ && max is None {
                            assert(args.drop_first()[j - 1] == args[j]);
                            lemma_length_slot_taken(args.drop_first(), min, Some(n), equal, nm);
                        } else if nm == "equal"@ && equal is None {
                            assert(args.drop_first()[j - 1] == args[j]);
                            lemma_length_slot_taken(args.drop_first(), min, max, Some(n), nm);
                        }
                    },
                    _ => {},
                }
            },
            _ => {},
        }
    } else {
        match args[0] {
            MetaItemView::Assign { name, value } => {
                match value {
                    ArgValueView::IntLit(n) => {
                        assert(args.drop_first()[i - 1] == args[i]);
                        assert(args.drop_first()[j - 1] == args[j]);
                        if name == "min"@ && min is None {
                            lemma_length_dup_fold(
                                args.drop_first(),
                                Some(n),
                                max,
                                equal,
                                i - 1,
                                j - 1,
                                nm,
                            );
                        } else if name == "max"@ && max is None {
                            lemma_length_dup_fold(
                                args.drop_first(),
                                min,
                                Some(n),
                                equal,
                                i - 1,
                                j - 1,
                                nm,
                            );
                        } else if name == "equal"@ && equal is None {
                            lemma_length_dup_fold(
                                args.drop_first(),
                                min,
                                max,
                                Some(n),
                                i - 1,
                                j - 1,
                                nm,
                            );
                        }
                    },
                    _ => {},
                }
            },
            _ => {},
        }
    }
}

proof fn lemma_range_slot_taken(
    args: Seq<MetaItemView>,
    min: Option<u64>,
    max: Option<u64>,
    nm: Seq<char>,
)
    requires
        (nm == "min"@ && min is Some) || (nm == "max"@ && max is Some),
        exists|k: int|
            0 <= k < args.len() && ((#[trigger] args[k]) matches MetaItemView::Assign {
                name,
                value,
            } && name == nm),
    ensures
        crate::directive::fold_range_args(args, min, max) is None,
    decreases args.len(),
{
    reveal_with_fuel(crate::directive::fold_range_args, 2);
    reveal_names();
    let k = choose|k: int|
        0 <= k < args.len() && ((#[trigger] args[k]) matches MetaItemView::Assign { name, value }
            && name == nm);
    if args.len() > 0 {
        match args[0] {
            MetaItemView::Assign { name, value } => {
                if k > 0 {
                    match value {
                        ArgValueView::IntLit(n) => {
                            if name == "min"@ && min is None {
                                assert(args.drop_first()[k - 1] == args[k]);
                                lemma_range_slot_taken(args.drop_first(), Some(n), max, nm);
                            } else if name == "max"@ && max is None {
                                assert(args.drop_first()[k - 1] == args[k]);
                                lemma_range_slot_taken(args.drop_first(), min, Some(n), nm);
                            }
                        },
                        _ => {},
                    }
                }
            },
            _ => {},
        }
    }
}

/// Duplicate `min` or `max` arguments within one `range(...)` occurrence
/// are rejected, wherever the two duplicates stand.
pub proof fn law_range_duplicates_rejected(args: Seq<MetaItemView>, i: int, j: int, nm: Seq<char>)
    requires
        0 <= i < j < args.len(),
        args[i] matches MetaItemView::Assign { name, value } && name == nm,
        args[j] matches MetaItemView::Assign { name, value } && name == nm,
        nm == "min"@ || nm == "max"@,
    ensures
        directive_of(MetaItemView::Call { name: "range"@, args }) is None,
{
    reveal_names();
    lemma_range_dup_fold(args, None, None, i, j, nm);
}

proof fn lemma_range_dup_fold(
    args: Seq<MetaItemView>,
    min: Option<u64>,
    max: Option<u64>,
    i: int,
    j: int,
    nm: Seq<char>,
)
    requires
        0 <= i < j < args.len(),
        args[i] matches MetaItemView::Assign { name, value } && name == nm,
        args[j] matches MetaItemView::Assign { name, value } && name == nm,
        nm == "min"@ || nm == "max"@,
    ensures
        crate::directive::fold_range_args(args, min, max) is None,
    decreases args.len(),
{
    reveal_with_fuel(crate::directive::fold_range_args, 2);
    reveal_names();
    if i == 0 {
        match args[0] {
            MetaItemView::Assign { name, value } => {
                match value {
                    ArgValueView::IntLit(n) => {
                        if nm == "min"@ && min is None {
                            assert(args.drop_first()[j - 1] == args[j]);
                            lemma_range_slot_taken(args.drop_first(), Some(n), max, nm);
                        } else if nm == "max"@ && max is None {
                            assert(args.drop_first()[j - 1] == args[j]);
                            lemma_range_slot_taken(args.drop_first(), min, Some(n), nm);
                        }
                    },
                    _ => {},
                }
            },
            _ => {},
        }
    } else {
        match args[0] {
            MetaItemView::Assign { name, value } => {
                match value {
                    ArgValueView::IntLit(n) => {
                        assert(args.drop_first()[i - 1] == args[i]);
                        assert(args.drop_first()[j - 1] == args[j]);
                        if name == "min"@ && min is None {
                            lemma_range_dup_fold(args.drop_first(), Some(n), max, i - 1, j - 1, nm);
                        } else if name == "max"@ && max is None {
                            lemma_range_dup_fold(args.drop_first(), min, Some(n), i - 1, j - 1, nm);
                        }
                    },
                    _ => {},
                }
            },
            _ => {},
        }
    }
}

/// A `range(...)` occurrence with no recognized argument is rejected.
pub proof fn law_range_needs_an_argument(args: Seq<MetaItemView>)
    requires
        crate::directive::fold_range_args(args, None, None) == Some((None::<u64>, None::<u64>)),
    ensures
        directive_of(MetaItemView::Call { name: "range"@, args }) is None,
{
    reveal_names();
}

/// A `length(...)` occurrence with no recognized argument is rejected.
pub proof fn law_length_needs_an_argument(args: Seq<MetaItemView>)
    requires
        crate::directive::fold_length_args(args, None, None, None) == Some(
            (None::<u64>, None::<u64>, None::<u64>),
        ),
    ensures
        directive_of(MetaItemView::Call { name: "length"@, args }) is None,
{
    reveal_names();
}

/// An invalid regex literal is rejected at generation time: a `regex`
/// entry parses exactly when the regex crate accepts its pattern.
pub proof fn law_invalid_regex_rejected(s: Seq<char>)
    ensures
        directive_of(
            MetaItemView::Assign { name: "regex"@, value: ArgValueView::StrLit(s) },
        ) is Some <==> regex_valid(s),
{
    reveal_names();
}

/// An optional chain applied to an absent value leaves it absent and
/// unchanged, whatever the inner chain holds.
pub proof fn law_optional_absent(
    env: Seq<RecordModelView>,
    rules: Seq<CustomRuleView>,
    fuel: nat,
    chain: Seq<DirectiveView>,
)
    ensures
        eval_directive(
            env,
            rules,
            fuel,
            DirectiveView::Optional(chain),
            ValueView::OptionVal(None),
        ) == EvalOutcome::Done(ValueView::OptionVal(None)),
{
}

/// Fail-fast ordering: when the first directive of a chain fails on a
/// value, the whole chain fails with that directive's failure, whatever
/// directives follow it.
pub proof fn law_fail_fast(
    env: Seq<RecordModelView>,
    rules: Seq<CustomRuleView>,
    fuel: nat,
    a: DirectiveView,
    rest: Seq<DirectiveView>,
    v: ValueView,
    t: Seq<char>,
)
    requires
        eval_directive(env, rules, fuel, a, v) == EvalOutcome::Fail(t),
    ensures
        eval_chain(env, rules, fuel, seq![a] + rest, v) == EvalOutcome::Fail(t),
{
    let c = seq![a] + rest;
    assert(c[0] == a);
}

/// Global-then-field ordering: the record-level chain's outcome is decided
/// before any field chain runs.  When it fails, the record's transformation
/// fails with that failure under the record-scoped tag, whatever the fields
/// hold; when it succeeds, the transformation proceeds on its output value.
pub proof fn law_global_runs_first(
    env: Seq<RecordModelView>,
    rules: Seq<CustomRuleView>,
    fuel: nat,
    m: RecordModelView,
    v: ValueView,
)
    ensures
        eval_chain(env, rules, fuel, m.global, v) matches EvalOutcome::Fail(t) ==> eval_record(
            env,
            rules,
            fuel,
            m,
            v,
        ) == EvalOutcome::Fail(tag_of(t, "value"@)),
{
}

} // verus!
