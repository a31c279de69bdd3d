//! The runtime semantics of the synthesized transformation routine, as a
//! direct evaluator over modelled values: the record-level chain runs first,
//! then each field's chain in declared order, failing fast; a failure is
//! tagged with the offending field's name, and a nested record's failures
//! keep the inner field's name.
//!
//! A user-supplied custom function is modelled as a named accept-or-reject
//! rule; the evaluator cannot run arbitrary host functions.  The `url` and
//! `ip` validators leave the validated text in place of the parsed value
//! the generated code would hold.

use vstd::prelude::*;
use vstd::string::*;
use crate::builder::{
    field_model_views, variant_model_views, BodyModelView, FieldModelView, FieldsModelView,
    RecordModel, RecordModelView, VariantModelView,
};
use crate::directive::DirectiveView;
use crate::text::{contains_seq, lower_of, str_eq, trim_spec, upper_of};
use crate::validators::domain::domain_ok;
use crate::validators::email::email_ok;
use crate::validators::ip::{dec_val, ipv4_ok, ipv6_ok, is_dec_digit};
use crate::validators::length::length_ok;
use crate::validators::regex::regex_check_ok;
use crate::validators::url::url_ok;

verus! {

/// A runtime value handed to the transformation: a string, an unsigned
/// number, an optional value, or a record value whose fields are named by
/// their binding names.
#[derive(Debug, PartialEq, Eq)]
pub enum Value {
    Text(String),
    Integer(u64),
    OptionVal(Option<Box<Value>>),
    StructVal { name: String, fields: Vec<FieldValue> },
    EnumVal { name: String, variant: String, fields: Vec<FieldValue> },
}

/// One field of a record value, under its binding name.
#[derive(Debug, PartialEq, Eq)]
pub struct FieldValue {
    pub name: String,
    pub value: Value,
}

/// The mathematical form of a runtime value.
pub enum ValueView {
    Text(Seq<char>),
    Integer(u64),
    OptionVal(Option<Box<ValueView>>),
    StructVal { name: Seq<char>, fields: Seq<FieldValueView> },
    EnumVal { name: Seq<char>, variant: Seq<char>, fields: Seq<FieldValueView> },
}

/// The mathematical form of one field of a record value.
pub struct FieldValueView {
    pub name: Seq<char>,
    pub value: ValueView,
}

/// The views of a list of field values, element by element.
pub open spec fn field_value_views(s: Seq<FieldValue>) -> Seq<FieldValueView>
    decreases s,
{
    if s.len() == 0 {
        Seq::empty()
    } else {
        seq![FieldValueView { name: s[0].name@, value: value_view(s[0].value) }]
            + field_value_views(s.drop_first())
    }
}

/// The view of a runtime value.
pub open spec fn value_view(v: Value) -> ValueView
    decreases v,
{
    match v {
        Value::Text(s) => ValueView::Text(s@),
        Value::Integer(n) => ValueView::Integer(n),
        Value::OptionVal(o) => match o {
            Some(b) => ValueView::OptionVal(Some(Box::new(value_view(*b)))),
            None => ValueView::OptionVal(None),
        },
        Value::StructVal { name, fields } => ValueView::StructVal {
            name: name@,
            fields: field_value_views(fields@),
        },
        Value::EnumVal { name, variant, fields } => ValueView::EnumVal {
            name: name@,
            variant: variant@,
            fields: field_value_views(fields@),
        },
    }
}

impl View for Value {
    type V = ValueView;

    open spec fn view(&self) -> ValueView {
        value_view(*self)
    }
}

impl View for FieldValue {
    type V = FieldValueView;

    open spec fn view(&self) -> FieldValueView {
        FieldValueView { name: self.name@, value: value_view(self.value) }
    }
}

/// A named accept-or-reject rule standing for a user-supplied custom
/// function.
pub struct CustomRule {
    /// The function name the directive refers to.
    pub name: String,
    /// Whether the rule rejects the value.
    pub reject: bool,
}

/// The mathematical form of a custom rule.
pub struct CustomRuleView {
    pub name: Seq<char>,
    pub reject: bool,
}

impl View for CustomRule {
    type V = CustomRuleView;

    open spec fn view(&self) -> CustomRuleView {
        CustomRuleView { name: self.name@, reject: self.reject }
    }
}

/// The views of a list of custom rules, element by element.
pub open spec fn custom_rule_views(s: Seq<CustomRule>) -> Seq<CustomRuleView>
    decreases s,
{
    if s.len() == 0 {
        Seq::empty()
    } else {
        seq![CustomRuleView { name: s[0].name@, reject: s[0].reject }] + custom_rule_views(
            s.drop_first(),
        )
    }
}

/// The views of a list of record models, element by element.
pub open spec fn record_model_views(s: Seq<RecordModel>) -> Seq<RecordModelView>
    decreases s,
{
    if s.len() == 0 {
        Seq::empty()
    } else {
        seq![crate::builder::record_model_view(s[0])] + record_model_views(s.drop_first())
    }
}

/// The outcome of evaluating a value: the transformed value, or a failure
/// carrying the tag of the field it belongs to (empty until a field step
/// tags it).
pub enum EvalOutcome {
    Done(ValueView),
    Fail(Seq<char>),
}

/// The outcome of evaluating a field list.
pub enum FieldsOutcome {
    Done(Seq<FieldValueView>),
    Fail(Seq<char>),
}

/// The tag a failure carries after a field step: the field's own name,
/// unless an inner record already tagged it.
pub open spec fn tag_of(t: Seq<char>, field: Seq<char>) -> Seq<char> {
    if t.len() == 0 {
        field
    } else {
        t
    }
}

/// The size of one directive, the measure the evaluator recurses on.
pub open spec fn size_of_directive(d: DirectiveView) -> nat
    decreases d,
{
    match d {
        DirectiveView::Optional(chain) => 1 + size_of_chain(chain),
        _ => 1,
    }
}

/// The size of a chain.
pub open spec fn size_of_chain(ds: Seq<DirectiveView>) -> nat
    decreases ds,
{
    if ds.len() == 0 {
        1
    } else {
        1 + size_of_directive(ds[0]) + size_of_chain(ds.drop_first())
    }
}

/// The size of a field list.
pub open spec fn size_of_field_list(fms: Seq<FieldModelView>) -> nat
    decreases fms,
{
    if fms.len() == 0 {
        1
    } else {
        1 + size_of_chain(fms[0].chain) + size_of_field_list(fms.drop_first())
    }
}

/// The size of a field-list shape.
pub open spec fn size_of_fields_model(fm: FieldsModelView) -> nat {
    match fm {
        FieldsModelView::Unit => 1,
        FieldsModelView::Named(fs) => 1 + size_of_field_list(fs),
        FieldsModelView::Unnamed(fs) => 1 + size_of_field_list(fs),
    }
}

/// The size of a variant list.
pub open spec fn size_of_variants(vs: Seq<VariantModelView>) -> nat
    decreases vs,
{
    if vs.len() == 0 {
        1
    } else {
        1 + size_of_fields_model(vs[0].fields) + size_of_variants(vs.drop_first())
    }
}

/// The size of a whole record model.
pub open spec fn size_of_record(m: RecordModelView) -> nat {
    1 + size_of_chain(m.global) + (match m.body {
        BodyModelView::Struct(fm) => 1 + size_of_fields_model(fm),
        BodyModelView::Enum(vars) => 1 + size_of_variants(vars),
    })
}

/// The reject flag of the first rule with the given name.
pub open spec fn find_rule(rules: Seq<CustomRuleView>, name: Seq<char>) -> Option<bool>
    decreases rules.len(),
{
    if rules.len() == 0 {
        None
    } else if rules[0].name == name {
        Some(rules[0].reject)
    } else {
        find_rule(rules.drop_first(), name)
    }
}

/// The first record model with the given name.
pub open spec fn find_model(env: Seq<RecordModelView>, name: Seq<char>) -> Option<RecordModelView>
    decreases env.len(),
{
    if env.len() == 0 {
        None
    } else if env[0].name == name {
        Some(env[0])
    } else {
        find_model(env.drop_first(), name)
    }
}

/// The first variant model with the given name.
pub open spec fn find_variant(vs: Seq<VariantModelView>, name: Seq<char>) -> Option<
    VariantModelView,
>
    decreases vs.len(),
{
    if vs.len() == 0 {
        None
    } else if vs[0].name == name {
        Some(vs[0])
    } else {
        find_variant(vs.drop_first(), name)
    }
}

/// Whether a text is a run of decimal digits denoting a value that fits an
/// unsigned 64-bit number.
pub open spec fn u64_text_ok(s: Seq<char>) -> bool {
    &&& s.len() > 0
    &&& (forall|k: int| 0 <= k < s.len() ==> is_dec_digit(#[trigger] s[k]))
    &&& dec_val(s) <= u64::MAX
}

/// One directive applied to one value.  A validator leaves the value
/// unchanged exactly when its predicate holds of it; a mutator transforms
/// it; a directive applied to a value of the wrong kind fails.
pub open spec fn eval_directive(
    env: Seq<RecordModelView>,
    rules: Seq<CustomRuleView>,
    fuel: nat,
    d: DirectiveView,
    v: ValueView,
) -> EvalOutcome
    decreases fuel, size_of_directive(d),
{
    match d {
        DirectiveView::NoOp => EvalOutcome::Done(v),
        DirectiveView::Trim => match v {
            ValueView::Text(s) => EvalOutcome::Done(ValueView::Text(trim_spec(s))),
            _ => EvalOutcome::Fail(Seq::empty()),
        },
        DirectiveView::Lowercase => match v {
            ValueView::Text(s) => EvalOutcome::Done(ValueView::Text(lower_of(s))),
            _ => EvalOutcome::Fail(Seq::empty()),
        },
        DirectiveView::Uppercase => match v {
            ValueView::Text(s) => EvalOutcome::Done(ValueView::Text(upper_of(s))),
            _ => EvalOutcome::Fail(Seq::empty()),
        },
        DirectiveView::Email => match v {
            ValueView::Text(s) => if email_ok(s) {
                EvalOutcome::Done(ValueView::Text(s))
            } else {
                EvalOutcome::Fail(Seq::empty())
            },
            _ => EvalOutcome::Fail(Seq::empty()),
        },
        DirectiveView::Domain => match v {
            ValueView::Text(s) => if domain_ok(s) {
                EvalOutcome::Done(ValueView::Text(s))
            } else {
                EvalOutcome::Fail(Seq::empty())
            },
            _ => EvalOutcome::Fail(Seq::empty()),
        },
        DirectiveView::Url => match v {
            ValueView::Text(s) => if url_ok(s) {
                EvalOutcome::Done(ValueView::Text(s))
            } else {
                EvalOutcome::Fail(Seq::empty())
            },
            _ => EvalOutcome::Fail(Seq::empty()),
        },
        DirectiveView::Ip(kind) => match v {
            ValueView::Text(s) => if (match kind {
                crate::directive::IpPreprocessorType::V4 => ipv4_ok(s),
                crate::directive::IpPreprocessorType::V6 => ipv6_ok(s),
                crate::directive::IpPreprocessorType::Any => ipv4_ok(s) || ipv6_ok(s),
            }) {
                EvalOutcome::Done(ValueView::Text(s))
            } else {
                EvalOutcome::Fail(Seq::empty())
            },
            _ => EvalOutcome::Fail(Seq::empty()),
        },
        DirectiveView::Length { min, max, equal } => match v {
            ValueView::Text(s) => if length_ok(s.len(), min_usize(min), min_usize(max), min_usize(
                equal,
            )) {
                EvalOutcome::Done(ValueView::Text(s))
            } else {
                EvalOutcome::Fail(Seq::empty())
            },
            _ => EvalOutcome::Fail(Seq::empty()),
        },
        DirectiveView::Range { min, max } => match v {
            ValueView::Integer(n) => if (min matches Some(m) ==> n >= m) && (max matches Some(m)
                ==> n <= m) {
                EvalOutcome::Done(ValueView::Integer(n))
            } else {
                EvalOutcome::Fail(Seq::empty())
            },
            _ => EvalOutcome::Fail(Seq::empty()),
        },
        DirectiveView::Contains(c) => match v {
            ValueView::Text(s) => if contains_seq(s, c) {
                EvalOutcome::Done(ValueView::Text(s))
            } else {
                EvalOutcome::Fail(Seq::empty())
            },
            _ => EvalOutcome::Fail(Seq::empty()),
        },
        DirectiveView::DoesNotContain(c) => match v {
            ValueView::Text(s) => if !contains_seq(s, c) {
                EvalOutcome::Done(ValueView::Text(s))
            } else {
                EvalOutcome::Fail(Seq::empty())
            },
            _ => EvalOutcome::Fail(Seq::empty()),
        },
        DirectiveView::Regex(p) => match v {
            ValueView::Text(s) => if regex_check_ok(p, s) {
                EvalOutcome::Done(ValueView::Text(s))
            } else {
                EvalOutcome::Fail(Seq::empty())
            },
            _ => EvalOutcome::Fail(Seq::empty()),
        },
        DirectiveView::Custom(name) => match find_rule(rules, name) {
            Some(false) => EvalOutcome::Done(v),
            _ => EvalOutcome::Fail(Seq::empty()),
        },
        DirectiveView::Type(t) => if t == "u64"@ {
            match v {
                ValueView::Text(s) => if u64_text_ok(s) {
                    EvalOutcome::Done(ValueView::Integer(dec_val(s) as u64))
                } else {
                    EvalOutcome::Fail(Seq::empty())
                },
                _ => EvalOutcome::Fail(Seq::empty()),
            }
        } else if t == "String"@ {
            match v {
                ValueView::Integer(n) => EvalOutcome::Done(
                    ValueView::Text(crate::text::dec_str(n as nat)),
                ),
                _ => EvalOutcome::Fail(Seq::empty()),
            }
        } else {
            EvalOutcome::Fail(Seq::empty())
        },
        DirectiveView::Optional(chain) => match v {
            ValueView::OptionVal(o) => match o {
                None => EvalOutcome::Done(ValueView::OptionVal(None)),
                Some(inner) => match eval_chain(env, rules, fuel, chain, *inner) {
                    EvalOutcome::Done(out) => EvalOutcome::Done(
                        ValueView::OptionVal(Some(Box::new(out))),
                    ),
                    EvalOutcome::Fail(t) => EvalOutcome::Fail(t),
                },
            },
            _ => EvalOutcome::Fail(Seq::empty()),
        },
        DirectiveView::Nested => match v {
            ValueView::StructVal { name, fields } => if fuel == 0 {
                EvalOutcome::Fail(Seq::empty())
            } else {
                match find_model(env, name) {
                    Some(m) => eval_record(
                        env,
                        rules,
                        (fuel - 1) as nat,
                        m,
                        ValueView::StructVal { name, fields },
                    ),
                    None => EvalOutcome::Fail(Seq::empty()),
                }
            },
            ValueView::EnumVal { name, variant, fields } => if fuel == 0 {
                EvalOutcome::Fail(Seq::empty())
            } else {
                match find_model(env, name) {
                    Some(m) => eval_record(
                        env,
                        rules,
                        (fuel - 1) as nat,
                        m,
                        ValueView::EnumVal { name, variant, fields },
                    ),
                    None => EvalOutcome::Fail(Seq::empty()),
                }
            },
            _ => EvalOutcome::Fail(Seq::empty()),
        },
    }
}

/// The optional bound as a machine size, when it fits.
pub open spec fn min_usize(b: Option<u64>) -> Option<usize> {
    match b {
        Some(n) => Some(n as usize),
        None => None,
    }
}

/// A whole chain applied to one value, in order, failing fast: the first
/// failing directive's failure is the chain's outcome and no later
/// directive is considered.
pub open spec fn eval_chain(
    env: Seq<RecordModelView>,
    rules: Seq<CustomRuleView>,
    fuel: nat,
    ds: Seq<DirectiveView>,
    v: ValueView,
) -> EvalOutcome
    decreases fuel, size_of_chain(ds),
{
    if ds.len() == 0 {
        EvalOutcome::Done(v)
    } else {
        match eval_directive(env, rules, fuel, ds[0], v) {
            EvalOutcome::Fail(t) => EvalOutcome::Fail(t),
            EvalOutcome::Done(v2) => eval_chain(env, rules, fuel, ds.drop_first(), v2),
        }
    }
}

/// A list of field chains applied to a list of field values, pairwise and
/// in declared order; a failure is tagged with the failing field's binding
/// name unless an inner record already tagged it.
pub open spec fn eval_field_list(
    env: Seq<RecordModelView>,
    rules: Seq<CustomRuleView>,
    fuel: nat,
    fms: Seq<FieldModelView>,
    vals: Seq<FieldValueView>,
) -> FieldsOutcome
    decreases fuel, size_of_field_list(fms),
{
    if fms.len() == 0 {
        if vals.len() == 0 {
            FieldsOutcome::Done(Seq::empty())
        } else {
            FieldsOutcome::Fail(Seq::empty())
        }
    } else if vals.len() == 0 {
        FieldsOutcome::Fail(Seq::empty())
    } else if fms[0].binding != vals[0].name {
        FieldsOutcome::Fail(Seq::empty())
    } else {
        match eval_chain(env, rules, fuel, fms[0].chain, vals[0].value) {
            EvalOutcome::Fail(t) => FieldsOutcome::Fail(tag_of(t, fms[0].binding)),
            EvalOutcome::Done(nv) => match eval_field_list(
                env,
                rules,
                fuel,
                fms.drop_first(),
                vals.drop_first(),
            ) {
                FieldsOutcome::Fail(t) => FieldsOutcome::Fail(t),
                FieldsOutcome::Done(rest) => FieldsOutcome::Done(
                    seq![FieldValueView { name: fms[0].binding, value: nv }] + rest,
                ),
            },
        }
    }
}

/// A field-list shape applied to a list of field values.
pub open spec fn eval_fields_model(
    env: Seq<RecordModelView>,
    rules: Seq<CustomRuleView>,
    fuel: nat,
    fm: FieldsModelView,
    vals: Seq<FieldValueView>,
) -> FieldsOutcome
    decreases fuel, size_of_fields_model(fm),
{
    match fm {
        FieldsModelView::Unit => if vals.len() == 0 {
            FieldsOutcome::Done(Seq::empty())
        } else {
            FieldsOutcome::Fail(Seq::empty())
        },
        FieldsModelView::Named(fs) => eval_field_list(env, rules, fuel, fs, vals),
        FieldsModelView::Unnamed(fs) => eval_field_list(env, rules, fuel, fs, vals),
    }
}

/// A whole record transformed: the record-level chain first, applied to the
/// whole value and tagged with the record-scoped name, then every field's
/// chain in order; the result is the sibling value, its record name carrying
/// the generated suffix.
pub open spec fn eval_record(
    env: Seq<RecordModelView>,
    rules: Seq<CustomRuleView>,
    fuel: nat,
    m: RecordModelView,
    v: ValueView,
) -> EvalOutcome
    decreases fuel, size_of_record(m),
        via eval_record_decreases
{
    match eval_chain(env, rules, fuel, m.global, v) {
        EvalOutcome::Fail(t) => EvalOutcome::Fail(tag_of(t, "value"@)),
        EvalOutcome::Done(v1) => match m.body {
            BodyModelView::Struct(fm) => match v1 {
                ValueView::StructVal { name, fields } => if name != m.name {
                    EvalOutcome::Fail(Seq::empty())
                } else {
                    match eval_fields_model(env, rules, fuel, fm, fields) {
                        FieldsOutcome::Fail(t) => EvalOutcome::Fail(t),
                        FieldsOutcome::Done(nf) => EvalOutcome::Done(
                            ValueView::StructVal { name: m.name + "Processed"@, fields: nf },
                        ),
                    }
                },
                _ => EvalOutcome::Fail(Seq::empty()),
            },
            BodyModelView::Enum(vars) => match v1 {
                ValueView::EnumVal { name, variant, fields } => if name != m.name {
                    EvalOutcome::Fail(Seq::empty())
                } else {
                    match find_variant(vars, variant) {
                        None => EvalOutcome::Fail(Seq::empty()),
                        Some(vm) => match eval_fields_model(env, rules, fuel, vm.fields, fields) {
                            FieldsOutcome::Fail(t) => EvalOutcome::Fail(t),
                            FieldsOutcome::Done(nf) => EvalOutcome::Done(
                                ValueView::EnumVal {
                                    name: m.name + "Processed"@,
                                    variant,
                                    fields: nf,
                                },
                            ),
                        },
                    }
                },
                _ => EvalOutcome::Fail(Seq::empty()),
            },
        },
    }
}

// ---------------------------------------------------------------------------
// The executable evaluator
// ---------------------------------------------------------------------------
/// Parses a run of decimal digits as an unsigned 64-bit number, as the
/// fallible conversion of a `type = "u64"` directive does.
#[verifier::loop_isolation(false)]
fn parse_u64_text(s: &str) -> (r: Option<u64>)
    ensures
        r matches Some(n) ==> u64_text_ok(s@) && n == dec_val(s@),
        r is None ==> !u64_text_ok(s@),
{
    let len = s.unicode_len();
    if len == 0 {
        return None;
    }
    let mut value: u64 = 0;
    let mut i: usize = 0;
    while i < len
        invariant
            0 <= i <= len,
            len == s@.len(),
            forall|k: int| 0 <= k < i ==> is_dec_digit(#[trigger] s@[k]),
            value == dec_val(s@.subrange(0, i as int)),
        decreases len - i,
    {
        let c = s.get_char(i);
        if !('0' <= c && c <= '9') {
            return None;
        }
        let digit = (c as u32 as u64) - ('0' as u32 as u64);
        proof {
            assert(s@.subrange(0, i + 1).drop_last() =~= s@.subrange(0, i as int));
            assert(s@.subrange(0, i + 1)[i as int] == s@[i as int]);
        }
        if value > u64::MAX / 10 || (value == u64::MAX / 10 && digit > u64::MAX % 10) {
            proof {
                assert(dec_val(s@.subrange(0, i + 1)) > u64::MAX);
                if u64_text_ok(s@) {
                    lemma_dec_val_exceeds(s@, i + 1, u64::MAX as int);
                }
            }
            return None;
        }
        value = value * 10 + digit;
        i += 1;
    }
    proof {
        assert(s@.subrange(0, len as int) =~= s@);
    }
    Some(value)
}

/// Finds the reject flag of the first rule with the given name.
#[verifier::loop_isolation(false)]
fn find_rule_exec(rules: &Vec<CustomRule>, name: &str) -> (r: Option<bool>)
    ensures
        r == find_rule(custom_rule_views(rules@), name@),
{
    let ghost rv = custom_rule_views(rules@);
    proof {
        lemma_custom_rule_views_len(rules@);
        assert(rv.skip(0) =~= rv);
    }
    let mut i: usize = 0;
    while i < rules.len()
        invariant
            0 <= i <= rules@.len(),
            find_rule(rv, name@) == find_rule(rv.skip(i as int), name@),
        decreases rules@.len() - i,
    {
        proof {
            lemma_custom_rule_views_index(rules@, i as int);
            assert(rv.skip(i as int)[0] == rv[i as int]);
            assert(rv.skip(i as int).drop_first() =~= rv.skip(i + 1));
        }
        if str_eq(rules[i].name.as_str(), name) {
            return Some(rules[i].reject);
        }
        i += 1;
    }
    proof {
        assert(rv.skip(rules@.len() as int) =~= Seq::<CustomRuleView>::empty());
    }
    None
}

/// Finds the position of the first record model with the given name.
#[verifier::loop_isolation(false)]
fn find_model_index(env: &Vec<RecordModel>, name: &str) -> (r: Option<usize>)
    ensures
        r matches Some(i) ==> i < env@.len() && find_model(record_model_views(env@), name@)
            == Some(crate::builder::record_model_view(env@[i as int])),
        r is None ==> find_model(record_model_views(env@), name@) is None,
{
    let ghost ev = record_model_views(env@);
    proof {
        lemma_record_model_views_len(env@);
        assert(ev.skip(0) =~= ev);
    }
    let mut i: usize = 0;
    while i < env.len()
        invariant
            0 <= i <= env@.len(),
            find_model(ev, name@) == find_model(ev.skip(i as int), name@),
        decreases env@.len() - i,
    {
        proof {
            lemma_record_model_views_index(env@, i as int);
            assert(ev.skip(i as int)[0] == ev[i as int]);
            assert(ev.skip(i as int).drop_first() =~= ev.skip(i + 1));
        }
        if str_eq(env[i].name.as_str(), name) {
            return Some(i);
        }
        i += 1;
    }
    proof {
        assert(ev.skip(env@.len() as int) =~= Seq::<RecordModelView>::empty());
    }
    None
}

/// Finds the position of the first variant model with the given name.
#[verifier::loop_isolation(false)]
fn find_variant_index(vars: &Vec<crate::builder::VariantModel>, name: &str) -> (r: Option<usize>)
    ensures
        r matches Some(i) ==> i < vars@.len() && find_variant(variant_model_views(vars@), name@)
            == Some(crate::builder::variant_model_view(vars@[i as int])),
        r is None ==> find_variant(variant_model_views(vars@), name@) is None,
{
    let ghost vv = variant_model_views(vars@);
    proof {
        crate::builder::lemma_variant_model_views_len(vars@);
        assert(vv.skip(0) =~= vv);
    }
    let mut i: usize = 0;
    while i < vars.len()
        invariant
            0 <= i <= vars@.len(),
            find_variant(vv, name@) == find_variant(vv.skip(i as int), name@),
        decreases vars@.len() - i,
    {
        proof {
            crate::builder::lemma_variant_model_views_index(vars@, i as int);
            assert(vv.skip(i as int)[0] == vv[i as int]);
            assert(vv.skip(i as int).drop_first() =~= vv.skip(i + 1));
        }
        if str_eq(vars[i].name.as_str(), name) {
            return Some(i);
        }
        i += 1;
    }
    proof {
        assert(vv.skip(vars@.len() as int) =~= Seq::<VariantModelView>::empty());
    }
    None
}

/// Applies one directive to one value, as [`eval_directive`] says.
#[verifier::loop_isolation(false)]
pub fn eval_directive_exec(
    env: &Vec<RecordModel>,
    rules: &Vec<CustomRule>,
    fuel: u64,
    d: &crate::directive::Directive,
    v: Value,
) -> (r: Result<Value, crate::utils::Error>)
    ensures
        eval_directive(
            record_model_views(env@),
            custom_rule_views(rules@),
            fuel as nat,
            d@,
            v@,
        ) matches EvalOutcome::Done(out) ==> r matches Ok(x) && x@ == out,
        eval_directive(
            record_model_views(env@),
            custom_rule_views(rules@),
            fuel as nat,
            d@,
            v@,
        ) matches EvalOutcome::Fail(t) ==> r matches Err(e) && e.field@ == t,
    decreases fuel, size_of_directive(d@),
{
    match d {
        crate::directive::Directive::NoOp => Ok(v),
        crate::directive::Directive::Trim => match v {
            Value::Text(s) => Ok(Value::Text(crate::text::trim_str(s.as_str()))),
            _ => Err(crate::utils::Error::new("expected a string value")),
        },
        crate::directive::Directive::Lowercase => match v {
            Value::Text(s) => Ok(Value::Text(crate::text::lowercase_str(s.as_str()))),
            _ => Err(crate::utils::Error::new("expected a string value")),
        },
        crate::directive::Directive::Uppercase => match v {
            Value::Text(s) => Ok(Value::Text(crate::text::uppercase_str(s.as_str()))),
            _ => Err(crate::utils::Error::new("expected a string value")),
        },
        crate::directive::Directive::Email => match v {
            Value::Text(s) => match crate::validators::email::validate_email(s) {
                Ok(s2) => Ok(Value::Text(s2)),
                Err(_) => Err(crate::utils::Error::new("invalid email")),
            },
            _ => Err(crate::utils::Error::new("expected a string value")),
        },
        crate::directive::Directive::Domain => match v {
            Value::Text(s) => match crate::validators::domain::validate_domain(s) {
                Ok(s2) => Ok(Value::Text(s2)),
                Err(_) => Err(crate::utils::Error::new("invalid domain")),
            },
            _ => Err(crate::utils::Error::new("expected a string value")),
        },
        crate::directive::Directive::Url => match v {
            Value::Text(s) => {
                if crate::validators::url::parse_url(s.as_str()).is_some() {
                    Ok(Value::Text(s))
                } else {
                    Err(crate::utils::Error::new("invalid url"))
                }
            },
            _ => Err(crate::utils::Error::new("expected a string value")),
        },
        crate::directive::Directive::Ip(kind) => match v {
            Value::Text(s) => {
                let ok = match kind {
                    crate::directive::IpPreprocessorType::V4 => crate::validators::ip::validate_ipv4(
                        s.as_str(),
                    ).is_ok(),
                    crate::directive::IpPreprocessorType::V6 => crate::validators::ip::validate_ipv6(
                        s.as_str(),
                    ).is_ok(),
                    crate::directive::IpPreprocessorType::Any => crate::validators::ip::validate_ip(
                        s.as_str(),
                    ).is_ok(),
                };
                if ok {
                    Ok(Value::Text(s))
                } else {
                    Err(crate::utils::Error::new("invalid ip address"))
                }
            },
            _ => Err(crate::utils::Error::new("expected a string value")),
        },
        crate::directive::Directive::Length { min, max, equal } => match v {
            Value::Text(s) => {
                let len = s.as_str().unicode_len();
                let mut ok = true;
                if let Some(m) = equal {
                    if len != (*m as usize) {
                        ok = false;
                    }
                }
                if let Some(m) = min {
                    if len < (*m as usize) {
                        ok = false;
                    }
                }
                if let Some(m) = max {
                    if len > (*m as usize) {
                        ok = false;
                    }
                }
                if ok {
                    Ok(Value::Text(s))
                } else {
                    Err(crate::utils::Error::new("invalid length"))
                }
            },
            _ => Err(crate::utils::Error::new("expected a string value")),
        },
        crate::directive::Directive::Range { min, max } => match v {
            Value::Integer(n) => {
                let mut ok = true;
                if let Some(m) = min {
                    if n < *m {
                        ok = false;
                    }
                }
                if let Some(m) = max {
                    if n > *m {
                        ok = false;
                    }
                }
                if ok {
                    Ok(Value::Integer(n))
                } else {
                    Err(crate::utils::Error::new("value out of range"))
                }
            },
            _ => Err(crate::utils::Error::new("expected a numeric value")),
        },
        crate::directive::Directive::Contains(c) => match v {
            Value::Text(s) => {
                if crate::text::str_contains(s.as_str(), c.as_str()) {
                    Ok(Value::Text(s))
                } else {
                    Err(crate::utils::Error::new("value does not contain the needle"))
                }
            },
            _ => Err(crate::utils::Error::new("expected a string value")),
        },
        crate::directive::Directive::DoesNotContain(c) => match v {
            Value::Text(s) => {
                if !crate::text::str_contains(s.as_str(), c.as_str()) {
                    Ok(Value::Text(s))
                } else {
                    Err(crate::utils::Error::new("value contains the needle"))
                }
            },
            _ => Err(crate::utils::Error::new("expected a string value")),
        },
        crate::directive::Directive::Regex(p) => match v {
            Value::Text(s) => match crate::validators::regex::validate_regex(s, p.as_str()) {
                Ok(s2) => Ok(Value::Text(s2)),
                Err(_) => Err(crate::utils::Error::new("regex validation failed")),
            },
            _ => Err(crate::utils::Error::new("expected a string value")),
        },
        crate::directive::Directive::Custom(name) => match find_rule_exec(rules, name.as_str()) {
            Some(false) => Ok(v),
            _ => Err(crate::utils::Error::new("custom rule rejected the value")),
        },
        crate::directive::Directive::Type(t) => {
            if crate::text::str_eq(t.as_str(), "u64") {
                match v {
                    Value::Text(s) => match parse_u64_text(s.as_str()) {
                        Some(n) => Ok(Value::Integer(n)),
                        None => Err(crate::utils::Error::new("value is not an unsigned number")),
                    },
                    _ => Err(crate::utils::Error::new("no conversion for this value")),
                }
            } else if crate::text::str_eq(t.as_str(), "String") {
                match v {
                    Value::Integer(n) => Ok(Value::Text(crate::text::u64_to_string(n))),
                    _ => Err(crate::utils::Error::new("no conversion for this value")),
                }
            } else {
                Err(crate::utils::Error::new("no conversion to this type"))
            }
        },
        crate::directive::Directive::Optional(inner) => match v {
            Value::OptionVal(o) => match o {
                None => Ok(Value::OptionVal(None)),
                Some(b) => {
                    match eval_chain_exec(env, rules, fuel, inner, *b) {
                        Ok(nv) => Ok(Value::OptionVal(Some(Box::new(nv)))),
                        Err(e) => Err(e),
                    }
                },
            },
            _ => Err(crate::utils::Error::new("expected an optional value")),
        },
        crate::directive::Directive::Nested => {
            let record_name: String = match &v {
                Value::StructVal { name, .. } => name.clone(),
                Value::EnumVal { name, .. } => name.clone(),
                _ => {
                    return Err(crate::utils::Error::new("a nested directive needs a record value"));
                },
            };
            if fuel == 0 {
                return Err(crate::utils::Error::new("nested records are too deeply nested"));
            }
            let ix = match find_model_index(env, record_name.as_str()) {
                Some(ix) => ix,
                None => {
                    return Err(
                        crate::utils::Error::new("no generated model for the nested record"),
                    );
                },
            };
            process_record(env, rules, fuel - 1, &env[ix], v)
        },
    }
}

/// Applies a whole chain to a value in order, failing fast, as
/// [`eval_chain`] says.
#[verifier::loop_isolation(false)]
pub fn eval_chain_exec(
    env: &Vec<RecordModel>,
    rules: &Vec<CustomRule>,
    fuel: u64,
    ds: &Vec<crate::directive::Directive>,
    v: Value,
) -> (r: Result<Value, crate::utils::Error>)
    ensures
        eval_chain(
            record_model_views(env@),
            custom_rule_views(rules@),
            fuel as nat,
            crate::directive::directive_views(ds@),
            v@,
        ) matches EvalOutcome::Done(out) ==> r matches Ok(x) && x@ == out,
        eval_chain(
            record_model_views(env@),
            custom_rule_views(rules@),
            fuel as nat,
            crate::directive::directive_views(ds@),
            v@,
        ) matches EvalOutcome::Fail(t) ==> r matches Err(e) && e.field@ == t,
    decreases fuel, size_of_chain(crate::directive::directive_views(ds@)),
{
    let ghost envv = record_model_views(env@);
    let ghost rulesv = custom_rule_views(rules@);
    let ghost dviews = crate::directive::directive_views(ds@);
    let ghost v0 = v@;
    proof {
        crate::directive::lemma_directive_views_len(ds@);
        assert(dviews.skip(0) =~= dviews);
    }
    let mut current = v;
    let mut i: usize = 0;
    while i < ds.len()
        invariant
            0 <= i <= ds@.len(),
            eval_chain(envv, rulesv, fuel as nat, dviews, v0) == eval_chain(
                envv,
                rulesv,
                fuel as nat,
                dviews.skip(i as int),
                current@,
            ),
        decreases ds@.len() - i,
    {
        proof {
            crate::directive::lemma_directive_views_index(ds@, i as int);
            assert(dviews.skip(i as int)[0] == dviews[i as int]);
            assert(dviews.skip(i as int).drop_first() =~= dviews.skip(i + 1));
            lemma_size_of_chain_element(dviews, i as int);
        }
        current = match eval_directive_exec(env, rules, fuel, &ds[i], current) {
            Ok(nv) => nv,
            Err(e) => {
                return Err(e);
            },
        };
        i += 1;
    }
    proof {
        assert(dviews.skip(ds@.len() as int) =~= Seq::<DirectiveView>::empty());
    }
    Ok(current)
}

/// Applies each field's chain to its value in declared order, as
/// [`eval_field_list`] says; failures are tagged with the field's binding
/// name unless an inner record already tagged them.
#[verifier::loop_isolation(false)]
fn eval_field_list_exec(
    env: &Vec<RecordModel>,
    rules: &Vec<CustomRule>,
    fuel: u64,
    fms: &Vec<crate::builder::FieldModel>,
    vals: Vec<FieldValue>,
) -> (r: Result<Vec<FieldValue>, crate::utils::Error>)
    ensures
        eval_field_list(
            record_model_views(env@),
            custom_rule_views(rules@),
            fuel as nat,
            field_model_views(fms@),
            field_value_views(vals@),
        ) matches FieldsOutcome::Done(out) ==> r matches Ok(x) && field_value_views(x@) == out,
        eval_field_list(
            record_model_views(env@),
            custom_rule_views(rules@),
            fuel as nat,
            field_model_views(fms@),
            field_value_views(vals@),
        ) matches FieldsOutcome::Fail(t) ==> r matches Err(e) && e.field@ == t,
    decreases fuel, size_of_field_list(field_model_views(fms@)),
{
    let ghost envv = record_model_views(env@);
    let ghost rulesv = custom_rule_views(rules@);
    let ghost fmv = field_model_views(fms@);
    let ghost vals0 = field_value_views(vals@);
    proof {
        crate::builder::lemma_field_model_views_len(fms@);
        assert(fmv.skip(0) =~= fmv);
        match eval_field_list(envv, rulesv, fuel as nat, fmv, vals0) {
            FieldsOutcome::Done(out) => {
                assert(field_value_views(Seq::<FieldValue>::empty()) + out =~= out);
            },
            FieldsOutcome::Fail(_) => {},
        }
    }
    let mut out: Vec<FieldValue> = Vec::new();
    let mut rest = vals;
    let mut i: usize = 0;
    while i < fms.len()
        invariant
            0 <= i <= fms@.len(),
            eval_field_list(envv, rulesv, fuel as nat, fmv, vals0) == prepend_field_values(
                field_value_views(out@),
                eval_field_list(
                    envv,
                    rulesv,
                    fuel as nat,
                    fmv.skip(i as int),
                    field_value_views(rest@),
                ),
            ),
        decreases fms@.len() - i,
    {
        proof {
            crate::builder::lemma_field_model_views_index(fms@, i as int);
            assert(fmv.skip(i as int)[0] == fmv[i as int]);
            assert(fmv.skip(i as int).drop_first() =~= fmv.skip(i + 1));
        }
        if rest.len() == 0 {
            proof {
                lemma_field_value_views_len(rest@);
            }
            return Err(crate::utils::Error::new("missing field value"));
        }
        let ghost rest_before = rest@;
        let fv = rest.remove(0);
        proof {
            lemma_field_value_views_len(rest_before);
            lemma_field_value_views_index(rest_before, 0);
            assert(rest@ =~= rest_before.drop_first());
            assert(field_value_views(rest_before).drop_first() =~= field_value_views(
                rest_before.drop_first(),
            ));
            assert(field_value_views(rest@) == field_value_views(rest_before).drop_first());
            assert(field_value_views(rest_before)[0] == fv@);
        }
        if !crate::text::str_eq(fms[i].binding.as_str(), fv.name.as_str()) {
            return Err(crate::utils::Error::new("field value does not match the model"));
        }
        proof {
            lemma_size_of_field_list_element(fmv, i as int);
        }
        let nv = match eval_chain_exec(env, rules, fuel, &fms[i].chain, fv.value) {
            Ok(nv) => nv,
            Err(e) => {
                let e2 = if e.field.as_str().is_empty() {
                    e.set_field(fms[i].binding.as_str())
                } else {
                    e
                };
                return Err(e2);
            },
        };
        let ghost out_before = out@;
        out.push(FieldValue { name: fms[i].binding.clone(), value: nv });
        proof {
            lemma_field_value_views_push(
                out_before,
                FieldValue { name: fms@[i as int].binding, value: nv },
            );
            match eval_field_list(
                envv,
                rulesv,
                fuel as nat,
                fmv.skip(i + 1),
                field_value_views(rest@),
            ) {
                FieldsOutcome::Done(r2) => {
                    assert(field_value_views(out_before) + (seq![
                        FieldValueView { name: fmv[i as int].binding, value: nv@ },
                    ] + r2) =~= field_value_views(out@) + r2);
                },
                FieldsOutcome::Fail(_) => {},
            }
        }
        i += 1;
    }
    proof {
        assert(fmv.skip(fms@.len() as int) =~= Seq::<FieldModelView>::empty());
        lemma_field_value_views_len(rest@);
    }
    if rest.len() > 0 {
        return Err(crate::utils::Error::new("more field values than the model has fields"));
    }
    proof {
        match eval_field_list(envv, rulesv, fuel as nat, fmv, vals0) {
            FieldsOutcome::Done(out2) => {
                assert(field_value_views(out@) + Seq::<FieldValueView>::empty() =~= field_value_views(
                    out@,
                ));
            },
            FieldsOutcome::Fail(_) => {},
        }
    }
    Ok(out)
}

/// Applies a field-list shape to a list of field values, as
/// [`eval_fields_model`] says.
#[verifier::loop_isolation(false)]
fn eval_fields_exec(
    env: &Vec<RecordModel>,
    rules: &Vec<CustomRule>,
    fuel: u64,
    fm: &crate::builder::FieldsModel,
    vals: Vec<FieldValue>,
) -> (r: Result<Vec<FieldValue>, crate::utils::Error>)
    ensures
        eval_fields_model(
            record_model_views(env@),
            custom_rule_views(rules@),
            fuel as nat,
            crate::builder::fields_model_view(*fm),
            field_value_views(vals@),
        ) matches FieldsOutcome::Done(out) ==> r matches Ok(x) && field_value_views(x@) == out,
        eval_fields_model(
            record_model_views(env@),
            custom_rule_views(rules@),
            fuel as nat,
            crate::builder::fields_model_view(*fm),
            field_value_views(vals@),
        ) matches FieldsOutcome::Fail(t) ==> r matches Err(e) && e.field@ == t,
    decreases fuel, size_of_fields_model(crate::builder::fields_model_view(*fm)),
{
    match fm {
        crate::builder::FieldsModel::Unit => {
            proof {
                lemma_field_value_views_len(vals@);
            }
            if vals.len() == 0 {
                Ok(Vec::new())
            } else {
                Err(crate::utils::Error::new("a unit record takes no field values"))
            }
        },
        crate::builder::FieldsModel::Named(fs) => eval_field_list_exec(env, rules, fuel, fs, vals),
        crate::builder::FieldsModel::Unnamed(fs) => eval_field_list_exec(
            env,
            rules,
            fuel,
            fs,
            vals,
        ),
    }
}

/// Runs the transformation a record model describes on one value: the
/// record-level chain first, tagged with the record-scoped name on failure,
/// then every field's chain in declared order, failing fast.  The result is
/// the sibling value, its record name carrying the generated suffix.  The
/// environment carries the models nested directives refer to, and `fuel`
/// bounds their nesting depth.
#[verifier::loop_isolation(false)]
pub fn process_record(
    env: &Vec<RecordModel>,
    rules: &Vec<CustomRule>,
    fuel: u64,
    m: &RecordModel,
    v: Value,
) -> (r: Result<Value, crate::utils::Error>)
    ensures
        eval_record(
            record_model_views(env@),
            custom_rule_views(rules@),
            fuel as nat,
            m@,
            v@,
        ) matches EvalOutcome::Done(out) ==> r matches Ok(x) && x@ == out,
        eval_record(
            record_model_views(env@),
            custom_rule_views(rules@),
            fuel as nat,
            m@,
            v@,
        ) matches EvalOutcome::Fail(t) ==> r matches Err(e) && e.field@ == t,
    decreases fuel, size_of_record(m@),
{
    let v1 = match eval_chain_exec(env, rules, fuel, &m.global, v) {
        Ok(x) => x,
        Err(e) => {
            let e2 = if e.field.as_str().is_empty() {
                e.set_field("value")
            } else {
                e
            };
            return Err(e2);
        },
    };
    match &m.body {
        crate::builder::BodyModel::Struct(sm) => match v1 {
            Value::StructVal { name, fields } => {
                if !crate::text::str_eq(name.as_str(), m.name.as_str()) {
                    return Err(crate::utils::Error::new("value does not match the record model"));
                }
                let nf = match eval_fields_exec(env, rules, fuel, sm, fields) {
                    Ok(nf) => nf,
                    Err(e) => {
                        return Err(e);
                    },
                };
                Ok(Value::StructVal { name: m.name.clone().concat("Processed"), fields: nf })
            },
            _ => Err(crate::utils::Error::new("value does not match the record model")),
        },
        crate::builder::BodyModel::Enum(vars) => match v1 {
            Value::EnumVal { name, variant, fields } => {
                if !crate::text::str_eq(name.as_str(), m.name.as_str()) {
                    return Err(crate::utils::Error::new("value does not match the record model"));
                }
                let vi = match find_variant_index(vars, variant.as_str()) {
                    Some(vi) => vi,
                    None => {
                        return Err(crate::utils::Error::new("no such variant in the model"));
                    },
                };
                proof {
                    lemma_find_variant_size(variant_model_views(vars@), variant@);
                }
                let nf = match eval_fields_exec(env, rules, fuel, &vars[vi].fields, fields) {
                    Ok(nf) => nf,
                    Err(e) => {
                        return Err(e);
                    },
                };
                Ok(
                    Value::EnumVal {
                        name: m.name.clone().concat("Processed"),
                        variant,
                        fields: nf,
                    },
                )
            },
            _ => Err(crate::utils::Error::new("value does not match the record model")),
        },
    }
}

/// A found variant's fields are counted inside the variant list's size.
proof fn lemma_find_variant_size(vs: Seq<VariantModelView>, name: Seq<char>)
    ensures
        find_variant(vs, name) is Some ==> size_of_fields_model(
            find_variant(vs, name)->Some_0.fields,
        ) < size_of_variants(vs),
    decreases vs.len(),
{
    if vs.len() > 0 && vs[0].name != name {
        lemma_find_variant_size(vs.drop_first(), name);
    }
}

// ---------------------------------------------------------------------------
// Lemmas for the executable evaluator
// ---------------------------------------------------------------------------
proof fn lemma_field_value_views_len(s: Seq<FieldValue>)
    ensures
        field_value_views(s).len() == s.len(),
    decreases s.len(),
{
    if s.len() > 0 {
        lemma_field_value_views_len(s.drop_first());
    }
}

proof fn lemma_field_value_views_index(s: Seq<FieldValue>, i: int)
    requires
        0 <= i < s.len(),
    ensures
        field_value_views(s).len() == s.len(),
        field_value_views(s)[i] == s[i]@,
    decreases s.len(),
{
    lemma_field_value_views_len(s);
    if i > 0 {
        lemma_field_value_views_index(s.drop_first(), i - 1);
    }
}

proof fn lemma_field_value_views_push(s: Seq<FieldValue>, x: FieldValue)
    ensures
        field_value_views(s.push(x)) == field_value_views(s) + seq![x@],
    decreases s.len(),
{
    if s.len() == 0 {
        reveal_with_fuel(field_value_views, 3);
        assert(s.push(x).drop_first() =~= Seq::<FieldValue>::empty());
        assert(s.push(x)[0] == x);
        assert(field_value_views(s.push(x)) =~= field_value_views(s) + seq![x@]);
    } else {
        assert(s.push(x)[0] == s[0]);
        assert(s.push(x).drop_first() =~= s.drop_first().push(x));
        lemma_field_value_views_push(s.drop_first(), x);
        assert(field_value_views(s.push(x)) =~= field_value_views(s) + seq![x@]);
    }
}

proof fn lemma_custom_rule_views_index(s: Seq<CustomRule>, i: int)
    requires
        0 <= i < s.len(),
    ensures
        custom_rule_views(s).len() == s.len(),
        custom_rule_views(s)[i] == s[i]@,
    decreases s.len(),
{
    lemma_custom_rule_views_len(s);
    if i > 0 {
        lemma_custom_rule_views_index(s.drop_first(), i - 1);
    }
}

proof fn lemma_custom_rule_views_len(s: Seq<CustomRule>)
    ensures
        custom_rule_views(s).len() == s.len(),
    decreases s.len(),
{
    if s.len() > 0 {
        lemma_custom_rule_views_len(s.drop_first());
    }
}

proof fn lemma_record_model_views_index(s: Seq<RecordModel>, i: int)
    requires
        0 <= i < s.len(),
    ensures
        record_model_views(s).len() == s.len(),
        record_model_views(s)[i] == crate::builder::record_model_view(s[i]),
    decreases s.len(),
{
    lemma_record_model_views_len(s);
    if i > 0 {
        lemma_record_model_views_index(s.drop_first(), i - 1);
    }
}

proof fn lemma_record_model_views_len(s: Seq<RecordModel>)
    ensures
        record_model_views(s).len() == s.len(),
    decreases s.len(),
{
    if s.len() > 0 {
        lemma_record_model_views_len(s.drop_first());
    }
}

proof fn lemma_size_of_chain_element(ds: Seq<DirectiveView>, i: int)
    requires
        0 <= i < ds.len(),
    ensures
        size_of_directive(ds[i]) < size_of_chain(ds),
    decreases ds.len(),
{
    if i > 0 {
        lemma_size_of_chain_element(ds.drop_first(), i - 1);
    }
}

proof fn lemma_size_of_field_list_element(fms: Seq<FieldModelView>, i: int)
    requires
        0 <= i < fms.len(),
    ensures
        size_of_chain(fms[i].chain) < size_of_field_list(fms),
    decreases fms.len(),
{
    if i > 0 {
        lemma_size_of_field_list_element(fms.drop_first(), i - 1);
    }
}

/// Once a digit prefix exceeds a bound, the whole digit run does.
proof fn lemma_dec_val_exceeds(t: Seq<char>, i: int, bound: int)
    requires
        0 <= i <= t.len(),
        0 <= bound,
        forall|k: int| 0 <= k < t.len() ==> is_dec_digit(#[trigger] t[k]),
        dec_val(t.subrange(0, i)) > bound,
    ensures
        dec_val(t) > bound,
    decreases t.len() - i,
{
    if i == t.len() {
        assert(t.subrange(0, i) =~= t);
    } else {
        assert(t.subrange(0, i + 1).drop_last() =~= t.subrange(0, i));
        assert(t.subrange(0, i + 1)[i] == t[i]);
        assert(is_dec_digit(t[i]));
        assert(dec_val(t.subrange(0, i + 1)) > bound);
        lemma_dec_val_exceeds(t, i + 1, bound);
    }
}

/// Prepends already transformed fields to the outcome of the rest.
pub open spec fn prepend_field_values(
    prefix: Seq<FieldValueView>,
    rest: FieldsOutcome,
) -> FieldsOutcome {
    match rest {
        FieldsOutcome::Done(r) => FieldsOutcome::Done(prefix + r),
        FieldsOutcome::Fail(t) => FieldsOutcome::Fail(t),
    }
}

#[via_fn]
proof fn eval_record_decreases(
    env: Seq<RecordModelView>,
    rules: Seq<CustomRuleView>,
    fuel: nat,
    m: RecordModelView,
    v: ValueView,
) {
    match m.body {
        BodyModelView::Struct(_) => {},
        BodyModelView::Enum(vars) => {
            assert forall|name: Seq<char>| find_variant(vars, name) is Some implies size_of_fields_model(
                find_variant(vars, name)->Some_0.fields,
            ) < size_of_variants(vars) by {
                lemma_find_variant_size(vars, name);
            }
        },
    }
}

} // verus!
