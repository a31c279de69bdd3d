//! The code synthesizer: renders the generated pair as text — the original
//! record re-emitted with directive attributes stripped, the sibling record
//! with each field's resolved output type, and the transformation routine
//! that binds the two, applying the record-level chain first and then each
//! field's chain in order, failing fast with the failing field's name.

use vstd::prelude::*;
use vstd::string::*;
use crate::builder::{
    field_model_views, string_views, variant_model_views, BodyModel, BodyModelView, FieldModel,
    FieldModelView, FieldsModel, FieldsModelView, RecordModel, RecordModelView, VariantModel,
    VariantModelView,
};
use crate::directive::{directive_views, Directive, DirectiveView, IpPreprocessorType};
use crate::eval::{size_of_chain, size_of_directive};
use crate::resolve::{resolve_chain, transition, type_expr_view, TypeExprView};
use crate::text::{dec_str, u64_to_string};
use crate::ast::TypeExpr;

verus! {

// ---------------------------------------------------------------------------
// Rendering specifications
// ---------------------------------------------------------------------------
/// The text of a type expression.
pub open spec fn render_type(t: TypeExprView) -> Seq<char>
    decreases t,
{
    match t {
        TypeExprView::Named(s) => s,
        TypeExprView::CowStr => "::std::borrow::Cow<'static, str>"@,
        TypeExprView::UrlType => "::preprocess::types::Url"@,
        TypeExprView::Ipv4Type => "::std::net::Ipv4Addr"@,
        TypeExprView::Ipv6Type => "::std::net::Ipv6Addr"@,
        TypeExprView::IpAnyType => "::std::net::IpAddr"@,
        TypeExprView::Opt(inner) => "::core::option::Option<"@ + render_type(*inner) + ">"@,
        TypeExprView::Processed(n) => n + "Processed"@,
    }
}

/// The text of an optional numeric bound handed to a validator call.
pub open spec fn render_bound(b: Option<u64>) -> Seq<char> {
    match b {
        Some(n) => "::core::option::Option::Some("@ + dec_str(n as nat) + ")"@,
        None => "::core::option::Option::None"@,
    }
}

/// The tail of a generated call: tags the error with the field's name and
/// propagates it.
pub open spec fn render_tag(binding: Seq<char>) -> Seq<char> {
    ").map_err(|err| err.set_field(\""@ + binding + "\"))?"@
}

/// The text of the call one directive compiles to, applied to a binding.
pub open spec fn render_call(d: DirectiveView, binding: Seq<char>) -> Seq<char>
    decreases size_of_directive(d),
{
    match d {
        DirectiveView::NoOp => binding,
        DirectiveView::Email => "::preprocess::validators::email::validate_email("@ + binding
            + render_tag(binding),
        DirectiveView::Domain => "::preprocess::validators::domain::validate_domain("@ + binding
            + render_tag(binding),
        DirectiveView::Url => "::preprocess::validators::url::validate_url("@ + binding
            + render_tag(binding),
        DirectiveView::Ip(IpPreprocessorType::V4) => "::preprocess::validators::ip::validate_ipv4("@
            + binding + render_tag(binding),
        DirectiveView::Ip(IpPreprocessorType::V6) => "::preprocess::validators::ip::validate_ipv6("@
            + binding + render_tag(binding),
        DirectiveView::Ip(IpPreprocessorType::Any) => "::preprocess::validators::ip::validate_ip("@
            + binding + render_tag(binding),
        DirectiveView::Length { min, max, equal } => "::preprocess::validators::length::validate_length("@
            + binding + ", "@ + render_bound(min) + ", "@ + render_bound(max) + ", "@
            + render_bound(equal) + render_tag(binding),
        DirectiveView::Range { min, max } => "::preprocess::validators::range::validate_range("@
            + binding + ", "@ + render_bound(min) + ", "@ + render_bound(max) + render_tag(
            binding,
        ),
        DirectiveView::Contains(s) => "::preprocess::validators::contains::validate_contains("@
            + binding + ", \""@ + s + "\""@ + render_tag(binding),
        DirectiveView::DoesNotContain(s) => "::preprocess::validators::does_not_contain::validate_does_not_contain("@
            + binding + ", \""@ + s + "\""@ + render_tag(binding),
        DirectiveView::Custom(f) => f + "("@ + binding + render_tag(binding),
        DirectiveView::Regex(p) => "::preprocess::validators::regex::validate_regex("@ + binding
            + ", \""@ + p + "\""@ + render_tag(binding),
        DirectiveView::Trim => "::preprocess::preprocessors::preprocess_trim("@ + binding
            + render_tag(binding),
        DirectiveView::Lowercase => "::preprocess::preprocessors::preprocess_lowercase("@ + binding
            + render_tag(binding),
        DirectiveView::Uppercase => "::preprocess::preprocessors::preprocess_uppercase("@ + binding
            + render_tag(binding),
        DirectiveView::Nested => binding + ".preprocess("@ + render_tag(binding),
        DirectiveView::Type(t) => "::core::convert::TryInto::<"@ + t + ">::try_into("@ + binding
            + render_tag(binding),
        DirectiveView::Optional(chain) => "(match "@ + binding
            + " { ::core::option::Option::Some(value) => {"@ + render_chain_at(
            chain,
            "value"@,
            inferred_type(),
        ) + " ::core::option::Option::Some(value) }, ::core::option::Option::None => ::core::option::Option::None })"@,
    }
}

/// The inferred-type marker an optional chain's inner steps start from:
/// the rendered inner rebindings leave their types to inference where a
/// mutator does not fix them.
pub open spec fn inferred_type() -> TypeExprView {
    TypeExprView::Named("_"@)
}

/// One rendered transformation step: a rebinding of the field under its
/// running output type; the explicit no-op renders nothing.
pub open spec fn render_step(d: DirectiveView, binding: Seq<char>, after: TypeExprView) -> Seq<
    char,
>
    decreases size_of_directive(d) + 1,
{
    if d is NoOp {
        Seq::empty()
    } else {
        " let "@ + binding + ": "@ + render_type(after) + " = "@ + render_call(d, binding) + ";"@
    }
}

/// A whole chain rendered as successive steps, threading the running type
/// through the catalog's transition; a step whose transition does not apply
/// renders nothing, which a built model rules out.
pub open spec fn render_chain_at(
    ds: Seq<DirectiveView>,
    binding: Seq<char>,
    t: TypeExprView,
) -> Seq<char>
    decreases size_of_chain(ds),
        via render_chain_at_decreases
{
    if ds.len() == 0 {
        Seq::empty()
    } else {
        match transition(ds[0], t) {
            Some(t2) => render_step(ds[0], binding, t2) + render_chain_at(
                ds.drop_first(),
                binding,
                t2,
            ),
            None => Seq::empty(),
        }
    }
}

proof fn lemma_size_of_chain_pos(s: Seq<DirectiveView>)
    ensures
        size_of_chain(s) >= 1,
{
}

#[via_fn]
proof fn render_chain_at_decreases(ds: Seq<DirectiveView>, binding: Seq<char>, t: TypeExprView) {
    if ds.len() > 0 {
        lemma_size_of_chain_pos(ds.drop_first());
    }
}

/// The visibility text followed by a space, or nothing for a private item.
pub open spec fn vis_sp(v: Seq<char>) -> Seq<char> {
    if v.len() == 0 {
        Seq::empty()
    } else {
        v + " "@
    }
}

/// Attributes rendered inline, each followed by a space.
pub open spec fn render_attrs_inline(attrs: Seq<Seq<char>>) -> Seq<char>
    decreases attrs.len(),
{
    if attrs.len() == 0 {
        Seq::empty()
    } else {
        attrs[0] + " "@ + render_attrs_inline(attrs.drop_first())
    }
}

/// Attributes rendered one per line.
pub open spec fn render_attr_lines(attrs: Seq<Seq<char>>) -> Seq<char>
    decreases attrs.len(),
{
    if attrs.len() == 0 {
        Seq::empty()
    } else {
        attrs[0] + "\n"@ + render_attr_lines(attrs.drop_first())
    }
}

/// The declared or resolved type of a field, by which sibling is rendered.
pub open spec fn field_type_of(f: FieldModelView, processed: bool) -> TypeExprView {
    if processed {
        f.resolved
    } else {
        f.declared
    }
}

/// Named fields rendered one per line.
pub open spec fn render_named_fields(fs: Seq<FieldModelView>, processed: bool) -> Seq<char>
    decreases fs.len(),
{
    if fs.len() == 0 {
        Seq::empty()
    } else {
        "    "@ + render_attrs_inline(fs[0].other_attrs) + vis_sp(fs[0].vis) + fs[0].binding
            + ": "@ + render_type(field_type_of(fs[0], processed)) + ",\n"@ + render_named_fields(
            fs.drop_first(),
            processed,
        )
    }
}

/// Positional fields rendered inline.
pub open spec fn render_unnamed_fields(fs: Seq<FieldModelView>, processed: bool) -> Seq<char>
    decreases fs.len(),
{
    if fs.len() == 0 {
        Seq::empty()
    } else {
        render_attrs_inline(fs[0].other_attrs) + vis_sp(fs[0].vis) + render_type(
            field_type_of(fs[0], processed),
        ) + ", "@ + render_unnamed_fields(fs.drop_first(), processed)
    }
}

/// A record's field list as declaration text.
pub open spec fn render_fields_decl(fm: FieldsModelView, processed: bool) -> Seq<char> {
    match fm {
        FieldsModelView::Unit => ";\n"@,
        FieldsModelView::Named(fs) => " {\n"@ + render_named_fields(fs, processed) + "}\n"@,
        FieldsModelView::Unnamed(fs) => "("@ + render_unnamed_fields(fs, processed) + ");\n"@,
    }
}

/// A variant's field list as declaration text.
pub open spec fn render_variant_fields(fm: FieldsModelView, processed: bool) -> Seq<char> {
    match fm {
        FieldsModelView::Unit => ",\n"@,
        FieldsModelView::Named(fs) => " {\n"@ + render_named_fields(fs, processed) + "    },\n"@,
        FieldsModelView::Unnamed(fs) => "("@ + render_unnamed_fields(fs, processed) + "),\n"@,
    }
}

/// An enum's variants as declaration text.
pub open spec fn render_variants_decl(vs: Seq<VariantModelView>, processed: bool) -> Seq<char>
    decreases vs.len(),
{
    if vs.len() == 0 {
        Seq::empty()
    } else {
        "    "@ + render_attrs_inline(vs[0].other_attrs) + vs[0].name + render_variant_fields(
            vs[0].fields,
            processed,
        ) + render_variants_decl(vs.drop_first(), processed)
    }
}

/// The generated suffix on the sibling's name.
pub open spec fn name_suffix(processed: bool) -> Seq<char> {
    if processed {
        "Processed"@
    } else {
        Seq::empty()
    }
}

/// One whole record declaration: the original shape, or the processed
/// sibling with each field's resolved type.
pub open spec fn render_decl(m: RecordModelView, processed: bool) -> Seq<char> {
    match m.body {
        BodyModelView::Struct(fm) => render_attr_lines(m.other_attrs) + vis_sp(m.vis) + "struct "@
            + m.name + name_suffix(processed) + m.generics + render_fields_decl(fm, processed),
        BodyModelView::Enum(vs) => render_attr_lines(m.other_attrs) + vis_sp(m.vis) + "enum "@
            + m.name + name_suffix(processed) + m.generics + " {\n"@ + render_variants_decl(
            vs,
            processed,
        ) + "}\n"@,
    }
}

/// The comma-separated binding names of a field list.
pub open spec fn render_bindings(fs: Seq<FieldModelView>) -> Seq<char>
    decreases fs.len(),
{
    if fs.len() == 0 {
        Seq::empty()
    } else {
        fs[0].binding + ", "@ + render_bindings(fs.drop_first())
    }
}

/// The destructuring (and reconstruction) pattern of a field list.
pub open spec fn render_pattern(fm: FieldsModelView) -> Seq<char> {
    match fm {
        FieldsModelView::Unit => Seq::empty(),
        FieldsModelView::Named(fs) => " { "@ + render_bindings(fs) + "}"@,
        FieldsModelView::Unnamed(fs) => "("@ + render_bindings(fs) + ")"@,
    }
}

/// Every field's chain rendered in declared order.
pub open spec fn render_field_chains(fs: Seq<FieldModelView>) -> Seq<char>
    decreases fs.len(),
{
    if fs.len() == 0 {
        Seq::empty()
    } else {
        render_chain_at(fs[0].chain, fs[0].binding, fs[0].declared) + render_field_chains(
            fs.drop_first(),
        )
    }
}

/// The match arms of an enum's transformation routine, one per variant.
pub open spec fn render_arms(name: Seq<char>, vs: Seq<VariantModelView>) -> Seq<char>
    decreases vs.len(),
{
    if vs.len() == 0 {
        Seq::empty()
    } else {
        " "@ + name + "::"@ + vs[0].name + render_pattern(vs[0].fields) + " => {"@
            + render_field_chains(fields_of(vs[0].fields)) + " ::core::result::Result::Ok("@ + name
            + "Processed::"@ + vs[0].name + render_pattern(vs[0].fields) + ") },"@ + render_arms(
            name,
            vs.drop_first(),
        )
    }
}

/// The fields of a field-list shape.
pub open spec fn fields_of(fm: FieldsModelView) -> Seq<FieldModelView> {
    match fm {
        FieldsModelView::Unit => Seq::empty(),
        FieldsModelView::Named(fs) => fs,
        FieldsModelView::Unnamed(fs) => fs,
    }
}

/// The header of the transformation routine.
pub open spec fn render_routine_header(m: RecordModelView) -> Seq<char> {
    "impl"@ + m.generics + " "@ + m.name + m.generics
        + " {\n    pub fn preprocess(self) -> ::core::result::Result<"@ + m.name + "Processed"@
        + m.generics + ", ::preprocess::Error> {\n        let value = self;"@
}

/// The transformation routine: the record-level chain applied to the whole
/// value first, then the destructuring, every field's chain in order, and
/// the reconstruction of the sibling value.
pub open spec fn render_routine(m: RecordModelView) -> Seq<char> {
    match m.body {
        BodyModelView::Struct(fm) => render_routine_header(m) + render_chain_at(
            m.global,
            "value"@,
            TypeExprView::Named(m.name),
        ) + " let "@ + m.name + render_pattern(fm) + " = value;"@ + render_field_chains(
            fields_of(fm),
        ) + " ::core::result::Result::Ok("@ + m.name + "Processed"@ + render_pattern(fm)
            + ") }\n}\n"@,
        BodyModelView::Enum(vs) => render_routine_header(m) + render_chain_at(
            m.global,
            "value"@,
            TypeExprView::Named(m.name),
        ) + " match value {"@ + render_arms(m.name, vs) + " } }\n}\n"@,
    }
}

/// The whole generated output: the original declaration with directive
/// attributes stripped, the processed sibling, and the transformation
/// routine binding the two.
pub open spec fn render_record(m: RecordModelView) -> Seq<char> {
    render_decl(m, false) + "\n"@ + render_decl(m, true) + "\n"@ + render_routine(m)
}

// ---------------------------------------------------------------------------
// The executable renderer
// ---------------------------------------------------------------------------
fn render_type_exec(t: &TypeExpr) -> (r: String)
    ensures
        r@ == render_type(t@),
    decreases t,
{
    match t {
        TypeExpr::Named(s) => s.clone(),
        TypeExpr::CowStr => String::from_str("::std::borrow::Cow<'static, str>"),
        TypeExpr::UrlType => String::from_str("::preprocess::types::Url"),
        TypeExpr::Ipv4Type => String::from_str("::std::net::Ipv4Addr"),
        TypeExpr::Ipv6Type => String::from_str("::std::net::Ipv6Addr"),
        TypeExpr::IpAnyType => String::from_str("::std::net::IpAddr"),
        TypeExpr::Opt(inner) => {
            let mut s = String::from_str("::core::option::Option<");
            let it = render_type_exec(inner);
            s.append(it.as_str());
            s.append(">");
            s
        },
        TypeExpr::Processed(n) => {
            let mut s = n.clone();
            s.append("Processed");
            s
        },
    }
}

fn render_bound_exec(b: &Option<u64>) -> (r: String)
    ensures
        r@ == render_bound(*b),
{
    match b {
        Some(n) => {
            let mut s = String::from_str("::core::option::Option::Some(");
            let num = u64_to_string(*n);
            s.append(num.as_str());
            s.append(")");
            s
        },
        None => String::from_str("::core::option::Option::None"),
    }
}

fn render_tag_exec(binding: &str) -> (r: String)
    ensures
        r@ == render_tag(binding@),
{
    let mut s = String::from_str(").map_err(|err| err.set_field(\"");
    s.append(binding);
    s.append("\"))?");
    s
}

fn simple_call(path: &str, binding: &str) -> (r: String)
    ensures
        r@ == path@ + binding@ + render_tag(binding@),
{
    let mut s = String::from_str(path);
    s.append(binding);
    let tag = render_tag_exec(binding);
    s.append(tag.as_str());
    s
}

fn render_call_exec(d: &Directive, binding: &str) -> (r: String)
    ensures
        r@ == render_call(d@, binding@),
    decreases size_of_directive(d@),
{
    match d {
        Directive::NoOp => String::from_str(binding),
        Directive::Email => simple_call("::preprocess::validators::email::validate_email(", binding),
        Directive::Domain => simple_call(
            "::preprocess::validators::domain::validate_domain(",
            binding,
        ),
        Directive::Url => simple_call("::preprocess::validators::url::validate_url(", binding),
        Directive::Ip(kind) => match kind {
            IpPreprocessorType::V4 => simple_call(
                "::preprocess::validators::ip::validate_ipv4(",
                binding,
            ),
            IpPreprocessorType::V6 => simple_call(
                "::preprocess::validators::ip::validate_ipv6(",
                binding,
            ),
            IpPreprocessorType::Any => simple_call(
                "::preprocess::validators::ip::validate_ip(",
                binding,
            ),
        },
        Directive::Length { min, max, equal } => {
            let mut s = String::from_str("::preprocess::validators::length::validate_length(");
            s.append(binding);
            s.append(", ");
            let b1 = render_bound_exec(min);
            s.append(b1.as_str());
            s.append(", ");
            let b2 = render_bound_exec(max);
            s.append(b2.as_str());
            s.append(", ");
            let b3 = render_bound_exec(equal);
            s.append(b3.as_str());
            let tag = render_tag_exec(binding);
            s.append(tag.as_str());
            s
        },
        Directive::Range { min, max } => {
            let mut s = String::from_str("::preprocess::validators::range::validate_range(");
            s.append(binding);
            s.append(", ");
            let b1 = render_bound_exec(min);
            s.append(b1.as_str());
            s.append(", ");
            let b2 = render_bound_exec(max);
            s.append(b2.as_str());
            let tag = render_tag_exec(binding);
            s.append(tag.as_str());
            s
        },
        Directive::Contains(c) => {
            let mut s = String::from_str("::preprocess::validators::contains::validate_contains(");
            s.append(binding);
            s.append(", \"");
            s.append(c.as_str());
            s.append("\"");
            let tag = render_tag_exec(binding);
            s.append(tag.as_str());
            s
        },
        Directive::DoesNotContain(c) => {
            let mut s = String::from_str(
                "::preprocess::validators::does_not_contain::validate_does_not_contain(",
            );
            s.append(binding);
            s.append(", \"");
            s.append(c.as_str());
            s.append("\"");
            let tag = render_tag_exec(binding);
            s.append(tag.as_str());
            s
        },
        Directive::Custom(f) => {
            let mut s = f.clone();
            s.append("(");
            s.append(binding);
            let tag = render_tag_exec(binding);
            s.append(tag.as_str());
            s
        },
        Directive::Regex(p) => {
            let mut s = String::from_str("::preprocess::validators::regex::validate_regex(");
            s.append(binding);
            s.append(", \"");
            s.append(p.as_str());
            s.append("\"");
            let tag = render_tag_exec(binding);
            s.append(tag.as_str());
            s
        },
        Directive::Trim => simple_call("::preprocess::preprocessors::preprocess_trim(", binding),
        Directive::Lowercase => simple_call(
            "::preprocess::preprocessors::preprocess_lowercase(",
            binding,
        ),
        Directive::Uppercase => simple_call(
            "::preprocess::preprocessors::preprocess_uppercase(",
            binding,
        ),
        Directive::Nested => {
            let mut s = String::from_str(binding);
            s.append(".preprocess(");
            let tag = render_tag_exec(binding);
            s.append(tag.as_str());
            s
        },
        Directive::Type(t) => {
            let mut s = String::from_str("::core::convert::TryInto::<");
            s.append(t.as_str());
            s.append(">::try_into(");
            s.append(binding);
            let tag = render_tag_exec(binding);
            s.append(tag.as_str());
            s
        },
        Directive::Optional(chain) => {
            let mut s = String::from_str("(match ");
            s.append(binding);
            s.append(" { ::core::option::Option::Some(value) => {");
            proof {
                crate::directive::lemma_directive_views_len(chain@);
                assert(directive_views(chain@).skip(0) =~= directive_views(chain@));
            }
            let inner = render_chain_exec(chain, 0, "value", TypeExpr::Named(String::from_str("_")));
            s.append(inner.as_str());
            s.append(
                " ::core::option::Option::Some(value) }, ::core::option::Option::None => ::core::option::Option::None })",
            );
            s
        },
    }
}

fn render_step_exec(d: &Directive, binding: &str, after: &TypeExpr) -> (r: String)
    ensures
        r@ == render_step(d@, binding@, after@),
    decreases size_of_directive(d@) + 1,
{
    match d {
        Directive::NoOp => String::new(),
        _ => {
            let mut s = String::from_str(" let ");
            s.append(binding);
            s.append(": ");
            let ty = render_type_exec(after);
            s.append(ty.as_str());
            s.append(" = ");
            let call = render_call_exec(d, binding);
            s.append(call.as_str());
            s.append(";");
            s
        },
    }
}

fn render_chain_exec(ds: &Vec<Directive>, i: usize, binding: &str, t: TypeExpr) -> (r: String)
    requires
        0 <= i <= ds@.len(),
    ensures
        r@ == render_chain_at(directive_views(ds@).skip(i as int), binding@, t@),
    decreases size_of_chain(directive_views(ds@).skip(i as int)),
{
    let ghost dviews = directive_views(ds@);
    proof {
        crate::directive::lemma_directive_views_len(ds@);
    }
    if i == ds.len() {
        proof {
            assert(dviews.skip(i as int) =~= Seq::<DirectiveView>::empty());
        }
        return String::new();
    }
    proof {
        crate::directive::lemma_directive_views_index(ds@, i as int);
        assert(dviews.skip(i as int)[0] == dviews[i as int]);
        assert(dviews.skip(i as int).drop_first() =~= dviews.skip(i + 1));
        lemma_size_of_chain_pos(dviews.skip(i + 1));
    }
    let t2 = match crate::resolve::apply_transition(&ds[i], t) {
        Ok(t2) => t2,
        Err(_) => {
            return String::new();
        },
    };
    let mut s = render_step_exec(&ds[i], binding, &t2);
    let rest = render_chain_exec(ds, i + 1, binding, t2);
    s.append(rest.as_str());
    s
}

fn render_attrs_inline_exec(attrs: &Vec<String>, i: usize) -> (r: String)
    requires
        0 <= i <= attrs@.len(),
    ensures
        r@ == render_attrs_inline(string_views(attrs@).skip(i as int)),
    decreases attrs@.len() - i,
{
    let ghost av = string_views(attrs@);
    proof {
        crate::builder::lemma_string_views_len(attrs@);
    }
    if i == attrs.len() {
        proof {
            assert(av.skip(i as int) =~= Seq::<Seq<char>>::empty());
        }
        return String::new();
    }
    proof {
        crate::builder::lemma_string_views_index(attrs@, i as int);
        assert(av.skip(i as int)[0] == av[i as int]);
        assert(av.skip(i as int).drop_first() =~= av.skip(i + 1));
    }
    let mut s = attrs[i].clone();
    s.append(" ");
    let rest = render_attrs_inline_exec(attrs, i + 1);
    s.append(rest.as_str());
    s
}

fn render_attr_lines_exec(attrs: &Vec<String>, i: usize) -> (r: String)
    requires
        0 <= i <= attrs@.len(),
    ensures
        r@ == render_attr_lines(string_views(attrs@).skip(i as int)),
    decreases attrs@.len() - i,
{
    let ghost av = string_views(attrs@);
    proof {
        crate::builder::lemma_string_views_len(attrs@);
    }
    if i == attrs.len() {
        proof {
            assert(av.skip(i as int) =~= Seq::<Seq<char>>::empty());
        }
        return String::new();
    }
    proof {
        crate::builder::lemma_string_views_index(attrs@, i as int);
        assert(av.skip(i as int)[0] == av[i as int]);
        assert(av.skip(i as int).drop_first() =~= av.skip(i + 1));
    }
    let mut s = attrs[i].clone();
    s.append("\n");
    let rest = render_attr_lines_exec(attrs, i + 1);
    s.append(rest.as_str());
    s
}

fn vis_sp_exec(v: &String) -> (r: String)
    ensures
        r@ == vis_sp(v@),
{
    if v.as_str().unicode_len() == 0 {
        String::new()
    } else {
        let mut s = v.clone();
        s.append(" ");
        s
    }
}

fn field_type_exec(f: &FieldModel, processed: bool) -> (r: String)
    ensures
        r@ == render_type(field_type_of(f@, processed)),
{
    if processed {
        render_type_exec(&f.resolved)
    } else {
        render_type_exec(&f.declared)
    }
}

fn render_named_fields_exec(fs: &Vec<FieldModel>, i: usize, processed: bool) -> (r: String)
    requires
        0 <= i <= fs@.len(),
    ensures
        r@ == render_named_fields(field_model_views(fs@).skip(i as int), processed),
    decreases fs@.len() - i,
{
    let ghost fv = field_model_views(fs@);
    proof {
        crate::builder::lemma_field_model_views_len(fs@);
    }
    if i == fs.len() {
        proof {
            assert(fv.skip(i as int) =~= Seq::<FieldModelView>::empty());
        }
        return String::new();
    }
    proof {
        crate::builder::lemma_field_model_views_index(fs@, i as int);
        assert(fv.skip(i as int)[0] == fv[i as int]);
        assert(fv.skip(i as int).drop_first() =~= fv.skip(i + 1));
    }
    let mut s = String::from_str("    ");
    let at = render_attrs_inline_exec(&fs[i].other_attrs, 0);
    proof {
        assert(string_views(fs@[i as int].other_attrs@).skip(0) =~= string_views(
            fs@[i as int].other_attrs@,
        ));
    }
    s.append(at.as_str());
    let vs = vis_sp_exec(&fs[i].vis);
    s.append(vs.as_str());
    s.append(fs[i].binding.as_str());
    s.append(": ");
    let ty = field_type_exec(&fs[i], processed);
    s.append(ty.as_str());
    s.append(",\n");
    let rest = render_named_fields_exec(fs, i + 1, processed);
    s.append(rest.as_str());
    s
}

fn render_unnamed_fields_exec(fs: &Vec<FieldModel>, i: usize, processed: bool) -> (r: String)
    requires
        0 <= i <= fs@.len(),
    ensures
        r@ == render_unnamed_fields(field_model_views(fs@).skip(i as int), processed),
    decreases fs@.len() - i,
{
    let ghost fv = field_model_views(fs@);
    proof {
        crate::builder::lemma_field_model_views_len(fs@);
    }
    if i == fs.len() {
        proof {
            assert(fv.skip(i as int) =~= Seq::<FieldModelView>::empty());
        }
        return String::new();
    }
    proof {
        crate::builder::lemma_field_model_views_index(fs@, i as int);
        assert(fv.skip(i as int)[0] == fv[i as int]);
        assert(fv.skip(i as int).drop_first() =~= fv.skip(i + 1));
    }
    let mut s = render_attrs_inline_exec(&fs[i].other_attrs, 0);
    proof {
        assert(string_views(fs@[i as int].other_attrs@).skip(0) =~= string_views(
            fs@[i as int].other_attrs@,
        ));
    }
    let vs = vis_sp_exec(&fs[i].vis);
    s.append(vs.as_str());
    let ty = field_type_exec(&fs[i], processed);
    s.append(ty.as_str());
    s.append(", ");
    let rest = render_unnamed_fields_exec(fs, i + 1, processed);
    s.append(rest.as_str());
    s
}

fn render_fields_decl_exec(fm: &FieldsModel, processed: bool) -> (r: String)
    ensures
        r@ == render_fields_decl(crate::builder::fields_model_view(*fm), processed),
{
    match fm {
        FieldsModel::Unit => String::from_str(";\n"),
        FieldsModel::Named(fs) => {
            let mut s = String::from_str(" {\n");
            proof {
                assert(field_model_views(fs@).skip(0) =~= field_model_views(fs@));
            }
            let body = render_named_fields_exec(fs, 0, processed);
            s.append(body.as_str());
            s.append("}\n");
            s
        },
        FieldsModel::Unnamed(fs) => {
            let mut s = String::from_str("(");
            proof {
                assert(field_model_views(fs@).skip(0) =~= field_model_views(fs@));
            }
            let body = render_unnamed_fields_exec(fs, 0, processed);
            s.append(body.as_str());
            s.append(");\n");
            s
        },
    }
}

fn render_variant_fields_exec(fm: &FieldsModel, processed: bool) -> (r: String)
    ensures
        r@ == render_variant_fields(crate::builder::fields_model_view(*fm), processed),
{
    match fm {
        FieldsModel::Unit => String::from_str(",\n"),
        FieldsModel::Named(fs) => {
            let mut s = String::from_str(" {\n");
            proof {
                assert(field_model_views(fs@).skip(0) =~= field_model_views(fs@));
            }
            let body = render_named_fields_exec(fs, 0, processed);
            s.append(body.as_str());
            s.append("    },\n");
            s
        },
        FieldsModel::Unnamed(fs) => {
            let mut s = String::from_str("(");
            proof {
                assert(field_model_views(fs@).skip(0) =~= field_model_views(fs@));
            }
            let body = render_unnamed_fields_exec(fs, 0, processed);
            s.append(body.as_str());
            s.append("),\n");
            s
        },
    }
}

fn render_variants_decl_exec(vs: &Vec<VariantModel>, i: usize, processed: bool) -> (r: String)
    requires
        0 <= i <= vs@.len(),
    ensures
        r@ == render_variants_decl(variant_model_views(vs@).skip(i as int), processed),
    decreases vs@.len() - i,
{
    let ghost vv = variant_model_views(vs@);
    proof {
        crate::builder::lemma_variant_model_views_len(vs@);
    }
    if i == vs.len() {
        proof {
            assert(vv.skip(i as int) =~= Seq::<VariantModelView>::empty());
        }
        return String::new();
    }
    proof {
        crate::builder::lemma_variant_model_views_index(vs@, i as int);
        assert(vv.skip(i as int)[0] == vv[i as int]);
        assert(vv.skip(i as int).drop_first() =~= vv.skip(i + 1));
    }
    let mut s = String::from_str("    ");
    let at = render_attrs_inline_exec(&vs[i].other_attrs, 0);
    proof {
        assert(string_views(vs@[i as int].other_attrs@).skip(0) =~= string_views(
            vs@[i as int].other_attrs@,
        ));
    }
    s.append(at.as_str());
    s.append(vs[i].name.as_str());
    let vf = render_variant_fields_exec(&vs[i].fields, processed);
    s.append(vf.as_str());
    let rest = render_variants_decl_exec(vs, i + 1, processed);
    s.append(rest.as_str());
    s
}

fn render_decl_exec(m: &RecordModel, processed: bool) -> (r: String)
    ensures
        r@ == render_decl(m@, processed),
{
    let mut s = render_attr_lines_exec(&m.other_attrs, 0);
    proof {
        assert(string_views(m.other_attrs@).skip(0) =~= string_views(m.other_attrs@));
    }
    let vs = vis_sp_exec(&m.vis);
    s.append(vs.as_str());
    match &m.body {
        BodyModel::Struct(fm) => {
            s.append("struct ");
            s.append(m.name.as_str());
            if processed {
                s.append("Processed");
            }
            s.append(m.generics.as_str());
            let f = render_fields_decl_exec(fm, processed);
            s.append(f.as_str());
        },
        BodyModel::Enum(vars) => {
            s.append("enum ");
            s.append(m.name.as_str());
            if processed {
                s.append("Processed");
            }
            s.append(m.generics.as_str());
            s.append(" {\n");
            proof {
                assert(variant_model_views(vars@).skip(0) =~= variant_model_views(vars@));
            }
            let body = render_variants_decl_exec(vars, 0, processed);
            s.append(body.as_str());
            s.append("}\n");
        },
    }
    s
}

fn render_bindings_exec(fs: &Vec<FieldModel>, i: usize) -> (r: String)
    requires
        0 <= i <= fs@.len(),
    ensures
        r@ == render_bindings(field_model_views(fs@).skip(i as int)),
    decreases fs@.len() - i,
{
    let ghost fv = field_model_views(fs@);
    proof {
        crate::builder::lemma_field_model_views_len(fs@);
    }
    if i == fs.len() {
        proof {
            assert(fv.skip(i as int) =~= Seq::<FieldModelView>::empty());
        }
        return String::new();
    }
    proof {
        crate::builder::lemma_field_model_views_index(fs@, i as int);
        assert(fv.skip(i as int)[0] == fv[i as int]);
        assert(fv.skip(i as int).drop_first() =~= fv.skip(i + 1));
    }
    let mut s = fs[i].binding.clone();
    s.append(", ");
    let rest = render_bindings_exec(fs, i + 1);
    s.append(rest.as_str());
    s
}

fn render_pattern_exec(fm: &FieldsModel) -> (r: String)
    ensures
        r@ == render_pattern(crate::builder::fields_model_view(*fm)),
{
    match fm {
        FieldsModel::Unit => String::new(),
        FieldsModel::Named(fs) => {
            let mut s = String::from_str(" { ");
            proof {
                assert(field_model_views(fs@).skip(0) =~= field_model_views(fs@));
            }
            let b = render_bindings_exec(fs, 0);
            s.append(b.as_str());
            s.append("}");
            s
        },
        FieldsModel::Unnamed(fs) => {
            let mut s = String::from_str("(");
            proof {
                assert(field_model_views(fs@).skip(0) =~= field_model_views(fs@));
            }
            let b = render_bindings_exec(fs, 0);
            s.append(b.as_str());
            s.append(")");
            s
        },
    }
}

fn render_field_chains_exec(fs: &Vec<FieldModel>, i: usize) -> (r: String)
    requires
        0 <= i <= fs@.len(),
    ensures
        r@ == render_field_chains(field_model_views(fs@).skip(i as int)),
    decreases fs@.len() - i,
{
    let ghost fv = field_model_views(fs@);
    proof {
        crate::builder::lemma_field_model_views_len(fs@);
    }
    if i == fs.len() {
        proof {
            assert(fv.skip(i as int) =~= Seq::<FieldModelView>::empty());
        }
        return String::new();
    }
    proof {
        crate::builder::lemma_field_model_views_index(fs@, i as int);
        assert(fv.skip(i as int)[0] == fv[i as int]);
        assert(fv.skip(i as int).drop_first() =~= fv.skip(i + 1));
        crate::directive::lemma_directive_views_len(fs@[i as int].chain@);
        assert(directive_views(fs@[i as int].chain@).skip(0) =~= directive_views(
            fs@[i as int].chain@,
        ));
    }
    let t0 = fs[i].declared.duplicate();
    let mut s = render_chain_exec(&fs[i].chain, 0, fs[i].binding.as_str(), t0);
    let rest = render_field_chains_exec(fs, i + 1);
    s.append(rest.as_str());
    s
}

fn fields_of_exec<'a>(fm: &'a FieldsModel) -> (r: Option<&'a Vec<FieldModel>>)
    ensures
        r matches Some(fs) ==> fields_of(crate::builder::fields_model_view(*fm))
            == field_model_views(fs@),
        r is None ==> fields_of(crate::builder::fields_model_view(*fm)) == Seq::<
            FieldModelView,
        >::empty(),
{
    match fm {
        FieldsModel::Unit => None,
        FieldsModel::Named(fs) => Some(fs),
        FieldsModel::Unnamed(fs) => Some(fs),
    }
}

fn render_arms_exec(name: &str, vs: &Vec<VariantModel>, i: usize) -> (r: String)
    requires
        0 <= i <= vs@.len(),
    ensures
        r@ == render_arms(name@, variant_model_views(vs@).skip(i as int)),
    decreases vs@.len() - i,
{
    let ghost vv = variant_model_views(vs@);
    proof {
        crate::builder::lemma_variant_model_views_len(vs@);
    }
    if i == vs.len() {
        proof {
            assert(vv.skip(i as int) =~= Seq::<VariantModelView>::empty());
        }
        return String::new();
    }
    proof {
        crate::builder::lemma_variant_model_views_index(vs@, i as int);
        assert(vv.skip(i as int)[0] == vv[i as int]);
        assert(vv.skip(i as int).drop_first() =~= vv.skip(i + 1));
    }
    let mut s = String::from_str(" ");
    s.append(name);
    s.append("::");
    s.append(vs[i].name.as_str());
    let pat = render_pattern_exec(&vs[i].fields);
    s.append(pat.as_str());
    s.append(" => {");
    match fields_of_exec(&vs[i].fields) {
        Some(fs) => {
            proof {
                assert(field_model_views(fs@).skip(0) =~= field_model_views(fs@));
            }
            let chains = render_field_chains_exec(fs, 0);
            s.append(chains.as_str());
        },
        None => {},
    }
    s.append(" ::core::result::Result::Ok(");
    s.append(name);
    s.append("Processed::");
    s.append(vs[i].name.as_str());
    s.append(pat.as_str());
    s.append(") },");
    let rest = render_arms_exec(name, vs, i + 1);
    s.append(rest.as_str());
    s
}

fn render_routine_exec(m: &RecordModel) -> (r: String)
    ensures
        r@ == render_routine(m@),
{
    let mut s = String::from_str("impl");
    s.append(m.generics.as_str());
    s.append(" ");
    s.append(m.name.as_str());
    s.append(m.generics.as_str());
    s.append(" {\n    pub fn preprocess(self) -> ::core::result::Result<");
    s.append(m.name.as_str());
    s.append("Processed");
    s.append(m.generics.as_str());
    s.append(", ::preprocess::Error> {\n        let value = self;");
    proof {
        crate::directive::lemma_directive_views_len(m.global@);
        assert(directive_views(m.global@).skip(0) =~= directive_views(m.global@));
    }
    let g = render_chain_exec(&m.global, 0, "value", TypeExpr::Named(m.name.clone()));
    s.append(g.as_str());
    match &m.body {
        BodyModel::Struct(fm) => {
            s.append(" let ");
            s.append(m.name.as_str());
            let pat = render_pattern_exec(fm);
            s.append(pat.as_str());
            s.append(" = value;");
            match fields_of_exec(fm) {
                Some(fs) => {
                    proof {
                        assert(field_model_views(fs@).skip(0) =~= field_model_views(fs@));
                    }
                    let chains = render_field_chains_exec(fs, 0);
                    s.append(chains.as_str());
                },
                None => {},
            }
            s.append(" ::core::result::Result::Ok(");
            s.append(m.name.as_str());
            s.append("Processed");
            s.append(pat.as_str());
            s.append(") }\n}\n");
        },
        BodyModel::Enum(vars) => {
            s.append(" match value {");
            proof {
                assert(variant_model_views(vars@).skip(0) =~= variant_model_views(vars@));
            }
            let arms = render_arms_exec(m.name.as_str(), vars, 0);
            s.append(arms.as_str());
            s.append(" } }\n}\n");
        },
    }
    s
}

/// Renders the whole generated output for a built record model.
pub fn render_record_exec(m: &RecordModel) -> (r: String)
    ensures
        r@ == render_record(m@),
{
    let mut s = render_decl_exec(m, false);
    s.append("\n");
    let sibling = render_decl_exec(m, true);
    s.append(sibling.as_str());
    s.append("\n");
    let routine = render_routine_exec(m);
    s.append(routine.as_str());
    s
}

/// The whole generation entry point: builds the record model under the
/// given strict-mode flag and renders the generated pair, or surfaces the
/// first diagnostic.  Generation is a pure function of the declaration and
/// the flag; nothing is partially generated on failure.
pub fn generate(d: crate::ast::RecordDecl, strict: bool) -> (r: Result<
    (RecordModel, String),
    crate::directive::GenError,
>)
    ensures
        r matches Ok(p) ==> crate::builder::build_record_spec(
            crate::builder::record_decl_view(d),
            strict,
        ) == Some(p.0@) && p.1@ == render_record(p.0@),
        r is Err ==> crate::builder::build_record_spec(
            crate::builder::record_decl_view(d),
            strict,
        ) is None,
{
    let m = match crate::builder::build_record(d, strict) {
        Ok(m) => m,
        Err(e) => {
            return Err(e);
        },
    };
    let text = render_record_exec(&m);
    Ok((m, text))
}

} // verus!
