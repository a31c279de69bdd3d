//! The field and record model builder: strips directive attributes from each
//! field, parses them, folds the catalog's type transitions through each
//! chain, collects the record-level chain, and enforces the strict-mode
//! policy and the record-level directive subset.

use vstd::prelude::*;
use vstd::string::*;
use crate::ast::{AttrDecl, FieldDecl, FieldsDecl, RecordBody, RecordDecl, TypeExpr, VariantDecl};
use crate::directive::{
    attr_directives, directive_views, lemma_directive_views_index, lemma_directive_views_len,
    parse_attr, Directive, DirectiveAttrView, DirectiveView, GenError,
};
use crate::resolve::{resolve_chain, resolve_chain_exec, type_expr_view, TypeExprView};
use crate::text::{dec_str, usize_to_string};

verus! {

// ---------------------------------------------------------------------------
// Views of the declaration model
// ---------------------------------------------------------------------------
/// The mathematical form of one attribute on a field or record.
pub enum AttrDeclView {
    Directive(DirectiveAttrView),
    Other(Seq<char>),
}

/// The view of one attribute.
pub open spec fn attr_decl_view(a: AttrDecl) -> AttrDeclView {
    match a {
        AttrDecl::Directive(d) => AttrDeclView::Directive(d@),
        AttrDecl::Other(s) => AttrDeclView::Other(s@),
    }
}

/// The views of an attribute list, element by element.
pub open spec fn attr_decl_views(s: Seq<AttrDecl>) -> Seq<AttrDeclView>
    decreases s,
{
    if s.len() == 0 {
        Seq::empty()
    } else {
        seq![attr_decl_view(s[0])] + attr_decl_views(s.drop_first())
    }
}

/// The mathematical form of one field declaration.
pub struct FieldDeclView {
    pub name: Option<Seq<char>>,
    pub vis: Seq<char>,
    pub attrs: Seq<AttrDeclView>,
    pub ty: TypeExprView,
}

/// The view of one field declaration.
pub open spec fn field_decl_view(f: FieldDecl) -> FieldDeclView {
    FieldDeclView {
        name: match f.name {
            Some(n) => Some(n@),
            None => None,
        },
        vis: f.vis@,
        attrs: attr_decl_views(f.attrs@),
        ty: f.ty@,
    }
}

/// The views of a field list, element by element.
pub open spec fn field_decl_views(s: Seq<FieldDecl>) -> Seq<FieldDeclView>
    decreases s,
{
    if s.len() == 0 {
        Seq::empty()
    } else {
        seq![field_decl_view(s[0])] + field_decl_views(s.drop_first())
    }
}

/// The mathematical form of a field list.
pub enum FieldsDeclView {
    Unit,
    Named(Seq<FieldDeclView>),
    Unnamed(Seq<FieldDeclView>),
}

/// The view of a field list.
pub open spec fn fields_decl_view(f: FieldsDecl) -> FieldsDeclView {
    match f {
        FieldsDecl::Unit => FieldsDeclView::Unit,
        FieldsDecl::Named(fs) => FieldsDeclView::Named(field_decl_views(fs@)),
        FieldsDecl::Unnamed(fs) => FieldsDeclView::Unnamed(field_decl_views(fs@)),
    }
}

/// The mathematical form of one enum variant declaration.
pub struct VariantDeclView {
    pub name: Seq<char>,
    pub attrs: Seq<AttrDeclView>,
    pub fields: FieldsDeclView,
    pub has_discriminant: bool,
}

/// The view of one variant declaration.
pub open spec fn variant_decl_view(v: VariantDecl) -> VariantDeclView {
    VariantDeclView {
        name: v.name@,
        attrs: attr_decl_views(v.attrs@),
        fields: fields_decl_view(v.fields),
        has_discriminant: v.has_discriminant,
    }
}

/// The views of a variant list, element by element.
pub open spec fn variant_decl_views(s: Seq<VariantDecl>) -> Seq<VariantDeclView>
    decreases s,
{
    if s.len() == 0 {
        Seq::empty()
    } else {
        seq![variant_decl_view(s[0])] + variant_decl_views(s.drop_first())
    }
}

/// The mathematical form of a record body.
pub enum RecordBodyView {
    Struct(FieldsDeclView),
    Enum(Seq<VariantDeclView>),
}

/// The mathematical form of a whole record declaration.
pub struct RecordDeclView {
    pub name: Seq<char>,
    pub vis: Seq<char>,
    pub attrs: Seq<AttrDeclView>,
    pub generics: Seq<char>,
    pub body: RecordBodyView,
}

/// The view of a record declaration.
pub open spec fn record_decl_view(d: RecordDecl) -> RecordDeclView {
    RecordDeclView {
        name: d.name@,
        vis: d.vis@,
        attrs: attr_decl_views(d.attrs@),
        generics: d.generics@,
        body: match d.body {
            RecordBody::Struct(f) => RecordBodyView::Struct(fields_decl_view(f)),
            RecordBody::Enum(vs) => RecordBodyView::Enum(variant_decl_views(vs@)),
        },
    }
}

// ---------------------------------------------------------------------------
// The resolved model
// ---------------------------------------------------------------------------
/// One field with its resolved chain: the binding name used during the
/// transformation, the attributes passed through, the declared type, the
/// parsed directive chain, and the chain's resolved output type.
pub struct FieldModel {
    /// The name the value is bound under while being transformed: the
    /// field's own identifier, or a positional name derived from its index.
    pub binding: String,
    /// The field's visibility, passed through verbatim.
    pub vis: String,
    /// The non-directive attributes, passed through in declaration order.
    pub other_attrs: Vec<String>,
    /// The field's declared type.
    pub declared: TypeExpr,
    /// The field's parsed directive chain, in application order.
    pub chain: Vec<Directive>,
    /// The chain's resolved output type.
    pub resolved: TypeExpr,
}

/// The mathematical form of one resolved field.
pub struct FieldModelView {
    pub binding: Seq<char>,
    pub vis: Seq<char>,
    pub other_attrs: Seq<Seq<char>>,
    pub declared: TypeExprView,
    pub chain: Seq<DirectiveView>,
    pub resolved: TypeExprView,
}

/// The view of one resolved field.
pub open spec fn field_model_view(f: FieldModel) -> FieldModelView {
    FieldModelView {
        binding: f.binding@,
        vis: f.vis@,
        other_attrs: string_views(f.other_attrs@),
        declared: f.declared@,
        chain: directive_views(f.chain@),
        resolved: f.resolved@,
    }
}

impl View for FieldModel {
    type V = FieldModelView;

    open spec fn view(&self) -> FieldModelView {
        field_model_view(*self)
    }
}

/// The views of a list of strings, element by element.
pub open spec fn string_views(s: Seq<String>) -> Seq<Seq<char>>
    decreases s,
{
    if s.len() == 0 {
        Seq::empty()
    } else {
        seq![s[0]@] + string_views(s.drop_first())
    }
}

/// The views of a list of resolved fields, element by element.
pub open spec fn field_model_views(s: Seq<FieldModel>) -> Seq<FieldModelView>
    decreases s,
{
    if s.len() == 0 {
        Seq::empty()
    } else {
        seq![field_model_view(s[0])] + field_model_views(s.drop_first())
    }
}

/// A resolved field list, in the shape of the original.
pub enum FieldsModel {
    Unit,
    Named(Vec<FieldModel>),
    Unnamed(Vec<FieldModel>),
}

/// The mathematical form of a resolved field list.
pub enum FieldsModelView {
    Unit,
    Named(Seq<FieldModelView>),
    Unnamed(Seq<FieldModelView>),
}

/// The view of a resolved field list.
pub open spec fn fields_model_view(f: FieldsModel) -> FieldsModelView {
    match f {
        FieldsModel::Unit => FieldsModelView::Unit,
        FieldsModel::Named(fs) => FieldsModelView::Named(field_model_views(fs@)),
        FieldsModel::Unnamed(fs) => FieldsModelView::Unnamed(field_model_views(fs@)),
    }
}

impl View for FieldsModel {
    type V = FieldsModelView;

    open spec fn view(&self) -> FieldsModelView {
        fields_model_view(*self)
    }
}

/// One resolved enum variant.
pub struct VariantModel {
    /// The variant's name.
    pub name: String,
    /// The non-directive attributes, passed through in declaration order.
    pub other_attrs: Vec<String>,
    /// The variant's resolved fields.
    pub fields: FieldsModel,
}

/// The mathematical form of one resolved variant.
pub struct VariantModelView {
    pub name: Seq<char>,
    pub other_attrs: Seq<Seq<char>>,
    pub fields: FieldsModelView,
}

/// The view of one resolved variant.
pub open spec fn variant_model_view(v: VariantModel) -> VariantModelView {
    VariantModelView {
        name: v.name@,
        other_attrs: string_views(v.other_attrs@),
        fields: fields_model_view(v.fields),
    }
}

/// The views of a list of resolved variants, element by element.
pub open spec fn variant_model_views(s: Seq<VariantModel>) -> Seq<VariantModelView>
    decreases s,
{
    if s.len() == 0 {
        Seq::empty()
    } else {
        seq![variant_model_view(s[0])] + variant_model_views(s.drop_first())
    }
}

/// The body of a resolved record.
pub enum BodyModel {
    Struct(FieldsModel),
    Enum(Vec<VariantModel>),
}

/// The mathematical form of a resolved record body.
pub enum BodyModelView {
    Struct(FieldsModelView),
    Enum(Seq<VariantModelView>),
}

/// The whole generation unit, resolved: the record's identity, its
/// record-level chain, and the resolved fields or variants.
pub struct RecordModel {
    /// The record's name.
    pub name: String,
    /// The record's visibility, passed through verbatim.
    pub vis: String,
    /// The non-directive attributes, passed through in declaration order.
    pub other_attrs: Vec<String>,
    /// The record's generics, passed through verbatim.
    pub generics: String,
    /// The record-level chain, applied to the whole value before any field
    /// chain.
    pub global: Vec<Directive>,
    /// The resolved body.
    pub body: BodyModel,
}

/// The mathematical form of a resolved record.
pub struct RecordModelView {
    pub name: Seq<char>,
    pub vis: Seq<char>,
    pub other_attrs: Seq<Seq<char>>,
    pub generics: Seq<char>,
    pub global: Seq<DirectiveView>,
    pub body: BodyModelView,
}

/// The view of a resolved record.
pub open spec fn record_model_view(m: RecordModel) -> RecordModelView {
    RecordModelView {
        name: m.name@,
        vis: m.vis@,
        other_attrs: string_views(m.other_attrs@),
        generics: m.generics@,
        global: directive_views(m.global@),
        body: match m.body {
            BodyModel::Struct(f) => BodyModelView::Struct(fields_model_view(f)),
            BodyModel::Enum(vs) => BodyModelView::Enum(variant_model_views(vs@)),
        },
    }
}

impl View for RecordModel {
    type V = RecordModelView;

    open spec fn view(&self) -> RecordModelView {
        record_model_view(*self)
    }
}

// ---------------------------------------------------------------------------
// The specification of building
// ---------------------------------------------------------------------------
/// The directive attributes of an attribute list, in order.
pub open spec fn directive_attrs_of(attrs: Seq<AttrDeclView>) -> Seq<DirectiveAttrView>
    decreases attrs,
{
    if attrs.len() == 0 {
        Seq::empty()
    } else {
        match attrs[0] {
            AttrDeclView::Directive(d) => seq![d] + directive_attrs_of(attrs.drop_first()),
            AttrDeclView::Other(_) => directive_attrs_of(attrs.drop_first()),
        }
    }
}

/// The non-directive attributes of an attribute list, in order.
pub open spec fn other_attrs_of(attrs: Seq<AttrDeclView>) -> Seq<Seq<char>>
    decreases attrs,
{
    if attrs.len() == 0 {
        Seq::empty()
    } else {
        match attrs[0] {
            AttrDeclView::Directive(_) => other_attrs_of(attrs.drop_first()),
            AttrDeclView::Other(s) => seq![s] + other_attrs_of(attrs.drop_first()),
        }
    }
}

/// The concatenated directives of a list of attribute occurrences; `None` as
/// soon as one occurrence is rejected.
pub open spec fn parse_attr_list_spec(attrs: Seq<DirectiveAttrView>, is_global: bool) -> Option<
    Seq<DirectiveView>,
>
    decreases attrs,
{
    if attrs.len() == 0 {
        Some(Seq::empty())
    } else {
        match attr_directives(attrs[0], is_global) {
            Some(ds) => match parse_attr_list_spec(attrs.drop_first(), is_global) {
                Some(more) => Some(ds + more),
                None => None,
            },
            None => None,
        }
    }
}

/// The parsed directive chain of one field: every directive attribute
/// parsed at field level, concatenated in order.
pub open spec fn field_chain_spec(f: FieldDeclView) -> Option<Seq<DirectiveView>> {
    parse_attr_list_spec(directive_attrs_of(f.attrs), false)
}

/// The binding name of a field: its own identifier for a named field, a
/// positionally derived name for a positional field.
pub open spec fn binding_spec(name: Option<Seq<char>>, index: int) -> Option<Seq<char>> {
    match name {
        Some(n) => Some(n),
        None => Some("field_"@ + dec_str(index as nat)),
    }
}

/// One field, built: its chain parsed and its output type resolved; `None`
/// when a directive is rejected, when strict mode finds the chain empty, or
/// when the chain cannot be resolved over the declared type.
pub open spec fn build_field_spec(f: FieldDeclView, binding: Seq<char>, strict: bool) -> Option<
    FieldModelView,
> {
    match field_chain_spec(f) {
        None => None,
        Some(ds) => if strict && ds.len() == 0 {
            None
        } else {
            match resolve_chain(ds, f.ty) {
                None => None,
                Some(out) => Some(
                    FieldModelView {
                        binding,
                        vis: f.vis,
                        other_attrs: other_attrs_of(f.attrs),
                        declared: f.ty,
                        chain: ds,
                        resolved: out,
                    },
                ),
            }
        },
    }
}

/// A list of fields, built in order; `index` is the position of the first
/// field, and `named` selects the binding rule.  A named field without a
/// name is rejected.
pub open spec fn build_field_list_spec(
    fs: Seq<FieldDeclView>,
    index: int,
    named: bool,
    strict: bool,
) -> Option<Seq<FieldModelView>>
    decreases fs,
{
    if fs.len() == 0 {
        Some(Seq::empty())
    } else {
        let b = if named {
            fs[0].name
        } else {
            binding_spec(None, index)
        };
        match b {
            None => None,
            Some(binding) => match build_field_spec(fs[0], binding, strict) {
                None => None,
                Some(fm) => match build_field_list_spec(fs.drop_first(), index + 1, named, strict) {
                    Some(rest) => Some(seq![fm] + rest),
                    None => None,
                },
            },
        }
    }
}

/// A whole field list, built; strict mode is passed through for struct
/// fields and disabled for enum variants.
pub open spec fn build_fields_spec(f: FieldsDeclView, strict: bool) -> Option<FieldsModelView> {
    match f {
        FieldsDeclView::Unit => Some(FieldsModelView::Unit),
        FieldsDeclView::Named(fs) => match build_field_list_spec(fs, 0, true, strict) {
            Some(ms) => Some(FieldsModelView::Named(ms)),
            None => None,
        },
        FieldsDeclView::Unnamed(fs) => match build_field_list_spec(fs, 0, false, strict) {
            Some(ms) => Some(FieldsModelView::Unnamed(ms)),
            None => None,
        },
    }
}

/// A list of variants, built in order: a variant with an explicit
/// discriminant is rejected, and variant fields are exempt from strict
/// mode.
pub open spec fn build_variant_list_spec(vs: Seq<VariantDeclView>) -> Option<
    Seq<VariantModelView>,
>
    decreases vs,
{
    if vs.len() == 0 {
        Some(Seq::empty())
    } else if vs[0].has_discriminant {
        None
    } else {
        match parse_attr_list_spec(directive_attrs_of(vs[0].attrs), false) {
            None => None,
            Some(ds) => if ds.len() > 0 {
                None
            } else {
                match build_fields_spec(vs[0].fields, false) {
                    None => None,
                    Some(fm) => match build_variant_list_spec(vs.drop_first()) {
                        Some(rest) => Some(
                            seq![
                                VariantModelView {
                                    name: vs[0].name,
                                    other_attrs: other_attrs_of(vs[0].attrs),
                                    fields: fm,
                                },
                            ] + rest,
                        ),
                        None => None,
                    },
                }
            },
        }
    }
}

/// Whether a directive may stand at record level: only the custom and
/// type-coercion directives are legal there.
pub open spec fn global_allowed(d: DirectiveView) -> bool {
    d is Custom || d is Type
}

/// The record-level chain: the record's directive attributes parsed at
/// record level, each resulting directive checked against the record-level
/// subset.
pub open spec fn build_global_spec(attrs: Seq<AttrDeclView>) -> Option<Seq<DirectiveView>> {
    match parse_attr_list_spec(directive_attrs_of(attrs), true) {
        None => None,
        Some(ds) => if forall|k: int| 0 <= k < ds.len() ==> global_allowed(#[trigger] ds[k]) {
            Some(ds)
        } else {
            None
        },
    }
}

/// The whole record, built: the record-level chain resolved and every field
/// chain parsed and resolved, with strict mode enforced on struct fields
/// only.
pub open spec fn build_record_spec(d: RecordDeclView, strict: bool) -> Option<RecordModelView> {
    match build_global_spec(d.attrs) {
        None => None,
        Some(g) => match d.body {
            RecordBodyView::Struct(f) => match build_fields_spec(f, strict) {
                None => None,
                Some(fm) => Some(
                    RecordModelView {
                        name: d.name,
                        vis: d.vis,
                        other_attrs: other_attrs_of(d.attrs),
                        generics: d.generics,
                        global: g,
                        body: BodyModelView::Struct(fm),
                    },
                ),
            },
            RecordBodyView::Enum(vs) => match build_variant_list_spec(vs) {
                None => None,
                Some(vm) => Some(
                    RecordModelView {
                        name: d.name,
                        vis: d.vis,
                        other_attrs: other_attrs_of(d.attrs),
                        generics: d.generics,
                        global: g,
                        body: BodyModelView::Enum(vm),
                    },
                ),
            },
        },
    }
}

// ---------------------------------------------------------------------------
// Lemmas about the element-wise views
// ---------------------------------------------------------------------------
proof fn lemma_attr_decl_views_index(s: Seq<AttrDecl>, i: int)
    requires
        0 <= i < s.len(),
    ensures
        attr_decl_views(s).len() == s.len(),
        attr_decl_views(s)[i] == attr_decl_view(s[i]),
    decreases s.len(),
{
    lemma_attr_decl_views_len(s);
    if i > 0 {
        lemma_attr_decl_views_index(s.drop_first(), i - 1);
    }
}

proof fn lemma_attr_decl_views_len(s: Seq<AttrDecl>)
    ensures
        attr_decl_views(s).len() == s.len(),
    decreases s.len(),
{
    if s.len() > 0 {
        lemma_attr_decl_views_len(s.drop_first());
    }
}

proof fn lemma_field_decl_views_index(s: Seq<FieldDecl>, i: int)
    requires
        0 <= i < s.len(),
    ensures
        field_decl_views(s).len() == s.len(),
        field_decl_views(s)[i] == field_decl_view(s[i]),
    decreases s.len(),
{
    lemma_field_decl_views_len(s);
    if i > 0 {
        lemma_field_decl_views_index(s.drop_first(), i - 1);
    }
}

proof fn lemma_field_decl_views_len(s: Seq<FieldDecl>)
    ensures
        field_decl_views(s).len() == s.len(),
    decreases s.len(),
{
    if s.len() > 0 {
        lemma_field_decl_views_len(s.drop_first());
    }
}

proof fn lemma_variant_decl_views_index(s: Seq<VariantDecl>, i: int)
    requires
        0 <= i < s.len(),
    ensures
        variant_decl_views(s).len() == s.len(),
        variant_decl_views(s)[i] == variant_decl_view(s[i]),
    decreases s.len(),
{
    lemma_variant_decl_views_len(s);
    if i > 0 {
        lemma_variant_decl_views_index(s.drop_first(), i - 1);
    }
}

proof fn lemma_variant_decl_views_len(s: Seq<VariantDecl>)
    ensures
        variant_decl_views(s).len() == s.len(),
    decreases s.len(),
{
    if s.len() > 0 {
        lemma_variant_decl_views_len(s.drop_first());
    }
}

/// The element-wise view of a string list has the same length.
pub proof fn lemma_string_views_len(s: Seq<String>)
    ensures
        string_views(s).len() == s.len(),
    decreases s.len(),
{
    if s.len() > 0 {
        lemma_string_views_len(s.drop_first());
    }
}

/// The element-wise view of a string list views each element.
pub proof fn lemma_string_views_index(s: Seq<String>, i: int)
    requires
        0 <= i < s.len(),
    ensures
        string_views(s).len() == s.len(),
        string_views(s)[i] == s[i]@,
    decreases s.len(),
{
    lemma_string_views_len(s);
    if i > 0 {
        lemma_string_views_index(s.drop_first(), i - 1);
    }
}

/// The element-wise view of a resolved field list has the same length.
pub proof fn lemma_field_model_views_len(s: Seq<FieldModel>)
    ensures
        field_model_views(s).len() == s.len(),
    decreases s.len(),
{
    if s.len() > 0 {
        lemma_field_model_views_len(s.drop_first());
    }
}

/// The element-wise view of a resolved field list views each element.
pub proof fn lemma_field_model_views_index(s: Seq<FieldModel>, i: int)
    requires
        0 <= i < s.len(),
    ensures
        field_model_views(s).len() == s.len(),
        field_model_views(s)[i] == field_model_view(s[i]),
    decreases s.len(),
{
    lemma_field_model_views_len(s);
    if i > 0 {
        lemma_field_model_views_index(s.drop_first(), i - 1);
    }
}

/// The element-wise view of a resolved variant list has the same length.
pub proof fn lemma_variant_model_views_len(s: Seq<VariantModel>)
    ensures
        variant_model_views(s).len() == s.len(),
    decreases s.len(),
{
    if s.len() > 0 {
        lemma_variant_model_views_len(s.drop_first());
    }
}

/// The element-wise view of a resolved variant list views each element.
pub proof fn lemma_variant_model_views_index(s: Seq<VariantModel>, i: int)
    requires
        0 <= i < s.len(),
    ensures
        variant_model_views(s).len() == s.len(),
        variant_model_views(s)[i] == variant_model_view(s[i]),
    decreases s.len(),
{
    lemma_variant_model_views_len(s);
    if i > 0 {
        lemma_variant_model_views_index(s.drop_first(), i - 1);
    }
}

proof fn lemma_string_views_push(s: Seq<String>, x: String)
    ensures
        string_views(s.push(x)) == string_views(s) + seq![x@],
    decreases s.len(),
{
    if s.len() == 0 {
        reveal_with_fuel(string_views, 3);
        assert(s.push(x).drop_first() =~= Seq::<String>::empty());
        assert(s.push(x)[0] == x);
        assert(string_views(s.push(x)) =~= string_views(s) + seq![x@]);
    } else {
        assert(s.push(x)[0] == s[0]);
        assert(s.push(x).drop_first() =~= s.drop_first().push(x));
        lemma_string_views_push(s.drop_first(), x);
        assert(string_views(s.push(x)) =~= string_views(s) + seq![x@]);
    }
}

proof fn lemma_field_model_views_push(s: Seq<FieldModel>, x: FieldModel)
    ensures
        field_model_views(s.push(x)) == field_model_views(s) + seq![field_model_view(x)],
    decreases s.len(),
{
    if s.len() == 0 {
        reveal_with_fuel(field_model_views, 3);
        assert(s.push(x).drop_first() =~= Seq::<FieldModel>::empty());
        assert(s.push(x)[0] == x);
        assert(field_model_views(s.push(x)) =~= field_model_views(s) + seq![field_model_view(x)]);
    } else {
        assert(s.push(x)[0] == s[0]);
        assert(s.push(x).drop_first() =~= s.drop_first().push(x));
        lemma_field_model_views_push(s.drop_first(), x);
        assert(field_model_views(s.push(x)) =~= field_model_views(s) + seq![field_model_view(x)]);
    }
}

proof fn lemma_variant_model_views_push(s: Seq<VariantModel>, x: VariantModel)
    ensures
        variant_model_views(s.push(x)) == variant_model_views(s) + seq![variant_model_view(x)],
    decreases s.len(),
{
    if s.len() == 0 {
        reveal_with_fuel(variant_model_views, 3);
        assert(s.push(x).drop_first() =~= Seq::<VariantModel>::empty());
        assert(s.push(x)[0] == x);
        assert(variant_model_views(s.push(x)) =~= variant_model_views(s) + seq![
            variant_model_view(x),
        ]);
    } else {
        assert(s.push(x)[0] == s[0]);
        assert(s.push(x).drop_first() =~= s.drop_first().push(x));
        lemma_variant_model_views_push(s.drop_first(), x);
        assert(variant_model_views(s.push(x)) =~= variant_model_views(s) + seq![
            variant_model_view(x),
        ]);
    }
}

/// Decides [`global_allowed`] executably.
fn is_global_allowed(d: &Directive) -> (b: bool)
    ensures
        b == global_allowed(crate::directive::directive_view(*d)),
{
    match d {
        Directive::Custom(_) => true,
        Directive::Type(_) => true,
        _ => false,
    }
}

proof fn lemma_directive_views_concat(a: Seq<Directive>, b: Seq<Directive>)
    ensures
        directive_views(a + b) == directive_views(a) + directive_views(b),
    decreases a.len(),
{
    if a.len() == 0 {
        assert(a + b =~= b);
        assert(directive_views(a) + directive_views(b) =~= directive_views(b));
    } else {
        assert((a + b)[0] == a[0]);
        assert((a + b).drop_first() =~= a.drop_first() + b);
        lemma_directive_views_concat(a.drop_first(), b);
        assert(directive_views(a + b) =~= directive_views(a) + directive_views(b));
    }
}

// ---------------------------------------------------------------------------
// The executable builder
// ---------------------------------------------------------------------------
/// Splits an attribute list: parses every directive attribute at the given
/// level into one concatenated chain, and collects the other attributes,
/// order preserved, for pass-through.
fn split_attrs(attrs: &Vec<AttrDecl>, is_global: bool) -> (r: Result<
    (Vec<Directive>, Vec<String>),
    GenError,
>)
    ensures
        r matches Ok(p) ==> parse_attr_list_spec(
            directive_attrs_of(attr_decl_views(attrs@)),
            is_global,
        ) == Some(directive_views(p.0@)) && string_views(p.1@) == other_attrs_of(
            attr_decl_views(attrs@),
        ),
        r is Err ==> parse_attr_list_spec(
            directive_attrs_of(attr_decl_views(attrs@)),
            is_global,
        ) is None,
{
    let ghost av = attr_decl_views(attrs@);
    let mut chain: Vec<Directive> = Vec::new();
    let mut others: Vec<String> = Vec::new();
    let mut i: usize = 0;
    proof {
        lemma_attr_decl_views_len(attrs@);
        assert(av.skip(0) =~= av);
        match parse_attr_list_spec(directive_attrs_of(av), is_global) {
            Some(r) => {
                assert(directive_views(chain@) + r =~= r);
            },
            None => {},
        }
        assert(string_views(others@) + other_attrs_of(av) =~= other_attrs_of(av));
    }
    while i < attrs.len()
        invariant
            0 <= i <= attrs@.len(),
            av == attr_decl_views(attrs@),
            av.len() == attrs@.len(),
            parse_attr_list_spec(directive_attrs_of(av), is_global) == crate::directive::prepend_views(
                directive_views(chain@),
                parse_attr_list_spec(directive_attrs_of(av.skip(i as int)), is_global),
            ),
            other_attrs_of(av) == string_views(others@) + other_attrs_of(av.skip(i as int)),
        decreases attrs@.len() - i,
    {
        proof {
            lemma_attr_decl_views_index(attrs@, i as int);
            assert(av.skip(i as int)[0] == av[i as int]);
            assert(av.skip(i as int).drop_first() =~= av.skip(i + 1));
        }
        match &attrs[i] {
            AttrDecl::Other(s) => {
                proof {
                    assert(av.skip(i as int)[0] == AttrDeclView::Other(s@));
                    assert(directive_attrs_of(av.skip(i as int)) =~= directive_attrs_of(
                        av.skip(i + 1),
                    ));
                    assert(other_attrs_of(av.skip(i as int)) =~= seq![s@] + other_attrs_of(
                        av.skip(i + 1),
                    ));
                }
                let ghost others_before = others@;
                others.push(s.clone());
                proof {
                    lemma_string_views_push(others_before, attrs@[i as int]->Other_0);
                    assert((string_views(others_before) + seq![attrs@[i as int]->Other_0@])
                        + other_attrs_of(av.skip(i + 1)) =~= string_views(others_before) + (seq![
                        attrs@[i as int]->Other_0@,
                    ] + other_attrs_of(av.skip(i + 1))));
                }
            },
            AttrDecl::Directive(da) => {
                proof {
                    assert(av.skip(i as int)[0] == AttrDeclView::Directive(da@));
                    assert(directive_attrs_of(av.skip(i as int)) =~= seq![da@]
                        + directive_attrs_of(av.skip(i + 1)));
                    assert((seq![da@] + directive_attrs_of(av.skip(i + 1))).drop_first()
                        =~= directive_attrs_of(av.skip(i + 1)));
                    assert((seq![da@] + directive_attrs_of(av.skip(i + 1)))[0] == da@);
                    assert(other_attrs_of(av.skip(i as int)) =~= other_attrs_of(av.skip(i + 1)));
                }
                let ds = match parse_attr(da, is_global) {
                    Ok(ds) => ds,
                    Err(e) => {
                        proof {
                            assert(parse_attr_list_spec(
                                directive_attrs_of(av.skip(i as int)),
                                is_global,
                            ) is None);
                        }
                        return Err(e);
                    },
                };
                let ghost chain_before = chain@;
                let ghost ds_views = directive_views(ds@);
                let ghost ds_seq = ds@;
                let mut rest = ds;
                chain.append(&mut rest);
                proof {
                    assert(chain@ == chain_before + ds_seq);
                    lemma_directive_views_concat(chain_before, ds_seq);
                    match parse_attr_list_spec(directive_attrs_of(av.skip(i + 1)), is_global) {
                        Some(more) => {
                            assert(parse_attr_list_spec(
                                directive_attrs_of(av.skip(i as int)),
                                is_global,
                            ) == Some(ds_views + more));
                            assert(directive_views(chain_before) + (ds_views + more)
                                =~= directive_views(chain@) + more);
                        },
                        None => {
                            assert(parse_attr_list_spec(
                                directive_attrs_of(av.skip(i as int)),
                                is_global,
                            ) is None);
                        },
                    }
                }
            },
        }
        i += 1;
    }
    proof {
        assert(av.skip(attrs@.len() as int) =~= Seq::<AttrDeclView>::empty());
        assert(string_views(others@) + other_attrs_of(Seq::<AttrDeclView>::empty())
            =~= string_views(others@));
        assert(directive_views(chain@) + Seq::<DirectiveView>::empty() =~= directive_views(
            chain@,
        ));
    }
    Ok((chain, others))
}

/// Builds one field: strips and parses its directive attributes, checks
/// strict mode, and resolves the chain's output type over the declared
/// type.
fn build_field(f: FieldDecl, binding: String, strict: bool) -> (r: Result<FieldModel, GenError>)
    ensures
        r matches Ok(m) ==> build_field_spec(field_decl_view(f), binding@, strict) == Some(m@),
        r is Err ==> build_field_spec(field_decl_view(f), binding@, strict) is None,
{
    let FieldDecl { name: _, vis, attrs, ty } = f;
    let (chain, others) = match split_attrs(&attrs, false) {
        Ok(p) => p,
        Err(e) => {
            return Err(e);
        },
    };
    if strict && chain.len() == 0 {
        proof {
            lemma_directive_views_len(chain@);
        }
        return Err(
            GenError::new("every field must have at least one preprocessor in strict mode"),
        );
    }
    proof {
        lemma_directive_views_len(chain@);
    }
    let declared = ty.duplicate();
    let resolved = match resolve_chain_exec(&chain, ty) {
        Ok(t) => t,
        Err(e) => {
            return Err(e);
        },
    };
    Ok(FieldModel { binding, vis, other_attrs: others, declared, chain, resolved })
}

/// Builds a list of fields in order, deriving each binding name: the
/// field's identifier for named fields, a positional name otherwise.
#[verifier::loop_isolation(false)]
fn build_field_list(fs: Vec<FieldDecl>, named: bool, strict: bool) -> (r: Result<
    Vec<FieldModel>,
    GenError,
>)
    ensures
        r matches Ok(ms) ==> build_field_list_spec(field_decl_views(fs@), 0, named, strict)
            == Some(field_model_views(ms@)),
        r is Err ==> build_field_list_spec(field_decl_views(fs@), 0, named, strict) is None,
{
    let ghost fv = field_decl_views(fs@);
    let mut out: Vec<FieldModel> = Vec::new();
    let mut i: usize = 0;
    let mut rest = fs;
    let total = rest.len();
    proof {
        lemma_field_decl_views_len(rest@);
        assert(fv.skip(0) =~= fv);
        match build_field_list_spec(fv, 0, named, strict) {
            Some(r) => {
                assert(field_model_views(out@) + r =~= r);
            },
            None => {},
        }
    }
    while rest.len() > 0
        invariant
            0 <= i,
            i + rest@.len() == fv.len(),
            fv.len() == total,
            fv.skip(i as int) == field_decl_views(rest@),
            build_field_list_spec(fv, 0, named, strict) == (match build_field_list_spec(
                fv.skip(i as int),
                i as int,
                named,
                strict,
            ) {
                Some(r) => Some(field_model_views(out@) + r),
                None => None,
            }),
        decreases rest@.len(),
    {
        let ghost rest_before = rest@;
        let f = rest.remove(0);
        proof {
            lemma_field_decl_views_len(rest_before);
            lemma_field_decl_views_index(rest_before, 0);
            assert(rest@ =~= rest_before.drop_first());
            assert(fv.skip(i as int)[0] == field_decl_view(f));
            assert(fv.skip(i as int).drop_first() =~= fv.skip(i + 1));
            assert(field_decl_views(rest_before).drop_first() =~= field_decl_views(
                rest_before.drop_first(),
            ));
            assert(field_decl_views(rest@) == fv.skip(i + 1));
        }
        let binding: String = if named {
            match &f.name {
                Some(n) => n.clone(),
                None => {
                    proof {
                        assert(field_decl_view(f).name is None);
                        assert(build_field_list_spec(fv.skip(i as int), i as int, named, strict)
                            is None);
                        assert(build_field_list_spec(fv, 0, named, strict) is None);
                    }
                    return Err(GenError::new("a named field must carry a name"));
                },
            }
        } else {
            let mut b = String::from_str("field_");
            let num = usize_to_string(i);
            b.append(num.as_str());
            b
        };
        let ghost fview = field_decl_view(f);
        let ghost bv = binding@;
        proof {
            if named {
                assert(fview.name == Some(bv));
            } else {
                assert(bv == "field_"@ + dec_str(i as nat));
            }
        }
        let m = match build_field(f, binding, strict) {
            Ok(m) => m,
            Err(e) => {
                proof {
                    assert(build_field_spec(fview, bv, strict) is None);
                    assert(build_field_list_spec(fv.skip(i as int), i as int, named, strict)
                        is None);
                }
                return Err(e);
            },
        };
        let ghost out_before = out@;
        out.push(m);
        proof {
            lemma_field_model_views_push(out_before, m);
            match build_field_list_spec(fv.skip(i + 1), i + 1, named, strict) {
                Some(r) => {
                    assert(build_field_list_spec(fv.skip(i as int), i as int, named, strict)
                        == Some(seq![field_model_view(m)] + r));
                    assert(field_model_views(out_before) + (seq![field_model_view(m)] + r)
                        =~= field_model_views(out@) + r);
                },
                None => {},
            }
        }
        i += 1;
    }
    proof {
        assert(fv.skip(fv.len() as int) =~= Seq::<FieldDeclView>::empty());
        assert(field_model_views(out@) + Seq::<FieldModelView>::empty() =~= field_model_views(
            out@,
        ));
    }
    Ok(out)
}

/// Builds a whole field list, keeping its shape.
fn build_fields(f: FieldsDecl, strict: bool) -> (r: Result<FieldsModel, GenError>)
    ensures
        r matches Ok(m) ==> build_fields_spec(fields_decl_view(f), strict) == Some(
            fields_model_view(m),
        ),
        r is Err ==> build_fields_spec(fields_decl_view(f), strict) is None,
{
    match f {
        FieldsDecl::Unit => Ok(FieldsModel::Unit),
        FieldsDecl::Named(fs) => match build_field_list(fs, true, strict) {
            Ok(ms) => Ok(FieldsModel::Named(ms)),
            Err(e) => Err(e),
        },
        FieldsDecl::Unnamed(fs) => match build_field_list(fs, false, strict) {
            Ok(ms) => Ok(FieldsModel::Unnamed(ms)),
            Err(e) => Err(e),
        },
    }
}

/// Builds the variants of an enum: discriminants are rejected, and variant
/// fields are exempt from strict mode.
#[verifier::loop_isolation(false)]
fn build_variants(vs: Vec<VariantDecl>) -> (r: Result<Vec<VariantModel>, GenError>)
    ensures
        r matches Ok(ms) ==> build_variant_list_spec(variant_decl_views(vs@)) == Some(
            variant_model_views(ms@),
        ),
        r is Err ==> build_variant_list_spec(variant_decl_views(vs@)) is None,
{
    let ghost vv = variant_decl_views(vs@);
    let mut out: Vec<VariantModel> = Vec::new();
    let mut rest = vs;
    let ghost mut i: int = 0;
    proof {
        lemma_variant_decl_views_len(rest@);
        assert(vv.skip(0) =~= vv);
        match build_variant_list_spec(vv) {
            Some(r) => {
                assert(variant_model_views(out@) + r =~= r);
            },
            None => {},
        }
    }
    while rest.len() > 0
        invariant
            0 <= i,
            i + rest@.len() == vv.len(),
            vv.skip(i) == variant_decl_views(rest@),
            build_variant_list_spec(vv) == (match build_variant_list_spec(vv.skip(i)) {
                Some(r) => Some(variant_model_views(out@) + r),
                None => None,
            }),
        decreases rest@.len(),
    {
        let ghost rest_before = rest@;
        let v = rest.remove(0);
        proof {
            lemma_variant_decl_views_len(rest_before);
            lemma_variant_decl_views_index(rest_before, 0);
            assert(rest@ =~= rest_before.drop_first());
            assert(vv.skip(i)[0] == variant_decl_view(v));
            assert(vv.skip(i).drop_first() =~= vv.skip(i + 1));
            assert(variant_decl_views(rest_before).drop_first() =~= variant_decl_views(
                rest_before.drop_first(),
            ));
            assert(variant_decl_views(rest@) == vv.skip(i + 1));
        }
        let ghost vview = variant_decl_view(v);
        if v.has_discriminant {
            proof {
                assert(build_variant_list_spec(vv.skip(i)) is None);
            }
            return Err(GenError::new("processed enums do not support discriminants"));
        }
        let VariantDecl { name, attrs, fields, has_discriminant: _ } = v;
        let ghost fields_view = vview.fields;
        let (chain, others) = match split_attrs(&attrs, false) {
            Ok(p) => p,
            Err(e) => {
                proof {
                    assert(parse_attr_list_spec(directive_attrs_of(vview.attrs), false) is None);
                    assert(build_variant_list_spec(vv.skip(i)) is None);
                }
                return Err(e);
            },
        };
        proof {
            lemma_directive_views_len(chain@);
        }
        if chain.len() > 0 {
            proof {
                assert(build_variant_list_spec(vv.skip(i)) is None);
            }
            return Err(GenError::new("directives are not supported on enum variants"));
        }
        let fm = match build_fields(fields, false) {
            Ok(m) => m,
            Err(e) => {
                proof {
                    assert(build_fields_spec(fields_view, false) is None);
                    assert(build_variant_list_spec(vv.skip(i)) is None);
                }
                return Err(e);
            },
        };
        let m = VariantModel { name, other_attrs: others, fields: fm };
        let ghost out_before = out@;
        out.push(m);
        proof {
            lemma_variant_model_views_push(out_before, m);
            match build_variant_list_spec(vv.skip(i + 1)) {
                Some(r) => {
                    assert(build_variant_list_spec(vv.skip(i)) == Some(
                        seq![variant_model_view(m)] + r,
                    ));
                    assert(variant_model_views(out_before) + (seq![variant_model_view(m)] + r)
                        =~= variant_model_views(out@) + r);
                },
                None => {},
            }
        }
        proof {
            i = i + 1;
        }
    }
    proof {
        assert(vv.skip(vv.len() as int) =~= Seq::<VariantDeclView>::empty());
        assert(variant_model_views(out@) + Seq::<VariantModelView>::empty() =~= variant_model_views(
            out@,
        ));
    }
    Ok(out)
}

/// Builds the whole record model: the body first, then the record-level
/// chain, which only admits the custom and type-coercion directives; any
/// other directive at record level is a semantic error.
#[verifier::loop_isolation(false)]
pub fn build_record(d: RecordDecl, strict: bool) -> (r: Result<RecordModel, GenError>)
    ensures
        r matches Ok(m) ==> build_record_spec(record_decl_view(d), strict) == Some(m@),
        r is Err ==> build_record_spec(record_decl_view(d), strict) is None,
{
    let RecordDecl { name, vis, attrs, generics, body } = d;
    let built_body = match body {
        RecordBody::Struct(f) => match build_fields(f, strict) {
            Ok(m) => BodyModel::Struct(m),
            Err(e) => {
                return Err(e);
            },
        },
        RecordBody::Enum(vs) => match build_variants(vs) {
            Ok(ms) => BodyModel::Enum(ms),
            Err(e) => {
                return Err(e);
            },
        },
    };
    let (global, others) = match split_attrs(&attrs, true) {
        Ok(p) => p,
        Err(e) => {
            return Err(e);
        },
    };
    let ghost gv = directive_views(global@);
    let mut k: usize = 0;
    proof {
        lemma_directive_views_len(global@);
    }
    while k < global.len()
        invariant
            0 <= k <= global@.len(),
            gv == directive_views(global@),
            gv.len() == global@.len(),
            forall|j: int| 0 <= j < k ==> global_allowed(#[trigger] gv[j]),
        decreases global@.len() - k,
    {
        proof {
            lemma_directive_views_index(global@, k as int);
        }
        if !is_global_allowed(&global[k]) {
            proof {
                assert(parse_attr_list_spec(directive_attrs_of(attr_decl_views(attrs@)), true)
                    == Some(gv));
                assert((k as int) < gv.len());
                assert(!global_allowed(gv[k as int]));
                assert(build_global_spec(attr_decl_views(attrs@)) is None);
            }
            return Err(
                GenError::new("this directive must be attached to a field, not the whole type"),
            );
        }
        k += 1;
    }
    Ok(RecordModel { name, vis, other_attrs: others, generics, global, body: built_body })
}

} // verus!
