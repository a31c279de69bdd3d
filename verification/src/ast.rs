//! The typed model of an annotated record declaration, as the generator
//! receives it: the host's parser has already tokenized the item, and the
//! generator only reads its field list, attributes and type annotations.

use vstd::prelude::*;

verus! {

/// The value on the right side of a `name = value` attribute entry.
pub enum ArgValue {
    /// A non-negative integer literal.
    IntLit(u64),
    /// A string literal.
    StrLit(String),
    /// A bare path, as in `type = SomeName`.
    PathName(String),
    /// Any other expression; always rejected where a literal is required.
    Opaque,
}

/// One entry of a parenthesized attribute list, mirroring the shapes a
/// structured attribute grammar offers: a bare name, a `name = value` pair,
/// or a `name(...)` nested list.
pub enum MetaItem {
    /// A bare name, as in `email`.
    Word { name: String },
    /// A `name = value` pair, as in `length = 5`.
    Assign { name: String, value: ArgValue },
    /// A `name(...)` nested list, as in `length(min = 1, max = 10)`.
    Call { name: String, args: Vec<MetaItem> },
}

/// One occurrence of the directive attribute on a field or on the record.
pub enum DirectiveAttr {
    /// The bare attribute with no parenthesized arguments.
    Marker,
    /// The attribute with a parenthesized, comma-separated argument list.
    ArgList(Vec<MetaItem>),
}

/// One attribute on a field or record: either a directive attribute, or any
/// other attribute kept as its verbatim text and passed through unchanged.
pub enum AttrDecl {
    /// A directive attribute, to be parsed and stripped.
    Directive(DirectiveAttr),
    /// Any other attribute, passed through verbatim.
    Other(String),
}

/// A type expression, kept structured so that synthesized types are valid by
/// construction and only user-written text needs checking.
pub enum TypeExpr {
    /// A type as the user wrote it, e.g. `String` or `std::net::IpAddr`.
    Named(String),
    /// The copy-on-write string type the case and trim mutators produce.
    CowStr,
    /// The URL value type.
    UrlType,
    /// The three IP address value types.
    Ipv4Type,
    Ipv6Type,
    IpAnyType,
    /// An optional wrapping of an inner type.
    Opt(Box<TypeExpr>),
    /// The generated sibling of a named record: the name plus the fixed
    /// suffix.
    Processed(String),
}

/// One field of a record: its name (absent for positional fields), its
/// attributes in declaration order, and its declared type.
pub struct FieldDecl {
    /// The field's identifier; `None` for positional fields.
    pub name: Option<String>,
    /// The field's visibility, passed through verbatim (empty for private).
    pub vis: String,
    /// The field's attributes, in declaration order.
    pub attrs: Vec<AttrDecl>,
    /// The field's declared type.
    pub ty: TypeExpr,
}

/// The three shapes a field list can take.
pub enum FieldsDecl {
    /// No fields at all.
    Unit,
    /// Named fields in braces.
    Named(Vec<FieldDecl>),
    /// Positional fields in parentheses.
    Unnamed(Vec<FieldDecl>),
}

/// One variant of an enum declaration.
pub struct VariantDecl {
    /// The variant's name.
    pub name: String,
    /// The variant's attributes, in declaration order.
    pub attrs: Vec<AttrDecl>,
    /// The variant's fields.
    pub fields: FieldsDecl,
    /// Whether the variant carries an explicit discriminant; processed
    /// enums reject discriminants.
    pub has_discriminant: bool,
}

/// The body of a record declaration: a struct's fields or an enum's
/// variants.
pub enum RecordBody {
    Struct(FieldsDecl),
    Enum(Vec<VariantDecl>),
}

/// A whole annotated record declaration, the unit of one generation run.
pub struct RecordDecl {
    /// The record's name.
    pub name: String,
    /// The record's visibility, passed through verbatim.
    pub vis: String,
    /// The record's attributes, in declaration order; directive attributes
    /// among them form the record-level chain.
    pub attrs: Vec<AttrDecl>,
    /// The record's generics, passed through verbatim (empty for none).
    pub generics: String,
    /// The record's body.
    pub body: RecordBody,
}

} // verus!
