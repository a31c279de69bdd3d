//! The type-transition rules of the directive catalog: each directive maps
//! the field's current type to the type its output has, and a whole chain is
//! resolved by folding that mapping from left to right over the declared
//! type.

use vstd::prelude::*;
use vstd::string::*;
use crate::ast::TypeExpr;
use crate::directive::{
    directive_view, directive_views, lemma_directive_views_index, lemma_directive_views_len,
    Directive, DirectiveView, GenError, IpPreprocessorType,
};
use crate::text::str_eq;

verus! {

/// The mathematical form of a type expression.
pub enum TypeExprView {
    Named(Seq<char>),
    CowStr,
    UrlType,
    Ipv4Type,
    Ipv6Type,
    IpAnyType,
    Opt(Box<TypeExprView>),
    Processed(Seq<char>),
}

/// The view of a type expression.
pub open spec fn type_expr_view(t: TypeExpr) -> TypeExprView
    decreases t,
{
    match t {
        TypeExpr::Named(s) => TypeExprView::Named(s@),
        TypeExpr::CowStr => TypeExprView::CowStr,
        TypeExpr::UrlType => TypeExprView::UrlType,
        TypeExpr::Ipv4Type => TypeExprView::Ipv4Type,
        TypeExpr::Ipv6Type => TypeExprView::Ipv6Type,
        TypeExpr::IpAnyType => TypeExprView::IpAnyType,
        TypeExpr::Opt(inner) => TypeExprView::Opt(Box::new(type_expr_view(*inner))),
        TypeExpr::Processed(s) => TypeExprView::Processed(s@),
    }
}

impl View for TypeExpr {
    type V = TypeExprView;

    open spec fn view(&self) -> TypeExprView {
        type_expr_view(*self)
    }
}

impl TypeExpr {
    /// Copies a type expression.
    pub fn duplicate(&self) -> (r: TypeExpr)
        ensures
            r@ == self@,
        decreases self,
    {
        match self {
            TypeExpr::Named(s) => TypeExpr::Named(s.clone()),
            TypeExpr::CowStr => TypeExpr::CowStr,
            TypeExpr::UrlType => TypeExpr::UrlType,
            TypeExpr::Ipv4Type => TypeExpr::Ipv4Type,
            TypeExpr::Ipv6Type => TypeExpr::Ipv6Type,
            TypeExpr::IpAnyType => TypeExpr::IpAnyType,
            TypeExpr::Opt(inner) => TypeExpr::Opt(Box::new(inner.duplicate())),
            TypeExpr::Processed(s) => TypeExpr::Processed(s.clone()),
        }
    }
}

/// Whether a character may appear in an identifier.
pub open spec fn is_ident_char(c: char) -> bool {
    ('a' <= c && c <= 'z') || ('A' <= c && c <= 'Z') || ('0' <= c && c <= '9') || c == '_'
}

/// Whether a character may start an identifier.
pub open spec fn is_ident_start(c: char) -> bool {
    ('a' <= c && c <= 'z') || ('A' <= c && c <= 'Z') || c == '_'
}

/// Whether a text is a plain identifier, as the derived sibling name of a
/// nested record must be.
pub open spec fn valid_ident(s: Seq<char>) -> bool {
    &&& s.len() > 0
    &&& is_ident_start(s[0])
    &&& forall|k: int| 0 < k < s.len() ==> is_ident_char(#[trigger] s[k])
}

/// Whether a character may appear in a written type expression: identifier
/// characters, path separators, generics brackets, commas, spaces,
/// lifetimes and references.
pub open spec fn is_type_char(c: char) -> bool {
    is_ident_char(c) || c == ':' || c == '<' || c == '>' || c == ',' || c == ' ' || c == '\''
        || c == '&'
}

/// Whether a text is accepted as a type expression: nonempty, starting with
/// an identifier character, a path separator or a reference, and made of
/// type characters throughout.  A `type = ...` argument that fails this
/// check fails generation with a synthesis diagnostic.
pub open spec fn valid_type_text(s: Seq<char>) -> bool {
    &&& s.len() > 0
    &&& (is_ident_start(s[0]) || s[0] == ':' || s[0] == '&')
    &&& forall|k: int| 0 <= k < s.len() ==> is_type_char(#[trigger] s[k])
}

fn is_ident_char_exec(c: char) -> (b: bool)
    ensures
        b == is_ident_char(c),
{
    ('a' <= c && c <= 'z') || ('A' <= c && c <= 'Z') || ('0' <= c && c <= '9') || c == '_'
}

fn is_ident_start_exec(c: char) -> (b: bool)
    ensures
        b == is_ident_start(c),
{
    ('a' <= c && c <= 'z') || ('A' <= c && c <= 'Z') || c == '_'
}

/// Decides [`valid_ident`] executably.
pub fn check_ident(s: &str) -> (b: bool)
    ensures
        b == valid_ident(s@),
{
    let len = s.unicode_len();
    if len == 0 {
        return false;
    }
    if !is_ident_start_exec(s.get_char(0)) {
        return false;
    }
    let mut i: usize = 1;
    while i < len
        invariant
            1 <= i <= len,
            len == s@.len(),
            forall|k: int| 0 < k < i ==> is_ident_char(#[trigger] s@[k]),
        decreases len - i,
    {
        if !is_ident_char_exec(s.get_char(i)) {
            return false;
        }
        i += 1;
    }
    true
}

/// Decides [`valid_type_text`] executably.
pub fn check_type_text(s: &str) -> (b: bool)
    ensures
        b == valid_type_text(s@),
{
    let len = s.unicode_len();
    if len == 0 {
        return false;
    }
    let c0 = s.get_char(0);
    if !(is_ident_start_exec(c0) || c0 == ':' || c0 == '&') {
        return false;
    }
    let mut i: usize = 0;
    while i < len
        invariant
            0 <= i <= len,
            len == s@.len(),
            forall|k: int| 0 <= k < i ==> is_type_char(#[trigger] s@[k]),
        decreases len - i,
    {
        let c = s.get_char(i);
        if !(is_ident_char_exec(c) || c == ':' || c == '<' || c == '>' || c == ',' || c == ' ' || c
            == '\'' || c == '&') {
            return false;
        }
        i += 1;
    }
    true
}

/// The catalog's type-transition rule: the type a field has after one
/// directive is applied to a field of the given type, or `None` when the
/// directive cannot apply there (a nested directive on a type that is not a
/// plain name, an optional chain on a type that is not optional, or a
/// `type = ...` argument that is not a type expression).
pub open spec fn transition(d: DirectiveView, t: TypeExprView) -> Option<TypeExprView>
    decreases d,
{
    match d {
        DirectiveView::NoOp => Some(t),
        DirectiveView::Email => Some(t),
        DirectiveView::Domain => Some(t),
        DirectiveView::Length { .. } => Some(t),
        DirectiveView::Range { .. } => Some(t),
        DirectiveView::Contains(_) => Some(t),
        DirectiveView::DoesNotContain(_) => Some(t),
        DirectiveView::Custom(_) => Some(t),
        DirectiveView::Regex(_) => Some(t),
        DirectiveView::Url => Some(TypeExprView::UrlType),
        DirectiveView::Ip(IpPreprocessorType::V4) => Some(TypeExprView::Ipv4Type),
        DirectiveView::Ip(IpPreprocessorType::V6) => Some(TypeExprView::Ipv6Type),
        DirectiveView::Ip(IpPreprocessorType::Any) => Some(TypeExprView::IpAnyType),
        DirectiveView::Trim => Some(TypeExprView::CowStr),
        DirectiveView::Lowercase => Some(TypeExprView::CowStr),
        DirectiveView::Uppercase => Some(TypeExprView::CowStr),
        DirectiveView::Nested => match t {
            TypeExprView::Named(n) => if valid_ident(n) {
                Some(TypeExprView::Processed(n))
            } else {
                None
            },
            _ => None,
        },
        DirectiveView::Type(s) => if valid_type_text(s) {
            Some(TypeExprView::Named(s))
        } else {
            None
        },
        DirectiveView::Optional(chain) => match t {
            TypeExprView::Opt(inner) => match resolve_chain(chain, *inner) {
                Some(out) => Some(TypeExprView::Opt(Box::new(out))),
                None => None,
            },
            _ => None,
        },
    }
}

/// The resolved output type of a whole chain: the left fold of
/// [`transition`] over the chain, starting from the declared type.
pub open spec fn resolve_chain(chain: Seq<DirectiveView>, t: TypeExprView) -> Option<TypeExprView>
    decreases chain,
{
    if chain.len() == 0 {
        Some(t)
    } else {
        match transition(chain[0], t) {
            Some(t2) => resolve_chain(chain.drop_first(), t2),
            None => None,
        }
    }
}

/// Applies one directive's type transition executably.
pub fn apply_transition(d: &Directive, t: TypeExpr) -> (r: Result<TypeExpr, GenError>)
    ensures
        r matches Ok(t2) ==> transition(d@, t@) == Some(t2@),
        r is Err ==> transition(d@, t@) is None,
    decreases *d,
{
    match d {
        Directive::NoOp => Ok(t),
        Directive::Email => Ok(t),
        Directive::Domain => Ok(t),
        Directive::Length { .. } => Ok(t),
        Directive::Range { .. } => Ok(t),
        Directive::Contains(_) => Ok(t),
        Directive::DoesNotContain(_) => Ok(t),
        Directive::Custom(_) => Ok(t),
        Directive::Regex(_) => Ok(t),
        Directive::Url => Ok(TypeExpr::UrlType),
        Directive::Ip(kind) => match kind {
            IpPreprocessorType::V4 => Ok(TypeExpr::Ipv4Type),
            IpPreprocessorType::V6 => Ok(TypeExpr::Ipv6Type),
            IpPreprocessorType::Any => Ok(TypeExpr::IpAnyType),
        },
        Directive::Trim => Ok(TypeExpr::CowStr),
        Directive::Lowercase => Ok(TypeExpr::CowStr),
        Directive::Uppercase => Ok(TypeExpr::CowStr),
        Directive::Nested => match t {
            TypeExpr::Named(n) => {
                if check_ident(n.as_str()) {
                    Ok(TypeExpr::Processed(n))
                } else {
                    Err(
                        GenError::new(
                            "a nested directive needs a field whose type is a plain name",
                        ),
                    )
                }
            },
            _ => Err(GenError::new("a nested directive needs a field whose type is a plain name")),
        },
        Directive::Type(s) => {
            if check_type_text(s.as_str()) {
                Ok(TypeExpr::Named(s.clone()))
            } else {
                Err(GenError::around("`", s.as_str(), "` is not a valid type expression"))
            }
        },
        Directive::Optional(chain) => match t {
            TypeExpr::Opt(inner) => match resolve_chain_exec(chain, *inner) {
                Ok(out) => Ok(TypeExpr::Opt(Box::new(out))),
                Err(e) => Err(e),
            },
            _ => Err(GenError::new("an optional chain needs a field of an optional type")),
        },
    }
}

/// Resolves a whole chain's output type executably: the left fold of
/// [`apply_transition`] over the chain.
pub fn resolve_chain_exec(chain: &Vec<Directive>, t: TypeExpr) -> (r: Result<TypeExpr, GenError>)
    ensures
        r matches Ok(t2) ==> resolve_chain(directive_views(chain@), t@) == Some(t2@),
        r is Err ==> resolve_chain(directive_views(chain@), t@) is None,
    decreases chain,
{
    let ghost full = directive_views(chain@);
    proof {
        lemma_directive_views_len(chain@);
    }
    let mut current = t;
    let mut i: usize = 0;
    proof {
        assert(full.skip(0) =~= full);
    }
    while i < chain.len()
        invariant
            0 <= i <= chain@.len(),
            full == directive_views(chain@),
            full.len() == chain@.len(),
            resolve_chain(full, t@) == resolve_chain(full.skip(i as int), current@),
        decreases chain@.len() - i,
    {
        proof {
            lemma_directive_views_index(chain@, i as int);
            assert(full.skip(i as int)[0] == full[i as int]);
            assert(full.skip(i as int).drop_first() =~= full.skip(i + 1));
            assert(decreases_to!(chain => chain@[i as int]));
        }
        current = match apply_transition(&chain[i], current) {
            Ok(t2) => t2,
            Err(e) => {
                return Err(e);
            },
        };
        i += 1;
    }
    proof {
        assert(full.skip(chain@.len() as int) =~= Seq::<DirectiveView>::empty());
    }
    Ok(current)
}

} // verus!
