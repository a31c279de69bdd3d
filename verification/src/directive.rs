//! The directive vocabulary and its grammar: one structured attribute entry
//! is parsed into one strongly typed directive, validating argument shapes,
//! rejecting duplicate or missing arguments, and checking a regex literal by
//! compiling it at generation time.

use vstd::prelude::*;
use vstd::string::*;
use crate::ast::{ArgValue, DirectiveAttr, MetaItem};
use crate::text::str_eq;
use crate::validators::regex::{regex_pattern_valid, regex_valid};

verus! {

/// Which family of IP address an `ip` directive validates.
#[derive(Debug, Clone, Copy, PartialEq, Eq, Structural)]
pub enum IpPreprocessorType {
    V4,
    V6,
    Any,
}

/// One processing step requested for a field or for a whole record.
#[derive(Debug)]
pub enum Directive {
    /// The explicit no-op.
    NoOp,
    /// Applies an inner chain to the content of an optional value.
    Optional(Vec<Directive>),
    /// The validators.
    Email,
    Domain,
    Url,
    Length { min: Option<u64>, max: Option<u64>, equal: Option<u64> },
    Range { min: Option<u64>, max: Option<u64> },
    Contains(String),
    DoesNotContain(String),
    Custom(String),
    Regex(String),
    Nested,
    Type(String),
    Ip(IpPreprocessorType),
    /// The mutators.
    Trim,
    Lowercase,
    Uppercase,
}

/// The mathematical form of a directive, with text as character sequences.
pub enum DirectiveView {
    NoOp,
    Optional(Seq<DirectiveView>),
    Email,
    Domain,
    Url,
    Length { min: Option<u64>, max: Option<u64>, equal: Option<u64> },
    Range { min: Option<u64>, max: Option<u64> },
    Contains(Seq<char>),
    DoesNotContain(Seq<char>),
    Custom(Seq<char>),
    Regex(Seq<char>),
    Nested,
    Type(Seq<char>),
    Ip(IpPreprocessorType),
    Trim,
    Lowercase,
    Uppercase,
}

/// The views of a list of directives, element by element.
pub open spec fn directive_views(ds: Seq<Directive>) -> Seq<DirectiveView>
    decreases ds,
{
    if ds.len() == 0 {
        Seq::empty()
    } else {
        seq![directive_view(ds[0])] + directive_views(ds.drop_first())
    }
}

/// The view of one directive.
pub open spec fn directive_view(d: Directive) -> DirectiveView
    decreases d,
{
    match d {
        Directive::NoOp => DirectiveView::NoOp,
        Directive::Optional(inner) => DirectiveView::Optional(directive_views(inner@)),
        Directive::Email => DirectiveView::Email,
        Directive::Domain => DirectiveView::Domain,
        Directive::Url => DirectiveView::Url,
        Directive::Length { min, max, equal } => DirectiveView::Length { min, max, equal },
        Directive::Range { min, max } => DirectiveView::Range { min, max },
        Directive::Contains(s) => DirectiveView::Contains(s@),
        Directive::DoesNotContain(s) => DirectiveView::DoesNotContain(s@),
        Directive::Custom(s) => DirectiveView::Custom(s@),
        Directive::Regex(s) => DirectiveView::Regex(s@),
        Directive::Nested => DirectiveView::Nested,
        Directive::Type(s) => DirectiveView::Type(s@),
        Directive::Ip(k) => DirectiveView::Ip(k),
        Directive::Trim => DirectiveView::Trim,
        Directive::Lowercase => DirectiveView::Lowercase,
        Directive::Uppercase => DirectiveView::Uppercase,
    }
}

impl View for Directive {
    type V = DirectiveView;

    open spec fn view(&self) -> DirectiveView {
        directive_view(*self)
    }
}

/// The mathematical form of an attribute argument value.
pub enum ArgValueView {
    IntLit(u64),
    StrLit(Seq<char>),
    PathName(Seq<char>),
    Opaque,
}

impl View for ArgValue {
    type V = ArgValueView;

    open spec fn view(&self) -> ArgValueView {
        match *self {
            ArgValue::IntLit(n) => ArgValueView::IntLit(n),
            ArgValue::StrLit(s) => ArgValueView::StrLit(s@),
            ArgValue::PathName(s) => ArgValueView::PathName(s@),
            ArgValue::Opaque => ArgValueView::Opaque,
        }
    }
}

/// The mathematical form of an attribute entry.
pub enum MetaItemView {
    Word { name: Seq<char> },
    Assign { name: Seq<char>, value: ArgValueView },
    Call { name: Seq<char>, args: Seq<MetaItemView> },
}

/// The views of a list of attribute entries, element by element.
pub open spec fn meta_item_views(items: Seq<MetaItem>) -> Seq<MetaItemView>
    decreases items,
{
    if items.len() == 0 {
        Seq::empty()
    } else {
        seq![meta_item_view(items[0])] + meta_item_views(items.drop_first())
    }
}

/// The view of one attribute entry.
pub open spec fn meta_item_view(m: MetaItem) -> MetaItemView
    decreases m,
{
    match m {
        MetaItem::Word { name } => MetaItemView::Word { name: name@ },
        MetaItem::Assign { name, value } => MetaItemView::Assign { name: name@, value: value@ },
        MetaItem::Call { name, args } => MetaItemView::Call {
            name: name@,
            args: meta_item_views(args@),
        },
    }
}

impl View for MetaItem {
    type V = MetaItemView;

    open spec fn view(&self) -> MetaItemView {
        meta_item_view(*self)
    }
}

/// The mathematical form of a directive attribute occurrence.
pub enum DirectiveAttrView {
    Marker,
    ArgList(Seq<MetaItemView>),
}

impl View for DirectiveAttr {
    type V = DirectiveAttrView;

    open spec fn view(&self) -> DirectiveAttrView {
        match *self {
            DirectiveAttr::Marker => DirectiveAttrView::Marker,
            DirectiveAttr::ArgList(items) => DirectiveAttrView::ArgList(meta_item_views(items@)),
        }
    }
}

/// Folds the named arguments of a `length(...)` entry, rejecting duplicates,
/// unknown names and values that are not non-negative integer literals.
pub open spec fn fold_length_args(
    args: Seq<MetaItemView>,
    min: Option<u64>,
    max: Option<u64>,
    equal: Option<u64>,
) -> Option<(Option<u64>, Option<u64>, Option<u64>)>
    decreases args.len(),
{
    if args.len() == 0 {
        Some((min, max, equal))
    } else {
        match args[0] {
            MetaItemView::Assign { name, value } => {
                if name == "min"@ {
                    match value {
                        ArgValueView::IntLit(n) => if min is Some {
                            None
                        } else {
                            fold_length_args(args.drop_first(), Some(n), max, equal)
                        },
                        _ => None,
                    }
                } else if name == "max"@ {
                    match value {
                        ArgValueView::IntLit(n) => if max is Some {
                            None
                        } else {
                            fold_length_args(args.drop_first(), min, Some(n), equal)
                        },
                        _ => None,
                    }
                } else if name == "equal"@ {
                    match value {
                        ArgValueView::IntLit(n) => if equal is Some {
                            None
                        } else {
                            fold_length_args(args.drop_first(), min, max, Some(n))
                        },
                        _ => None,
                    }
                } else {
                    None
                }
            },
            _ => None,
        }
    }
}

/// Folds the named arguments of a `range(...)` entry, rejecting duplicates,
/// unknown names and values that are not non-negative integer literals.
pub open spec fn fold_range_args(
    args: Seq<MetaItemView>,
    min: Option<u64>,
    max: Option<u64>,
) -> Option<(Option<u64>, Option<u64>)>
    decreases args.len(),
{
    if args.len() == 0 {
        Some((min, max))
    } else {
        match args[0] {
            MetaItemView::Assign { name, value } => {
                if name == "min"@ {
                    match value {
                        ArgValueView::IntLit(n) => if min is Some {
                            None
                        } else {
                            fold_range_args(args.drop_first(), Some(n), max)
                        },
                        _ => None,
                    }
                } else if name == "max"@ {
                    match value {
                        ArgValueView::IntLit(n) => if max is Some {
                            None
                        } else {
                            fold_range_args(args.drop_first(), min, Some(n))
                        },
                        _ => None,
                    }
                } else {
                    None
                }
            },
            _ => None,
        }
    }
}

/// The directive one attribute entry denotes, or `None` when the entry is
/// rejected: an unknown name, a malformed argument shape, a duplicate named
/// argument, a bound list with no recognized argument, or an invalid regex
/// literal.
pub open spec fn directive_of(m: MetaItemView) -> Option<DirectiveView>
    decreases m,
{
    match m {
        MetaItemView::Word { name } => {
            if name == "none"@ {
                Some(DirectiveView::NoOp)
            } else if name == "email"@ {
                Some(DirectiveView::Email)
            } else if name == "domain"@ {
                Some(DirectiveView::Domain)
            } else if name == "url"@ {
                Some(DirectiveView::Url)
            } else if name == "nested"@ {
                Some(DirectiveView::Nested)
            } else if name == "trim"@ {
                Some(DirectiveView::Trim)
            } else if name == "lowercase"@ {
                Some(DirectiveView::Lowercase)
            } else if name == "uppercase"@ {
                Some(DirectiveView::Uppercase)
            } else if name == "length"@ {
                Some(DirectiveView::Length { min: Some(0u64), max: None, equal: None })
            } else if name == "ip"@ {
                Some(DirectiveView::Ip(IpPreprocessorType::Any))
            } else {
                None
            }
        },
        MetaItemView::Assign { name, value } => {
            if name == "length"@ {
                match value {
                    ArgValueView::IntLit(n) => Some(
                        DirectiveView::Length { min: None, max: None, equal: Some(n) },
                    ),
                    _ => None,
                }
            } else if name == "contains"@ {
                match value {
                    ArgValueView::StrLit(s) => Some(DirectiveView::Contains(s)),
                    _ => None,
                }
            } else if name == "does_not_contain"@ {
                match value {
                    ArgValueView::StrLit(s) => Some(DirectiveView::DoesNotContain(s)),
                    _ => None,
                }
            } else if name == "custom"@ {
                match value {
                    ArgValueView::StrLit(s) => Some(DirectiveView::Custom(s)),
                    _ => None,
                }
            } else if name == "regex"@ {
                match value {
                    ArgValueView::StrLit(s) => if regex_valid(s) {
                        Some(DirectiveView::Regex(s))
                    } else {
                        None
                    },
                    _ => None,
                }
            } else if name == "type"@ {
                match value {
                    ArgValueView::StrLit(s) => Some(DirectiveView::Type(s)),
                    ArgValueView::PathName(s) => Some(DirectiveView::Type(s)),
                    _ => None,
                }
            } else {
                None
            }
        },
        MetaItemView::Call { name, args } => {
            if name == "optional"@ {
                match directives_of(args) {
                    Some(inner) => Some(DirectiveView::Optional(inner)),
                    None => None,
                }
            } else if name == "ip"@ {
                if args.len() == 1 && (args[0] matches MetaItemView::Word { name: arg } && arg
                    == "v4"@) {
                    Some(DirectiveView::Ip(IpPreprocessorType::V4))
                } else if args.len() == 1 && (args[0] matches MetaItemView::Word { name: arg }
                    && arg == "v6"@) {
                    Some(DirectiveView::Ip(IpPreprocessorType::V6))
                } else {
                    None
                }
            } else if name == "length"@ {
                match fold_length_args(args, None, None, None) {
                    Some((min, max, equal)) => if min is None && max is None && equal is None {
                        None
                    } else {
                        Some(DirectiveView::Length { min, max, equal })
                    },
                    None => None,
                }
            } else if name == "range"@ {
                match fold_range_args(args, None, None) {
                    Some((min, max)) => if min is None && max is None {
                        None
                    } else {
                        Some(DirectiveView::Range { min, max })
                    },
                    None => None,
                }
            } else {
                None
            }
        },
    }
}

/// The directives a whole entry list denotes, entry by entry; `None` as soon
/// as one entry is rejected.
pub open spec fn directives_of(items: Seq<MetaItemView>) -> Option<Seq<DirectiveView>>
    decreases items,
{
    if items.len() == 0 {
        Some(Seq::empty())
    } else {
        match directive_of(items[0]) {
            Some(d) => match directives_of(items.drop_first()) {
                Some(rest) => Some(seq![d] + rest),
                None => None,
            },
            None => None,
        }
    }
}

/// The directives one whole attribute occurrence denotes.  A bare attribute
/// is shorthand for a single nested directive at field level, and rejected
/// at record level, where occurrences must carry explicit directive names.
pub open spec fn attr_directives(a: DirectiveAttrView, is_global: bool) -> Option<
    Seq<DirectiveView>,
> {
    match a {
        DirectiveAttrView::Marker => if is_global {
            None
        } else {
            Some(seq![DirectiveView::Nested])
        },
        DirectiveAttrView::ArgList(items) => directives_of(items),
    }
}

/// A generation-time diagnostic: the first error encountered aborts the
/// generation run and is surfaced as its sole output.
#[derive(Debug)]
pub struct GenError {
    /// The diagnostic text.
    pub message: String,
}

impl GenError {
    /// Creates a diagnostic from a fixed message.
    pub fn new(message: &str) -> (e: GenError)
        ensures
            e.message@ == message@,
    {
        GenError { message: String::from_str(message) }
    }

    /// Creates a diagnostic of the form `<before><name><after>`, quoting the
    /// offending name.
    pub fn around(before: &str, name: &str, after: &str) -> (e: GenError)
        ensures
            e.message@ == before@ + name@ + after@,
    {
        let mut m = String::from_str(before);
        m.append(name);
        m.append(after);
        GenError { message: m }
    }
}

/// Prepends an already parsed prefix to the outcome of parsing the rest.
pub open spec fn prepend_views(
    prefix: Seq<DirectiveView>,
    rest: Option<Seq<DirectiveView>>,
) -> Option<Seq<DirectiveView>> {
    match rest {
        Some(r) => Some(prefix + r),
        None => None,
    }
}

/// The element-wise view of a directive list has the same length.
pub proof fn lemma_directive_views_len(s: Seq<Directive>)
    ensures
        directive_views(s).len() == s.len(),
    decreases s.len(),
{
    if s.len() > 0 {
        lemma_directive_views_len(s.drop_first());
    }
}

/// The element-wise view of a directive list views each element.
pub proof fn lemma_directive_views_index(s: Seq<Directive>, i: int)
    requires
        0 <= i < s.len(),
    ensures
        directive_views(s).len() == s.len(),
        directive_views(s)[i] == directive_view(s[i]),
    decreases s.len(),
{
    lemma_directive_views_len(s);
    if i > 0 {
        lemma_directive_views_index(s.drop_first(), i - 1);
    }
}

proof fn lemma_directive_views_push(s: Seq<Directive>, d: Directive)
    ensures
        directive_views(s.push(d)) == directive_views(s) + seq![directive_view(d)],
    decreases s.len(),
{
    if s.len() == 0 {
        reveal_with_fuel(directive_views, 3);
        assert(s.push(d).drop_first() =~= Seq::<Directive>::empty());
        assert(s.push(d)[0] == d);
        assert(directive_views(s.push(d)) =~= directive_views(s) + seq![directive_view(d)]);
    } else {
        assert(s.push(d)[0] == s[0]);
        assert(s.push(d).drop_first() =~= s.drop_first().push(d));
        lemma_directive_views_push(s.drop_first(), d);
        assert(directive_views(s.push(d)) =~= directive_views(s) + seq![directive_view(d)]);
    }
}

proof fn lemma_meta_item_views_index(s: Seq<MetaItem>, i: int)
    requires
        0 <= i < s.len(),
    ensures
        meta_item_views(s).len() == s.len(),
        meta_item_views(s)[i] == meta_item_view(s[i]),
    decreases s.len(),
{
    lemma_meta_item_views_len(s);
    if i > 0 {
        lemma_meta_item_views_index(s.drop_first(), i - 1);
    }
}

proof fn lemma_meta_item_views_len(s: Seq<MetaItem>)
    ensures
        meta_item_views(s).len() == s.len(),
    decreases s.len(),
{
    if s.len() > 0 {
        lemma_meta_item_views_len(s.drop_first());
    }
}

/// Parses the comma-separated arguments of a `length(...)` entry.
fn parse_length_args(args: &Vec<MetaItem>) -> (r: Result<
    (Option<u64>, Option<u64>, Option<u64>),
    GenError,
>)
    ensures
        r matches Ok(b) ==> fold_length_args(meta_item_views(args@), None, None, None) == Some(b),
        r is Err ==> fold_length_args(meta_item_views(args@), None, None, None) is None,
{
    let ghost full = meta_item_views(args@);
    let mut min: Option<u64> = None;
    let mut max: Option<u64> = None;
    let mut equal: Option<u64> = None;
    let mut i: usize = 0;
    proof {
        lemma_meta_item_views_len(args@);
        assert(full.skip(0) =~= full);
    }
    while i < args.len()
        invariant
            0 <= i <= args@.len(),
            full == meta_item_views(args@),
            full.len() == args@.len(),
            fold_length_args(full, None, None, None) == fold_length_args(
                full.skip(i as int),
                min,
                max,
                equal,
            ),
        decreases args@.len() - i,
    {
        proof {
            lemma_meta_item_views_index(args@, i as int);
            assert(full.skip(i as int)[0] == full[i as int]);
            assert(full.skip(i as int).drop_first() =~= full.skip(i + 1));
        }
        match &args[i] {
            MetaItem::Assign { name, value } => {
                let int_value: Option<u64> = match value {
                    ArgValue::IntLit(n) => Some(*n),
                    _ => None,
                };
                let Some(n) = int_value else {
                    return Err(
                        GenError::new("expected a non-negative integer literal as the argument"),
                    );
                };
                if str_eq(name.as_str(), "min") {
                    if min.is_some() {
                        return Err(GenError::new("duplicate argument `min`"));
                    }
                    min = Some(n);
                } else if str_eq(name.as_str(), "max") {
                    if max.is_some() {
                        return Err(GenError::new("duplicate argument `max`"));
                    }
                    max = Some(n);
                } else if str_eq(name.as_str(), "equal") {
                    if equal.is_some() {
                        return Err(GenError::new("duplicate argument `equal`"));
                    }
                    equal = Some(n);
                } else {
                    return Err(GenError::around("unexpected argument `", name.as_str(), "`"));
                }
            },
            _ => {
                return Err(GenError::new("unexpected argument"));
            },
        }
        i += 1;
    }
    proof {
        assert(full.skip(args@.len() as int) =~= Seq::<MetaItemView>::empty());
    }
    Ok((min, max, equal))
}

/// Parses the comma-separated arguments of a `range(...)` entry.
fn parse_range_args(args: &Vec<MetaItem>) -> (r: Result<(Option<u64>, Option<u64>), GenError>)
    ensures
        r matches Ok(b) ==> fold_range_args(meta_item_views(args@), None, None) == Some(b),
        r is Err ==> fold_range_args(meta_item_views(args@), None, None) is None,
{
    let ghost full = meta_item_views(args@);
    let mut min: Option<u64> = None;
    let mut max: Option<u64> = None;
    let mut i: usize = 0;
    proof {
        lemma_meta_item_views_len(args@);
        assert(full.skip(0) =~= full);
    }
    while i < args.len()
        invariant
            0 <= i <= args@.len(),
            full == meta_item_views(args@),
            full.len() == args@.len(),
            fold_range_args(full, None, None) == fold_range_args(full.skip(i as int), min, max),
        decreases args@.len() - i,
    {
        proof {
            lemma_meta_item_views_index(args@, i as int);
            assert(full.skip(i as int)[0] == full[i as int]);
            assert(full.skip(i as int).drop_first() =~= full.skip(i + 1));
        }
        match &args[i] {
            MetaItem::Assign { name, value } => {
                let int_value: Option<u64> = match value {
                    ArgValue::IntLit(n) => Some(*n),
                    _ => None,
                };
                let Some(n) = int_value else {
                    return Err(
                        GenError::new("expected a non-negative integer literal as the argument"),
                    );
                };
                if str_eq(name.as_str(), "min") {
                    if min.is_some() {
                        return Err(GenError::new("duplicate argument `min`"));
                    }
                    min = Some(n);
                } else if str_eq(name.as_str(), "max") {
                    if max.is_some() {
                        return Err(GenError::new("duplicate argument `max`"));
                    }
                    max = Some(n);
                } else {
                    return Err(GenError::around("unexpected argument `", name.as_str(), "`"));
                }
            },
            _ => {
                return Err(GenError::new("unexpected argument"));
            },
        }
        i += 1;
    }
    proof {
        assert(full.skip(args@.len() as int) =~= Seq::<MetaItemView>::empty());
    }
    Ok((min, max))
}

/// Parses one attribute entry into a directive; exactly the entries
/// [`directive_of`] accepts are accepted, each rejection carrying a
/// diagnostic.
pub fn parse_directive(m: &MetaItem) -> (r: Result<Directive, GenError>)
    ensures
        r matches Ok(d) ==> directive_of(m@) == Some(d@),
        r is Err ==> directive_of(m@) is None,
    decreases *m,
{
    match m {
        MetaItem::Word { name } => {
            if str_eq(name.as_str(), "none") {
                Ok(Directive::NoOp)
            } else if str_eq(name.as_str(), "email") {
                Ok(Directive::Email)
            } else if str_eq(name.as_str(), "domain") {
                Ok(Directive::Domain)
            } else if str_eq(name.as_str(), "url") {
                Ok(Directive::Url)
            } else if str_eq(name.as_str(), "nested") {
                Ok(Directive::Nested)
            } else if str_eq(name.as_str(), "trim") {
                Ok(Directive::Trim)
            } else if str_eq(name.as_str(), "lowercase") {
                Ok(Directive::Lowercase)
            } else if str_eq(name.as_str(), "uppercase") {
                Ok(Directive::Uppercase)
            } else if str_eq(name.as_str(), "length") {
                Ok(Directive::Length { min: Some(0u64), max: None, equal: None })
            } else if str_eq(name.as_str(), "ip") {
                Ok(Directive::Ip(IpPreprocessorType::Any))
            } else {
                Err(GenError::around("unexpected preprocessor `", name.as_str(), "`"))
            }
        },
        MetaItem::Assign { name, value } => {
            if str_eq(name.as_str(), "length") {
                match value {
                    ArgValue::IntLit(n) => Ok(
                        Directive::Length { min: None, max: None, equal: Some(*n) },
                    ),
                    _ => Err(GenError::new("expected a non-negative integer literal")),
                }
            } else if str_eq(name.as_str(), "contains") {
                match value {
                    ArgValue::StrLit(s) => Ok(Directive::Contains(s.clone())),
                    _ => Err(GenError::new("expected string literal")),
                }
            } else if str_eq(name.as_str(), "does_not_contain") {
                match value {
                    ArgValue::StrLit(s) => Ok(Directive::DoesNotContain(s.clone())),
                    _ => Err(GenError::new("expected string literal")),
                }
            } else if str_eq(name.as_str(), "custom") {
                match value {
                    ArgValue::StrLit(s) => Ok(Directive::Custom(s.clone())),
                    _ => Err(GenError::new("expected string literal")),
                }
            } else if str_eq(name.as_str(), "regex") {
                match value {
                    ArgValue::StrLit(s) => if regex_pattern_valid(s.as_str()) {
                        Ok(Directive::Regex(s.clone()))
                    } else {
                        Err(GenError::new("invalid regex"))
                    },
                    _ => Err(GenError::new("expected string literal")),
                }
            } else if str_eq(name.as_str(), "type") {
                match value {
                    ArgValue::StrLit(s) => Ok(Directive::Type(s.clone())),
                    ArgValue::PathName(s) => Ok(Directive::Type(s.clone())),
                    _ => Err(GenError::new("expected string literal or resulting type")),
                }
            } else {
                Err(GenError::around("unexpected preprocessor `", name.as_str(), "`"))
            }
        },
        MetaItem::Call { name, args } => {
            if str_eq(name.as_str(), "optional") {
                match parse_directive_list(args) {
                    Ok(inner) => Ok(Directive::Optional(inner)),
                    Err(e) => Err(e),
                }
            } else if str_eq(name.as_str(), "ip") {
                proof {
                    lemma_meta_item_views_len(args@);
                    if args@.len() == 1 {
                        lemma_meta_item_views_index(args@, 0);
                    }
                }
                if args.len() != 1 {
                    return Err(GenError::new("expected `v4` or `v6`"));
                }
                match &args[0] {
                    MetaItem::Word { name: arg } => {
                        if str_eq(arg.as_str(), "v4") {
                            Ok(Directive::Ip(IpPreprocessorType::V4))
                        } else if str_eq(arg.as_str(), "v6") {
                            Ok(Directive::Ip(IpPreprocessorType::V6))
                        } else {
                            Err(GenError::new("expected `v4` or `v6`"))
                        }
                    },
                    _ => Err(GenError::new("expected `v4` or `v6`")),
                }
            } else if str_eq(name.as_str(), "length") {
                match parse_length_args(args) {
                    Ok((min, max, equal)) => {
                        if min.is_none() && max.is_none() && equal.is_none() {
                            Err(
                                GenError::new(
                                    "expected at least one argument `min`, `max` or `equal`",
                                ),
                            )
                        } else {
                            Ok(Directive::Length { min, max, equal })
                        }
                    },
                    Err(e) => Err(e),
                }
            } else if str_eq(name.as_str(), "range") {
                match parse_range_args(args) {
                    Ok((min, max)) => {
                        if min.is_none() && max.is_none() {
                            Err(GenError::new("expected at least one argument `min` or `max`"))
                        } else {
                            Ok(Directive::Range { min, max })
                        }
                    },
                    Err(e) => Err(e),
                }
            } else {
                Err(GenError::around("unexpected preprocessor `", name.as_str(), "`"))
            }
        },
    }
}

/// Parses a whole entry list, entry by entry, failing on the first rejected
/// entry.
pub fn parse_directive_list(items: &Vec<MetaItem>) -> (r: Result<Vec<Directive>, GenError>)
    ensures
        r matches Ok(ds) ==> directives_of(meta_item_views(items@)) == Some(directive_views(ds@)),
        r is Err ==> directives_of(meta_item_views(items@)) is None,
    decreases items,
{
    let ghost full = meta_item_views(items@);
    let mut out: Vec<Directive> = Vec::new();
    let mut i: usize = 0;
    proof {
        lemma_meta_item_views_len(items@);
        assert(full.skip(0) =~= full);
        match directives_of(full) {
            Some(r) => {
                assert(directive_views(Seq::<Directive>::empty()) + r =~= r);
            },
            None => {},
        }
    }
    while i < items.len()
        invariant
            0 <= i <= items@.len(),
            full == meta_item_views(items@),
            full.len() == items@.len(),
            directives_of(full) == prepend_views(
                directive_views(out@),
                directives_of(full.skip(i as int)),
            ),
        decreases items@.len() - i,
    {
        proof {
            lemma_meta_item_views_index(items@, i as int);
            assert(full.skip(i as int)[0] == full[i as int]);
            assert(full.skip(i as int).drop_first() =~= full.skip(i + 1));
            assert(decreases_to!(items => items@[i as int]));
        }
        let d = match parse_directive(&items[i]) {
            Ok(d) => d,
            Err(e) => {
                proof {
                    assert(directives_of(full.skip(i as int)) is None);
                }
                return Err(e);
            },
        };
        let ghost out_before = out@;
        out.push(d);
        proof {
            lemma_directive_views_push(out_before, d);
            match directives_of(full.skip(i + 1)) {
                Some(r) => {
                    assert(directives_of(full.skip(i as int)) == Some(
                        seq![directive_view(d)] + r,
                    ));
                    assert(directive_views(out_before) + (seq![directive_view(d)] + r)
                        =~= directive_views(out@) + r);
                },
                None => {
                    assert(directives_of(full.skip(i as int)) is None);
                },
            }
        }
        i += 1;
    }
    proof {
        assert(full.skip(items@.len() as int) =~= Seq::<MetaItemView>::empty());
        assert(directives_of(full) == Some(directive_views(out@) + Seq::<DirectiveView>::empty()));
        assert(directive_views(out@) + Seq::<DirectiveView>::empty() =~= directive_views(out@));
    }
    Ok(out)
}

/// Parses one whole attribute occurrence, at field or record level; exactly
/// the occurrences [`attr_directives`] accepts are accepted.
pub fn parse_attr(attr: &DirectiveAttr, is_global: bool) -> (r: Result<Vec<Directive>, GenError>)
    ensures
        r matches Ok(ds) ==> attr_directives(attr@, is_global) == Some(directive_views(ds@)),
        r is Err ==> attr_directives(attr@, is_global) is None,
{
    match attr {
        DirectiveAttr::Marker => {
            if is_global {
                Err(GenError::new("expected attribute arguments in parentheses"))
            } else {
                let mut ds: Vec<Directive> = Vec::new();
                ds.push(Directive::Nested);
                proof {
                    lemma_directive_views_push(Seq::<Directive>::empty(), Directive::Nested);
                    assert(directive_views(ds@) =~= seq![DirectiveView::Nested]);
                }
                Ok(ds)
            }
        },
        DirectiveAttr::ArgList(items) => parse_directive_list(items),
    }
}

} // verus!
