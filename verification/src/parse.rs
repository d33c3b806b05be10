//! From source text, or from a tree of the parser, to the tree that the
//! engine reads.
//!
//! The parser and its tree are not verified. What the parser returns for a
//! text has a name, [`parsed`], and so has the tree that each of its nodes
//! stands for: [`tree_of`] and its companions. Each function here that
//! touches the parser's tree takes one node apart by one level, or converts
//! one leaf, and says so over those names; the walk over the tree is
//! [`lower`], and it is proved against them.

use vstd::prelude::*;
use crate::ast::{
    entry_view,
    slot_view,
    Element,
    ElementView,
    Entry,
    EntryView,
    Key,
    KeyView,
    Literal,
    LiteralView,
    Node,
    NodeView,
    Number,
    Property,
    PropertyView,
    Span,
};
use crate::error::{Error, ErrorView, ParseError, ParseErrorView};

verus! {

/// `swc_ecma_ast::EsVersion`, the version of the language that the parser
/// is asked for. The engine hands it on and never looks into it.
#[verifier::external_type_specification]
#[verifier::external_body]
pub struct ExEsVersion(swc_ecma_ast::EsVersion);

/// `swc_ecma_ast::Expr`, an expression as the parser builds it. The engine
/// sees nothing of it but through [`expr_parts`].
#[verifier::external_type_specification]
#[verifier::external_body]
pub struct ExParsedExpr(swc_ecma_ast::Expr);

/// `swc_ecma_ast::Lit`, a literal of the parser, read by [`literal_of`].
#[verifier::external_type_specification]
#[verifier::external_body]
pub struct ExParsedLit(swc_ecma_ast::Lit);

/// `swc_ecma_ast::ExprOrSpread`, a present element of an array literal,
/// read by [`element_parts`].
#[verifier::external_type_specification]
#[verifier::external_body]
pub struct ExParsedElement(swc_ecma_ast::ExprOrSpread);

/// `swc_ecma_ast::PropOrSpread`, an entry of an object literal, read by
/// [`entry_parts`].
#[verifier::external_type_specification]
#[verifier::external_body]
pub struct ExParsedEntry(swc_ecma_ast::PropOrSpread);

/// `swc_ecma_ast::Prop`, a property of an object literal, read by
/// [`prop_parts`].
#[verifier::external_type_specification]
#[verifier::external_body]
pub struct ExParsedProp(swc_ecma_ast::Prop);

/// `swc_ecma_ast::PropName`, the key of a property, read by [`key_of`].
#[verifier::external_type_specification]
#[verifier::external_body]
pub struct ExParsedPropName(swc_ecma_ast::PropName);

/// One level of a parsed expression.
enum ExprParts<'a> {
    Array(&'a Vec<Option<swc_ecma_ast::ExprOrSpread>>),
    Object(&'a Vec<swc_ecma_ast::PropOrSpread>),
    Lit(&'a swc_ecma_ast::Lit),
    Ident(String),
    Unsupported(Span),
}

/// One level of a parsed object entry.
enum EntryParts<'a> {
    Spread(&'a swc_ecma_ast::Expr),
    Prop(&'a swc_ecma_ast::Prop),
}

/// One level of a parsed property.
enum PropParts<'a> {
    KeyValue(&'a swc_ecma_ast::PropName, &'a swc_ecma_ast::Expr),
    Shorthand(String),
    Other(Span),
}

/// What the parser returns for a source text, read as plain ECMAScript of
/// the given version with positions from 0 to the length of the text: the
/// tree of the expression, or its failure.
pub uninterp spec fn parsed(source: Seq<char>, version: swc_ecma_ast::EsVersion) -> Result<
    NodeView,
    ParseErrorView,
>;

/// The tree that an expression of the parser stands for.
pub uninterp spec fn tree_of(expr: swc_ecma_ast::Expr) -> NodeView;

/// The literal that a literal of the parser stands for.
pub uninterp spec fn literal_model(lit: swc_ecma_ast::Lit) -> LiteralView;

/// The element that a present array element of the parser stands for.
pub uninterp spec fn element_model(element: swc_ecma_ast::ExprOrSpread) -> ElementView;

/// The entry that an object entry of the parser stands for.
pub uninterp spec fn entry_model(entry: swc_ecma_ast::PropOrSpread) -> EntryView;

/// The property that a property of the parser stands for.
pub uninterp spec fn property_model(prop: swc_ecma_ast::Prop) -> PropertyView;

/// The key that a property name of the parser stands for.
pub uninterp spec fn key_model(name: swc_ecma_ast::PropName) -> KeyView;

/// The slots that the slots of a parsed array stand for, in order.
pub open spec fn slot_models(elems: Seq<Option<swc_ecma_ast::ExprOrSpread>>) -> Seq<
    Option<ElementView>,
> {
    Seq::new(
        elems.len(),
        |i: int|
            match elems[i] {
                Some(element) => Some(element_model(element)),
                None => None,
            },
    )
}

/// The entries that the entries of a parsed object stand for, in order.
pub open spec fn entry_models(props: Seq<swc_ecma_ast::PropOrSpread>) -> Seq<EntryView> {
    Seq::new(props.len(), |i: int| entry_model(props[i]))
}

/// `swc_ecma_parser::Parser::parse_expr`, on a lexer over `source` for plain
/// ECMAScript syntax of the given version, with positions from 0 to `end`.
/// The parser's error is handed on as its message and its span. What comes
/// back depends on the text and the version alone: it is [`parsed`] of them.
///
/// The parser counts positions in 32 bits and cuts its tokens out of the
/// text by them, and it stops where a token ends after `end`: so `end` is
/// the length of the text, and the text is no longer than 32 bits count.
#[verifier::external_body]
fn parse_source(source: &str, end: u32, version: swc_ecma_ast::EsVersion) -> (r: Result<
    Box<swc_ecma_ast::Expr>,
    ParseError,
>)
    requires
        source.len() <= u32::MAX,
        end == source.len(),
    ensures
        match r {
            Ok(expr) => parsed(source@, version) == Ok::<NodeView, ParseErrorView>(tree_of(*expr)),
            Err(e) => parsed(source@, version) == Err::<NodeView, ParseErrorView>(e@),
        },
{
    let lexer = swc_ecma_parser::Lexer::new(
        swc_ecma_parser::Syntax::Es(swc_ecma_parser::EsSyntax::default()),
        version,
        swc_ecma_parser::StringInput::new(source, swc_common::BytePos(0), swc_common::BytePos(end)),
        None,
    );
    match swc_ecma_parser::Parser::new_from(lexer).parse_expr() {
        Ok(expr) => Ok(expr),
        Err(e) => {
            let span = swc_common::Spanned::span(&e);
            Err(ParseError { message: e.kind().msg().into_owned(), lo: span.lo.0, hi: span.hi.0 })
        },
    }
}

/// `swc_ecma_ast::EsVersion::default`: the version that the parser takes
/// where none is named.
#[verifier::external_body]
fn default_version() -> swc_ecma_ast::EsVersion {
    swc_ecma_ast::EsVersion::default()
}

/// Tells the variants of `swc_ecma_ast::Expr` apart and hands out what an
/// array literal, an object literal, a literal and an identifier hold. The
/// tree of the expression is made of just that; every other variant is an
/// unsupported node, with the span that `swc_common::Spanned::span` gives
/// for it.
#[verifier::external_body]
fn expr_parts<'a>(expr: &'a swc_ecma_ast::Expr) -> (r: ExprParts<'a>)
    ensures
        tree_of(*expr) == match r {
            ExprParts::Array(elems) => NodeView::Array(slot_models(elems@)),
            ExprParts::Object(props) => NodeView::Object(entry_models(props@)),
            ExprParts::Lit(lit) => NodeView::Literal(literal_model(*lit)),
            ExprParts::Ident(sym) => NodeView::Ident(sym@),
            ExprParts::Unsupported(span) => NodeView::Unsupported(span),
        },
{
    match expr {
        swc_ecma_ast::Expr::Array(array) => ExprParts::Array(&array.elems),
        swc_ecma_ast::Expr::Object(object) => ExprParts::Object(&object.props),
        swc_ecma_ast::Expr::Lit(lit) => ExprParts::Lit(lit),
        swc_ecma_ast::Expr::Ident(ident) => ExprParts::Ident(ident.sym.to_string()),
        other => {
            let span = swc_common::Spanned::span(other);
            ExprParts::Unsupported(Span { lo: span.lo.0, hi: span.hi.0 })
        },
    }
}

/// Converts a `swc_ecma_ast::Lit`, variant by variant: what comes out is
/// the literal that it stands for. A string's value is read with
/// `Wtf8Atom::to_string_lossy`; a number's value with `f64::to_bits`; a big
/// integer's value with its `to_string`, which gives its decimal digits; JSX
/// text is kept as it was written.
#[verifier::external_body]
fn literal_of(lit: &swc_ecma_ast::Lit) -> (r: Literal)
    ensures
        r@ == literal_model(*lit),
{
    match lit {
        swc_ecma_ast::Lit::Str(s) => Literal::Str(s.value.to_string_lossy().into_owned()),
        swc_ecma_ast::Lit::Bool(b) => Literal::Bool(b.value),
        swc_ecma_ast::Lit::Null(_) => Literal::Null,
        swc_ecma_ast::Lit::Num(n) => Literal::Num(
            Number { value: n.value.to_bits(), raw: n.raw.as_deref().map(str::to_owned) },
        ),
        swc_ecma_ast::Lit::BigInt(b) => Literal::BigInt(b.value.to_string()),
        swc_ecma_ast::Lit::Regex(r) => Literal::Regex(r.exp.to_string(), r.flags.to_string()),
        swc_ecma_ast::Lit::JSXText(t) => Literal::JsxText(t.raw.to_string()),
    }
}

/// The fields of a `swc_ecma_ast::ExprOrSpread`: whether it is a spread,
/// and its expression. The element that it stands for is made of these.
#[verifier::external_body]
fn element_parts<'a>(element: &'a swc_ecma_ast::ExprOrSpread) -> (r: (
    bool,
    &'a swc_ecma_ast::Expr,
))
    ensures
        element_model(*element) == (ElementView { spread: r.0, expr: Box::new(tree_of(*r.1)) }),
{
    (element.spread.is_some(), &*element.expr)
}

/// Tells the variants of `swc_ecma_ast::PropOrSpread` apart: the entry that
/// it stands for is the spread of an expression, or a property.
#[verifier::external_body]
fn entry_parts<'a>(entry: &'a swc_ecma_ast::PropOrSpread) -> (r: EntryParts<'a>)
    ensures
        entry_model(*entry) == match r {
            EntryParts::Spread(spread) => EntryView::Spread(Box::new(tree_of(*spread))),
            EntryParts::Prop(prop) => EntryView::Property(Box::new(property_model(*prop))),
        },
{
    match entry {
        swc_ecma_ast::PropOrSpread::Spread(spread) => EntryParts::Spread(&*spread.expr),
        swc_ecma_ast::PropOrSpread::Prop(prop) => EntryParts::Prop(&**prop),
    }
}

/// Tells the variants of `swc_ecma_ast::Prop` apart: the property that it
/// stands for is a plain `key: value`, a shorthand, or another, with the
/// span that `swc_common::Spanned::span` gives for it.
#[verifier::external_body]
fn prop_parts<'a>(prop: &'a swc_ecma_ast::Prop) -> (r: PropParts<'a>)
    ensures
        property_model(*prop) == match r {
            PropParts::KeyValue(key, value) => PropertyView::KeyValue(
                key_model(*key),
                Box::new(tree_of(*value)),
            ),
            PropParts::Shorthand(name) => PropertyView::Shorthand(name@),
            PropParts::Other(span) => PropertyView::Other(span),
        },
{
    match prop {
        swc_ecma_ast::Prop::KeyValue(pair) => PropParts::KeyValue(&pair.key, &*pair.value),
        swc_ecma_ast::Prop::Shorthand(ident) => PropParts::Shorthand(ident.sym.to_string()),
        other => {
            let span = swc_common::Spanned::span(other);
            PropParts::Other(Span { lo: span.lo.0, hi: span.hi.0 })
        },
    }
}

/// Converts a `swc_ecma_ast::PropName`, variant by variant: what comes out
/// is the key that it stands for. A computed key keeps the span of its
/// brackets.
#[verifier::external_body]
fn key_of(name: &swc_ecma_ast::PropName) -> (r: Key)
    ensures
        r@ == key_model(*name),
{
    match name {
        swc_ecma_ast::PropName::Ident(ident) => Key::Ident(ident.sym.to_string()),
        swc_ecma_ast::PropName::Str(s) => Key::Str(s.value.to_string_lossy().into_owned()),
        swc_ecma_ast::PropName::Num(n) => Key::Num(
            Number { value: n.value.to_bits(), raw: n.raw.as_deref().map(str::to_owned) },
        ),
        swc_ecma_ast::PropName::BigInt(b) => Key::BigInt(b.value.to_string()),
        swc_ecma_ast::PropName::Computed(c) => Key::Computed(
            Span { lo: c.span.lo.0, hi: c.span.hi.0 },
        ),
    }
}

/// A slot with what is below it cut off: see [`cut`].
pub open spec fn cut_slot(slot: Option<ElementView>, levels: nat) -> Option<ElementView>
    decreases levels, 1nat,
{
    match slot {
        Some(element) => Some(
            ElementView { spread: element.spread, expr: Box::new(cut(*element.expr, levels)) },
        ),
        None => None,
    }
}

/// An entry with what is below it cut off: see [`cut`].
pub open spec fn cut_entry(entry: EntryView, levels: nat) -> EntryView
    decreases levels, 1nat,
{
    match entry {
        EntryView::Spread(spread) => EntryView::Spread(Box::new(cut(*spread, levels))),
        EntryView::Property(property) => match *property {
            PropertyView::KeyValue(key, value) => EntryView::Property(
                Box::new(PropertyView::KeyValue(key, Box::new(cut(*value, levels)))),
            ),
            other => EntryView::Property(Box::new(other)),
        },
    }
}

/// The tree read `levels` levels deep: every node at a greater depth is
/// replaced by an unsupported node of no known place, and nothing else
/// changes.
pub open spec fn cut(node: NodeView, levels: nat) -> NodeView
    decreases levels, 0nat,
{
    if levels == 0 {
        NodeView::Unsupported(Span { lo: 0, hi: 0 })
    } else {
        match node {
            NodeView::Array(slots) => NodeView::Array(
                Seq::new(slots.len(), |i: int| cut_slot(slots[i], (levels - 1) as nat)),
            ),
            NodeView::Object(entries) => NodeView::Object(
                Seq::new(entries.len(), |i: int| cut_entry(entries[i], (levels - 1) as nat)),
            ),
            other => other,
        }
    }
}

/// The tree of a parsed expression, read `levels` levels deep: see
/// [`tree_of`] and [`cut`].
pub fn lower(expr: &swc_ecma_ast::Expr, levels: usize) -> (r: Node)
    ensures
        r@ == cut(tree_of(*expr), levels as nat),
    decreases levels,
{
    if levels == 0 {
        return Node::Unsupported(Span { lo: 0, hi: 0 });
    }
    let ghost below = (levels - 1) as nat;
    match expr_parts(expr) {
        ExprParts::Array(elems) => {
            let mut slots: Vec<Option<Element>> = Vec::new();
            let mut i: usize = 0;
            while i < elems.len()
                invariant
                    i <= elems.len(),
                    levels > 0,
                    below == levels - 1,
                    slots@.len() == i,
                    forall|j: int|
                        0 <= j < i ==> slot_view(#[trigger] slots@[j]) == cut_slot(
                            slot_models(elems@)[j],
                            below,
                        ),
                decreases elems.len() - i,
            {
                let slot = match &elems[i] {
                    Some(element) => {
                        let (spread, inner) = element_parts(element);
                        Some(Element { spread, expr: Box::new(lower(inner, levels - 1)) })
                    },
                    None => None,
                };
                assert(slot_view(slot) == cut_slot(slot_models(elems@)[i as int], below));
                slots.push(slot);
                i += 1;
            }
            let node = Node::Array(slots);
            assert(node@->Array_0 =~= cut(tree_of(*expr), levels as nat)->Array_0);
            node
        },
        ExprParts::Object(props) => {
            let mut entries: Vec<Entry> = Vec::new();
            let mut i: usize = 0;
            while i < props.len()
                invariant
                    i <= props.len(),
                    levels > 0,
                    below == levels - 1,
                    entries@.len() == i,
                    forall|j: int|
                        0 <= j < i ==> entry_view(#[trigger] entries@[j]) == cut_entry(
                            entry_models(props@)[j],
                            below,
                        ),
                decreases props.len() - i,
            {
                let entry = match entry_parts(&props[i]) {
                    EntryParts::Spread(inner) => Entry::Spread(
                        Box::new(lower(inner, levels - 1)),
                    ),
                    EntryParts::Prop(prop) => Entry::Property(
                        Box::new(
                            match prop_parts(prop) {
                                PropParts::KeyValue(key, value) => Property::KeyValue(
                                    key_of(key),
                                    Box::new(lower(value, levels - 1)),
                                ),
                                PropParts::Shorthand(name) => Property::Shorthand(name),
                                PropParts::Other(span) => Property::Other(span),
                            },
                        ),
                    ),
                };
                assert(entry_view(entry) == cut_entry(entry_models(props@)[i as int], below));
                entries.push(entry);
                i += 1;
            }
            let node = Node::Object(entries);
            assert(node@->Object_0 =~= cut(tree_of(*expr), levels as nat)->Object_0);
            node
        },
        ExprParts::Lit(lit) => Node::Literal(literal_of(lit)),
        ExprParts::Ident(sym) => Node::Ident(sym),
        ExprParts::Unsupported(span) => Node::Unsupported(span),
    }
}

/// The version that the parser takes where none is named.
pub fn default_es_version() -> swc_ecma_ast::EsVersion {
    default_version()
}

/// The failure for a source text that is longer than the parser can count:
/// it points at the whole of what the parser could have read.
pub open spec fn too_long() -> ParseErrorView {
    ParseErrorView { message: "source text too long"@, lo: 0, hi: u32::MAX }
}

/// What reading a source text gives: the tree of what the parser returns
/// for it, whole, or the parser's failure as the engine's own. A text of
/// more bytes than 32 bits count is not handed to the parser: it fails as
/// [`too_long`].
pub open spec fn read_source(source: &str, version: swc_ecma_ast::EsVersion) -> Result<
    NodeView,
    ErrorView,
> {
    if source.len() > u32::MAX {
        Err(ErrorView::EcmaParse(too_long()))
    } else {
        match parsed(source@, version) {
            Ok(tree) => Ok(cut(tree, usize::MAX as nat)),
            Err(failure) => Err(ErrorView::EcmaParse(failure)),
        }
    }
}

/// Parses `source` as one expression of plain ECMAScript syntax and hands
/// out its tree, or the parser's failure: see [`read_source`].
pub fn parse(source: &str, version: swc_ecma_ast::EsVersion) -> (r: Result<Node, Error>)
    ensures
        match r {
            Ok(tree) => read_source(source, version) == Ok::<NodeView, ErrorView>(tree@),
            Err(e) => read_source(source, version) == Err::<NodeView, ErrorView>(e@),
        },
{
    let len = source.len();
    if len > u32::MAX as usize {
        let message = "source text too long".to_owned();
        return Err(Error::EcmaParse(ParseError { message, lo: 0, hi: u32::MAX }));
    }
    match parse_source(source, len as u32, version) {
        Ok(expr) => Ok(lower(&*expr, usize::MAX)),
        Err(failure) => Err(Error::EcmaParse(failure)),
    }
}

} // verus!
