//! The dispatcher: one node, one requested shape, one outcome.
//!
//! A [`Deserializer`] holds one node, lent by the caller or moved in. Each
//! `deserialize_*` method asks for one shape and either extracts the value,
//! hands out the accessor that walks the node, or says why the node does
//! not have that shape. What a method returns depends on the node alone,
//! never on whether it was lent or moved in; accessors and child
//! dispatchers stay in the mode of the dispatcher they came from.

use std::borrow::Cow;
use vstd::prelude::*;
use vstd::utf8::encode_utf8;
use crate::access::{entry_key_value, EnumAccess, MapAccess, SeqAccess};
use crate::ast::{ElementView, Entry, EntryView, Literal, LiteralView, Node, NodeView, Property};
use crate::error::{
    invalid_length,
    invalid_type,
    invalid_value,
    unexpected_lit,
    Error,
    ErrorView,
    Unexpected,
    UnexpectedView,
};
use crate::number::{
    integer_in,
    is_integer,
    is_integer_text,
    narrow,
    narrowed,
    number_to_i128,
    number_to_i16,
    number_to_i32,
    number_to_i64,
    number_to_i8,
    number_to_u128,
    number_to_u16,
    number_to_u32,
    number_to_u64,
    number_to_u8,
};

verus! {

/// The failure for a node that the requested shape, named `expected`, has
/// no use for: a literal is named by its kind, an object and an array as
/// such, and anything else is an unexpected expression.
pub open spec fn mismatch(expr: NodeView, expected: Seq<char>) -> ErrorView {
    match expr {
        NodeView::Literal(lit) => unexpected_lit(lit, expected),
        NodeView::Object(_) => invalid_type(UnexpectedView::Object, expected),
        NodeView::Array(_) => invalid_type(UnexpectedView::Array, expected),
        other => ErrorView::UnexpectedExpr(other),
    }
}

/// Whether an outcome is the one that was specified.
pub open spec fn agrees<T>(r: Result<T, Error>, specified: Result<T, ErrorView>) -> bool {
    match r {
        Ok(v) => specified == Ok::<T, ErrorView>(v),
        Err(e) => specified == Err::<T, ErrorView>(e@),
    }
}

/// Only a boolean literal is a boolean.
pub open spec fn bool_of(expr: NodeView) -> Result<bool, ErrorView> {
    match expr {
        NodeView::Literal(LiteralView::Bool(b)) => Ok(b),
        other => Err(mismatch(other, "boolean"@)),
    }
}

/// A numeric literal is an integer of the range `lo ..= hi` if it counts as
/// an integer and its value lies in the range.
pub open spec fn integer_of(expr: NodeView, lo: int, hi: int, expected: Seq<char>) -> Result<
    int,
    ErrorView,
> {
    match expr {
        NodeView::Literal(LiteralView::Num(n)) => match integer_in(n, lo, hi) {
            Some(v) => Ok(v),
            None => Err(mismatch(expr, expected)),
        },
        other => Err(mismatch(other, expected)),
    }
}

/// Every numeric literal is a float of double precision: the binary64
/// encoding of its value.
pub open spec fn double_of(expr: NodeView) -> Result<u64, ErrorView> {
    match expr {
        NodeView::Literal(LiteralView::Num(n)) => Ok(n.value),
        other => Err(mismatch(other, "f64"@)),
    }
}

/// Every numeric literal is a float of single precision: the binary32
/// encoding of its value, narrowed as [`narrowed`] says.
pub open spec fn single_of(expr: NodeView) -> Result<u32, ErrorView> {
    match expr {
        NodeView::Literal(LiteralView::Num(n)) => Ok(narrowed(n.value)),
        other => Err(mismatch(other, "f32"@)),
    }
}

/// A string literal of exactly one character is a character.
pub open spec fn char_of(expr: NodeView) -> Result<char, ErrorView> {
    match expr {
        NodeView::Literal(LiteralView::Str(s)) => if s.len() == 1 {
            Ok(s[0])
        } else {
            Err(invalid_value(UnexpectedView::Str(s), "character"@))
        },
        other => Err(mismatch(other, "character"@)),
    }
}

/// A string literal and a bare identifier are strings.
pub open spec fn text_of(expr: NodeView) -> Result<Seq<char>, ErrorView> {
    match expr {
        NodeView::Literal(LiteralView::Str(s)) => Ok(s),
        NodeView::Ident(s) => Ok(s),
        other => Err(mismatch(other, "string"@)),
    }
}

/// A string literal is a byte string: its UTF-8 encoding.
pub open spec fn bytes_of(expr: NodeView) -> Result<Seq<u8>, ErrorView> {
    match expr {
        NodeView::Literal(LiteralView::Str(s)) => Ok(encode_utf8(s)),
        other => Err(mismatch(other, "bytes"@)),
    }
}

/// Only the null literal is the unit.
pub open spec fn unit_of(expr: NodeView) -> Result<(), ErrorView> {
    match expr {
        NodeView::Literal(LiteralView::Null) => Ok(()),
        other => Err(mismatch(other, "null"@)),
    }
}

/// Only an array literal is a sequence: its slots. An object is a map
/// where none was expected, and a literal is named by its kind.
pub open spec fn seq_of(expr: NodeView) -> Result<Seq<Option<ElementView>>, ErrorView> {
    match expr {
        NodeView::Array(slots) => Ok(slots),
        other => Err(mismatch(other, "sequence"@)),
    }
}

/// Only an object literal is a map: its entries. An array is a sequence
/// where none was expected, and a literal is named by its kind.
pub open spec fn map_of(expr: NodeView) -> Result<Seq<EntryView>, ErrorView> {
    match expr {
        NodeView::Object(entries) => Ok(entries),
        other => Err(mismatch(other, "map"@)),
    }
}

/// The forms that an enum tag takes.
pub enum TagView {
    /// A string literal: the variant's name, no payload.
    Str(Seq<char>),
    /// A bare identifier: the variant's name, no payload.
    Ident(Seq<char>),
    /// An object of one entry: the variant's name and its payload.
    Keyed(Seq<char>, NodeView),
}

/// A string literal and a bare identifier name a variant. An object names
/// one with its payload if it has exactly one entry, that entry is a plain
/// `key: value`, and the key is an identifier or a string.
pub open spec fn tag_of(expr: NodeView) -> Result<TagView, ErrorView> {
    match expr {
        NodeView::Literal(LiteralView::Str(s)) => Ok(TagView::Str(s)),
        NodeView::Ident(s) => Ok(TagView::Ident(s)),
        NodeView::Object(entries) => if entries.len() == 1 {
            match entry_key_value(entries[0]) {
                Ok((key, value)) => Ok(TagView::Keyed(key, value)),
                Err(e) => Err(e),
            }
        } else {
            Err(invalid_length(entries.len() as usize, "1"@))
        },
        other => Err(mismatch(other, "enumeration"@)),
    }
}

/// What a node is taken for where the target leaves the shape open.
pub enum AnyView {
    Array(Seq<Option<ElementView>>),
    Object(Seq<EntryView>),
    Bool(bool),
    Signed(i64),
    Float(u64),
    Null,
    Str(Seq<char>),
}

/// An array is a sequence, an object a map; a boolean, a string and null
/// are themselves, an identifier is a string. A number that counts as an
/// integer is an `i64`, and fails if none holds it; any other number is a
/// float. Nothing else has a shape of its own.
pub open spec fn any_of(expr: NodeView) -> Result<AnyView, ErrorView> {
    match expr {
        NodeView::Array(slots) => Ok(AnyView::Array(slots)),
        NodeView::Object(entries) => Ok(AnyView::Object(entries)),
        NodeView::Literal(LiteralView::Bool(b)) => Ok(AnyView::Bool(b)),
        NodeView::Literal(LiteralView::Num(n)) => if is_integer_text(n.raw) {
            match integer_in(n, i64::MIN as int, i64::MAX as int) {
                Some(v) => Ok(AnyView::Signed(v as i64)),
                None => Err(mismatch(expr, "i64"@)),
            }
        } else {
            Ok(AnyView::Float(n.value))
        },
        NodeView::Literal(LiteralView::Null) => Ok(AnyView::Null),
        NodeView::Literal(LiteralView::Str(s)) => Ok(AnyView::Str(s)),
        NodeView::Ident(s) => Ok(AnyView::Str(s)),
        other => Err(ErrorView::UnexpectedExpr(other)),
    }
}

pub(crate) fn mismatch_of(expr: &Node, expected: &str) -> (e: Error)
    ensures
        e@ == mismatch(expr@, expected@),
{
    match expr {
        Node::Literal(lit) => Error::unexpected_lit(lit, expected),
        Node::Object(_) => Error::invalid_type(Unexpected::Object, expected),
        Node::Array(_) => Error::invalid_type(Unexpected::Array, expected),
        other => Error::UnexpectedExpr(other.duplicate()),
    }
}

/// The node itself, copied if it was lent.
pub(crate) fn into_owned<'a>(expr: Cow<'a, Node>) -> (r: Node)
    ensures
        r@ == expr@,
{
    match expr {
        Cow::Borrowed(e) => e.duplicate(),
        Cow::Owned(e) => e,
    }
}

/// An enum tag, resolved.
#[derive(Debug)]
pub enum EnumTag<'de> {
    Str(Cow<'de, str>),
    Ident(Cow<'de, str>),
    Keyed(EnumAccess<'de>),
}

impl<'de> View for EnumTag<'de> {
    type V = TagView;

    open spec fn view(&self) -> TagView {
        match self {
            EnumTag::Str(s) => TagView::Str(s@),
            EnumTag::Ident(s) => TagView::Ident(s@),
            EnumTag::Keyed(access) => TagView::Keyed(access.variant_name(), access.payload()),
        }
    }
}

/// What [`Deserializer::deserialize_any`] found.
#[derive(Debug)]
pub enum Any<'de> {
    Array(SeqAccess<'de>),
    Object(MapAccess<'de>),
    Bool(bool),
    Signed(i64),
    Float(u64),
    Null,
    Str(Cow<'de, str>),
}

impl<'de> View for Any<'de> {
    type V = AnyView;

    open spec fn view(&self) -> AnyView {
        match self {
            Any::Array(seq) => AnyView::Array(seq.remaining()),
            Any::Object(map) => AnyView::Object(map.remaining()),
            Any::Bool(b) => AnyView::Bool(*b),
            Any::Signed(v) => AnyView::Signed(*v),
            Any::Float(v) => AnyView::Float(*v),
            Any::Null => AnyView::Null,
            Any::Str(s) => AnyView::Str(s@),
        }
    }
}

impl<'de> Any<'de> {
    /// What it holds is in the given mode: an accessor is fresh and owns
    /// what it walks only where `owned`, a text is a copy only where
    /// `owned`.
    pub open spec fn fresh(&self, owned: bool) -> bool {
        match self {
            Any::Array(seq) => seq.is_owned() == owned,
            Any::Object(map) => map.is_owned() == owned && map.pending() is None,
            Any::Str(s) => (s is Owned) == owned,
            _ => true,
        }
    }
}

impl TagView {
    /// The name of the variant.
    pub open spec fn name(self) -> Seq<char> {
        match self {
            TagView::Str(name) => name,
            TagView::Ident(name) => name,
            TagView::Keyed(name, _) => name,
        }
    }

    /// A variant without fields is what a bare tag names. A keyed tag
    /// always brings a payload, which such a variant has no use for.
    pub open spec fn unit(self) -> Result<(), ErrorView> {
        match self {
            TagView::Keyed(_, payload) => Err(ErrorView::UnexpectedExpr(payload)),
            _ => Ok(()),
        }
    }

    /// The payload of a variant with fields, of the kind `expected`. A
    /// bare tag brings none.
    pub open spec fn payload(self, expected: Seq<char>) -> Result<NodeView, ErrorView> {
        match self {
            TagView::Keyed(_, payload) => Ok(payload),
            _ => Err(invalid_type(UnexpectedView::UnitVariant, expected)),
        }
    }

    /// The payload of a tuple variant, as a sequence.
    pub open spec fn tuple(self) -> Result<Seq<Option<ElementView>>, ErrorView> {
        match self.payload("tuple variant"@) {
            Ok(payload) => seq_of(payload),
            Err(e) => Err(e),
        }
    }

    /// The payload of a struct variant, as a map.
    pub open spec fn fields(self) -> Result<Seq<EntryView>, ErrorView> {
        match self.payload("struct variant"@) {
            Ok(payload) => map_of(payload),
            Err(e) => Err(e),
        }
    }
}

impl<'de> EnumTag<'de> {
    /// Whether what the tag holds was moved into it: a name is then a copy,
    /// and a keyed tag owns its payload.
    pub open spec fn is_owned(&self) -> bool {
        match self {
            EnumTag::Str(s) => s is Owned,
            EnumTag::Ident(s) => s is Owned,
            EnumTag::Keyed(access) => access.is_owned(),
        }
    }

    /// The name of the variant.
    pub fn variant(&self) -> (r: &str)
        ensures
            r@ == self@.name(),
    {
        match self {
            EnumTag::Str(name) => text_of_cow(name),
            EnumTag::Ident(name) => text_of_cow(name),
            EnumTag::Keyed(access) => access.variant(),
        }
    }

    /// Reads the variant as one without fields: see [`TagView::unit`].
    pub fn unit_variant(self) -> (r: Result<(), Error>)
        ensures
            agrees(r, self@.unit()),
    {
        match self {
            EnumTag::Keyed(access) => access.unit_variant(),
            _ => Ok(()),
        }
    }

    /// The dispatcher of the payload of a variant of one field, in the
    /// tag's own mode: see [`TagView::payload`].
    pub fn newtype_variant(self) -> (r: Result<Deserializer<'de>, Error>)
        ensures
            match r {
                Ok(d) => self@.payload("newtype variant"@) == Ok::<NodeView, ErrorView>(d@)
                    && d.is_owned() == self.is_owned(),
                Err(e) => self@.payload("newtype variant"@) == Err::<NodeView, ErrorView>(e@),
            },
    {
        match self {
            EnumTag::Keyed(access) => Ok(access.newtype_variant()),
            _ => Err(Error::invalid_type(Unexpected::UnitVariant, "newtype variant")),
        }
    }

    /// The payload of a tuple variant, as a sequence: see
    /// [`TagView::tuple`].
    pub fn tuple_variant(self) -> (r: Result<SeqAccess<'de>, Error>)
        ensures
            match r {
                Ok(seq) => self@.tuple() == Ok::<Seq<Option<ElementView>>, ErrorView>(
                    seq.remaining(),
                ) && seq.is_owned() == self.is_owned(),
                Err(e) => self@.tuple() == Err::<Seq<Option<ElementView>>, ErrorView>(e@),
            },
    {
        match self {
            EnumTag::Keyed(access) => access.tuple_variant(),
            _ => Err(Error::invalid_type(Unexpected::UnitVariant, "tuple variant")),
        }
    }

    /// The payload of a struct variant, as a map: see [`TagView::fields`].
    pub fn struct_variant(self) -> (r: Result<MapAccess<'de>, Error>)
        ensures
            match r {
                Ok(map) => self@.fields() == Ok::<Seq<EntryView>, ErrorView>(map.remaining())
                    && map.pending() is None && map.is_owned() == self.is_owned(),
                Err(e) => self@.fields() == Err::<Seq<EntryView>, ErrorView>(e@),
            },
    {
        match self {
            EnumTag::Keyed(access) => access.struct_variant(),
            _ => Err(Error::invalid_type(Unexpected::UnitVariant, "struct variant")),
        }
    }
}

/// The text that is lent or owned.
fn text_of_cow<'a>(text: &'a Cow<'_, str>) -> (r: &'a str)
    ensures
        r@ == text@,
{
    match text {
        Cow::Borrowed(s) => s,
        Cow::Owned(s) => s.as_str(),
    }
}

/// One node and the mode in which it is held.
#[derive(Debug)]
pub struct Deserializer<'de> {
    expr: Cow<'de, Node>,
}

impl<'de> View for Deserializer<'de> {
    type V = NodeView;

    closed spec fn view(&self) -> NodeView {
        self.expr@
    }
}

impl<'de> Deserializer<'de> {
    /// Whether the node was moved into the dispatcher.
    pub closed spec fn is_owned(&self) -> bool {
        self.expr is Owned
    }

    /// A dispatcher on a node that the caller keeps.
    pub fn borrowed(expr: &'de Node) -> (d: Self)
        ensures
            d@ == expr@,
            !d.is_owned(),
    {
        Deserializer { expr: Cow::Borrowed(expr) }
    }

    /// A dispatcher on a node that the caller gives up.
    pub fn owned(expr: Node) -> (d: Self)
        ensures
            d@ == expr@,
            d.is_owned(),
    {
        Deserializer { expr: Cow::Owned(expr) }
    }

    fn node(&self) -> (r: &Node)
        ensures
            r@ == self@,
    {
        match &self.expr {
            Cow::Borrowed(e) => e,
            Cow::Owned(e) => e,
        }
    }

    /// Always true: the trees come from source text.
    pub fn is_human_readable(&self) -> (r: bool)
        ensures
            r,
    {
        true
    }

    /// Lets the node decide: see [`any_of`].
    pub fn deserialize_any(self) -> (r: Result<Any<'de>, Error>)
        ensures
            match r {
                Ok(any) => any_of(self@) == Ok::<AnyView, ErrorView>(any@) && any.fresh(
                    self.is_owned(),
                ),
                Err(e) => any_of(self@) == Err::<AnyView, ErrorView>(e@),
            },
    {
        let integer = match self.node() {
            Node::Literal(Literal::Num(number)) => is_integer(number),
            _ => false,
        };
        match self.node() {
            Node::Array(_) => match self.deserialize_seq() {
                Ok(seq) => Ok(Any::Array(seq)),
                Err(e) => Err(e),
            },
            Node::Object(_) => match self.deserialize_map() {
                Ok(map) => Ok(Any::Object(map)),
                Err(e) => Err(e),
            },
            Node::Literal(Literal::Bool(b)) => Ok(Any::Bool(*b)),
            Node::Literal(Literal::Num(_)) => {
                if integer {
                    match self.deserialize_i64() {
                        Ok(v) => Ok(Any::Signed(v)),
                        Err(e) => Err(e),
                    }
                } else {
                    match self.deserialize_f64() {
                        Ok(v) => Ok(Any::Float(v)),
                        Err(e) => Err(e),
                    }
                }
            },
            Node::Literal(Literal::Null) => Ok(Any::Null),
            Node::Literal(Literal::Str(_)) => match self.deserialize_str() {
                Ok(s) => Ok(Any::Str(s)),
                Err(e) => Err(e),
            },
            Node::Ident(_) => match self.deserialize_str() {
                Ok(s) => Ok(Any::Str(s)),
                Err(e) => Err(e),
            },
            _ => Err(Error::UnexpectedExpr(into_owned(self.expr))),
        }
    }

    /// The value of a boolean literal: see [`bool_of`].
    pub fn deserialize_bool(self) -> (r: Result<bool, Error>)
        ensures
            agrees(r, bool_of(self@)),
    {
        match self.node() {
            Node::Literal(Literal::Bool(b)) => Ok(*b),
            other => Err(mismatch_of(other, "boolean")),
        }
    }

    /// As [`Deserializer::deserialize_bytes`].
    pub fn deserialize_byte_buf(self) -> (r: Result<Cow<'de, [u8]>, Error>)
        ensures
            match r {
                Ok(bytes) => bytes_of(self@) == Ok::<Seq<u8>, ErrorView>(bytes@) && (bytes is Owned)
                    == self.is_owned(),
                Err(e) => bytes_of(self@) == Err::<Seq<u8>, ErrorView>(e@),
            },
    {
        self.deserialize_bytes()
    }

    /// The UTF-8 bytes of a string literal, lent where the node was lent.
    pub fn deserialize_bytes(self) -> (r: Result<Cow<'de, [u8]>, Error>)
        ensures
            match r {
                Ok(bytes) => bytes_of(self@) == Ok::<Seq<u8>, ErrorView>(bytes@) && (bytes is Owned)
                    == self.is_owned(),
                Err(e) => bytes_of(self@) == Err::<Seq<u8>, ErrorView>(e@),
            },
    {
        match self.expr {
            Cow::Borrowed(Node::Literal(Literal::Str(s))) => Ok(Cow::Borrowed(s.as_str().as_bytes())),
            Cow::Owned(Node::Literal(Literal::Str(s))) => Ok(Cow::Owned(s.as_str().as_bytes_vec())),
            Cow::Borrowed(other) => Err(mismatch_of(other, "bytes")),
            Cow::Owned(other) => Err(mismatch_of(&other, "bytes")),
        }
    }

    /// The one character of a string literal: see [`char_of`].
    pub fn deserialize_char(self) -> (r: Result<char, Error>)
        ensures
            agrees(r, char_of(self@)),
    {
        match self.node() {
            Node::Literal(Literal::Str(s)) => {
                let text = s.as_str();
                if text.unicode_len() == 1 {
                    Ok(text.get_char(0))
                } else {
                    Err(Error::invalid_value(Unexpected::Str(s.clone()), "character"))
                }
            },
            other => Err(mismatch_of(other, "character")),
        }
    }

    /// Resolves the tag of an enum: see [`tag_of`]. Name and payload stay
    /// in the dispatcher's mode.
    pub fn deserialize_enum(self) -> (r: Result<EnumTag<'de>, Error>)
        ensures
            match r {
                Ok(tag) => tag_of(self@) == Ok::<TagView, ErrorView>(tag@) && tag.is_owned()
                    == self.is_owned(),
                Err(e) => tag_of(self@) == Err::<TagView, ErrorView>(e@),
            },
    {
        match self.expr {
            Cow::Borrowed(Node::Literal(Literal::Str(s))) => Ok(EnumTag::Str(Cow::Borrowed(s.as_str()))),
            Cow::Owned(Node::Literal(Literal::Str(s))) => Ok(EnumTag::Str(Cow::Owned(s))),
            Cow::Borrowed(Node::Ident(s)) => Ok(EnumTag::Ident(Cow::Borrowed(s.as_str()))),
            Cow::Owned(Node::Ident(s)) => Ok(EnumTag::Ident(Cow::Owned(s))),
            Cow::Borrowed(Node::Object(props)) => {
                if props.len() == 1 {
                    assert(self@->Object_0[0] == props@[0]@);
                    match &props[0] {
                        Entry::Property(prop) => match &**prop {
                            Property::KeyValue(key, value) => match crate::access::key_to_str(
                                key,
                            ) {
                                Some(text) => Ok(
                                    EnumTag::Keyed(EnumAccess::borrowed(text, &**value)),
                                ),
                                None => Err(Error::InvalidObjectKey(key.duplicate())),
                            },
                            other => Err(Error::UnexpectedProp(Box::new(other.duplicate()))),
                        },
                        Entry::Spread(spread) => Err(
                            Error::UnexpectedSpread(Box::new(spread.duplicate())),
                        ),
                    }
                } else {
                    Err(Error::invalid_length(props.len(), "1"))
                }
            },
            Cow::Owned(Node::Object(props)) => {
                let mut props = props;
                if props.len() == 1 {
                    assert(self@->Object_0[0] == props@[0]@);
                    match props.pop() {
                        Some(Entry::Property(prop)) => match *prop {
                            Property::KeyValue(key, value) => match crate::access::key_into_string(
                                key,
                            ) {
                                Ok(text) => Ok(EnumTag::Keyed(EnumAccess::owned(text, *value))),
                                Err(other) => Err(Error::InvalidObjectKey(other)),
                            },
                            other => Err(Error::UnexpectedProp(Box::new(other))),
                        },
                        Some(Entry::Spread(spread)) => Err(Error::UnexpectedSpread(spread)),
                        None => Err(Error::invalid_length(0, "1")),
                    }
                } else {
                    Err(Error::invalid_length(props.len(), "1"))
                }
            },
            Cow::Borrowed(other) => Err(mismatch_of(other, "enumeration")),
            Cow::Owned(other) => Err(mismatch_of(&other, "enumeration")),
        }
    }

    /// The binary32 encoding of a numeric literal's value, rounded to the
    /// nearest value of single precision: see [`single_of`].
    pub fn deserialize_f32(self) -> (r: Result<u32, Error>)
        ensures
            agrees(r, single_of(self@)),
    {
        match self.node() {
            Node::Literal(Literal::Num(number)) => Ok(narrow(number.value)),
            other => Err(mismatch_of(other, "f32")),
        }
    }

    /// The binary64 encoding of a numeric literal's value: see
    /// [`double_of`].
    pub fn deserialize_f64(self) -> (r: Result<u64, Error>)
        ensures
            agrees(r, double_of(self@)),
    {
        match self.node() {
            Node::Literal(Literal::Num(number)) => Ok(number.value),
            other => Err(mismatch_of(other, "f64")),
        }
    }

    /// A numeric literal as an `i128`: see [`integer_of`].
    pub fn deserialize_i128(self) -> (r: Result<i128, Error>)
        ensures
            match r {
                Ok(v) => integer_of(self@, i128::MIN as int, i128::MAX as int, "i128"@) == Ok::<
                    int,
                    ErrorView,
                >(v as int),
                Err(e) => integer_of(self@, i128::MIN as int, i128::MAX as int, "i128"@) == Err::<
                    int,
                    ErrorView,
                >(e@),
            },
    {
        let expr = self.node();
        match expr {
            Node::Literal(Literal::Num(number)) => match number_to_i128(number) {
                Some(v) => Ok(v),
                None => Err(mismatch_of(expr, "i128")),
            },
            other => Err(mismatch_of(other, "i128")),
        }
    }

    /// A numeric literal as an `i16`: see [`integer_of`].
    pub fn deserialize_i16(self) -> (r: Result<i16, Error>)
        ensures
            match r {
                Ok(v) => integer_of(self@, i16::MIN as int, i16::MAX as int, "i16"@) == Ok::<
                    int,
                    ErrorView,
                >(v as int),
                Err(e) => integer_of(self@, i16::MIN as int, i16::MAX as int, "i16"@) == Err::<
                    int,
                    ErrorView,
                >(e@),
            },
    {
        let expr = self.node();
        match expr {
            Node::Literal(Literal::Num(number)) => match number_to_i16(number) {
                Some(v) => Ok(v),
                None => Err(mismatch_of(expr, "i16")),
            },
            other => Err(mismatch_of(other, "i16")),
        }
    }

    /// A numeric literal as an `i32`: see [`integer_of`].
    pub fn deserialize_i32(self) -> (r: Result<i32, Error>)
        ensures
            match r {
                Ok(v) => integer_of(self@, i32::MIN as int, i32::MAX as int, "i32"@) == Ok::<
                    int,
                    ErrorView,
                >(v as int),
                Err(e) => integer_of(self@, i32::MIN as int, i32::MAX as int, "i32"@) == Err::<
                    int,
                    ErrorView,
                >(e@),
            },
    {
        let expr = self.node();
        match expr {
            Node::Literal(Literal::Num(number)) => match number_to_i32(number) {
                Some(v) => Ok(v),
                None => Err(mismatch_of(expr, "i32")),
            },
            other => Err(mismatch_of(other, "i32")),
        }
    }

    /// A numeric literal as an `i64`: see [`integer_of`].
    pub fn deserialize_i64(self) -> (r: Result<i64, Error>)
        ensures
            match r {
                Ok(v) => integer_of(self@, i64::MIN as int, i64::MAX as int, "i64"@) == Ok::<
                    int,
                    ErrorView,
                >(v as int),
                Err(e) => integer_of(self@, i64::MIN as int, i64::MAX as int, "i64"@) == Err::<
                    int,
                    ErrorView,
                >(e@),
            },
    {
        let expr = self.node();
        match expr {
            Node::Literal(Literal::Num(number)) => match number_to_i64(number) {
                Some(v) => Ok(v),
                None => Err(mismatch_of(expr, "i64")),
            },
            other => Err(mismatch_of(other, "i64")),
        }
    }

    /// A numeric literal as an `i8`: see [`integer_of`].
    pub fn deserialize_i8(self) -> (r: Result<i8, Error>)
        ensures
            match r {
                Ok(v) => integer_of(self@, i8::MIN as int, i8::MAX as int, "i8"@) == Ok::<
                    int,
                    ErrorView,
                >(v as int),
                Err(e) => integer_of(self@, i8::MIN as int, i8::MAX as int, "i8"@) == Err::<
                    int,
                    ErrorView,
                >(e@),
            },
    {
        let expr = self.node();
        match expr {
            Node::Literal(Literal::Num(number)) => match number_to_i8(number) {
                Some(v) => Ok(v),
                None => Err(mismatch_of(expr, "i8")),
            },
            other => Err(mismatch_of(other, "i8")),
        }
    }

    /// As [`Deserializer::deserialize_str`].
    pub fn deserialize_identifier(self) -> (r: Result<Cow<'de, str>, Error>)
        ensures
            match r {
                Ok(s) => text_of(self@) == Ok::<Seq<char>, ErrorView>(s@) && (s is Owned)
                    == self.is_owned(),
                Err(e) => text_of(self@) == Err::<Seq<char>, ErrorView>(e@),
            },
    {
        self.deserialize_str()
    }

    /// Discards the node, whatever it is, without looking into it: this
    /// succeeds on every node, also on one that no other shape can read.
    pub fn deserialize_ignored_any(self) -> (r: Result<(), Error>)
        ensures
            r == Ok::<(), Error>(()),
    {
        Ok(())
    }

    /// The accessor over the entries of an object literal.
    pub fn deserialize_map(self) -> (r: Result<MapAccess<'de>, Error>)
        ensures
            match r {
                Ok(map) => map_of(self@) == Ok::<Seq<EntryView>, ErrorView>(map.remaining())
                    && map.pending() is None && map.is_owned() == self.is_owned(),
                Err(e) => map_of(self@) == Err::<Seq<EntryView>, ErrorView>(e@),
            },
    {
        match self.expr {
            Cow::Borrowed(Node::Object(props)) => Ok(
                MapAccess::new(Cow::Borrowed(props.as_slice())),
            ),
            Cow::Owned(Node::Object(props)) => Ok(MapAccess::new(Cow::Owned(props))),
            Cow::Borrowed(other) => Err(mismatch_of(other, "map")),
            Cow::Owned(other) => Err(mismatch_of(&other, "map")),
        }
    }

    /// The dispatcher itself: a newtype struct is read as what it wraps.
    pub fn deserialize_newtype_struct(self) -> (r: Deserializer<'de>)
        ensures
            r@ == self@,
            r.is_owned() == self.is_owned(),
    {
        self
    }

    /// The accessor over the slots of an array literal.
    pub fn deserialize_seq(self) -> (r: Result<SeqAccess<'de>, Error>)
        ensures
            match r {
                Ok(seq) => seq_of(self@) == Ok::<Seq<Option<ElementView>>, ErrorView>(
                    seq.remaining(),
                ) && seq.is_owned() == self.is_owned(),
                Err(e) => seq_of(self@) == Err::<Seq<Option<ElementView>>, ErrorView>(e@),
            },
    {
        match self.expr {
            Cow::Borrowed(Node::Array(elems)) => Ok(SeqAccess::new(Cow::Borrowed(elems.as_slice()))),
            Cow::Owned(Node::Array(elems)) => Ok(SeqAccess::new(Cow::Owned(elems))),
            Cow::Borrowed(other) => Err(mismatch_of(other, "sequence")),
            Cow::Owned(other) => Err(mismatch_of(&other, "sequence")),
        }
    }

    /// The text of a string literal or of a bare identifier, lent where the
    /// node was lent.
    pub fn deserialize_str(self) -> (r: Result<Cow<'de, str>, Error>)
        ensures
            match r {
                Ok(s) => text_of(self@) == Ok::<Seq<char>, ErrorView>(s@) && (s is Owned)
                    == self.is_owned(),
                Err(e) => text_of(self@) == Err::<Seq<char>, ErrorView>(e@),
            },
    {
        match self.expr {
            Cow::Borrowed(Node::Literal(Literal::Str(s))) => Ok(Cow::Borrowed(s.as_str())),
            Cow::Owned(Node::Literal(Literal::Str(s))) => Ok(Cow::Owned(s)),
            Cow::Borrowed(Node::Ident(s)) => Ok(Cow::Borrowed(s.as_str())),
            Cow::Owned(Node::Ident(s)) => Ok(Cow::Owned(s)),
            Cow::Borrowed(other) => Err(mismatch_of(other, "string")),
            Cow::Owned(other) => Err(mismatch_of(&other, "string")),
        }
    }

    /// As [`Deserializer::deserialize_str`].
    pub fn deserialize_string(self) -> (r: Result<Cow<'de, str>, Error>)
        ensures
            match r {
                Ok(s) => text_of(self@) == Ok::<Seq<char>, ErrorView>(s@) && (s is Owned)
                    == self.is_owned(),
                Err(e) => text_of(self@) == Err::<Seq<char>, ErrorView>(e@),
            },
    {
        self.deserialize_str()
    }

    /// As [`Deserializer::deserialize_map`].
    pub fn deserialize_struct(self) -> (r: Result<MapAccess<'de>, Error>)
        ensures
            match r {
                Ok(map) => map_of(self@) == Ok::<Seq<EntryView>, ErrorView>(map.remaining())
                    && map.pending() is None && map.is_owned() == self.is_owned(),
                Err(e) => map_of(self@) == Err::<Seq<EntryView>, ErrorView>(e@),
            },
    {
        self.deserialize_map()
    }

    /// As [`Deserializer::deserialize_seq`].
    pub fn deserialize_tuple(self) -> (r: Result<SeqAccess<'de>, Error>)
        ensures
            match r {
                Ok(seq) => seq_of(self@) == Ok::<Seq<Option<ElementView>>, ErrorView>(
                    seq.remaining(),
                ) && seq.is_owned() == self.is_owned(),
                Err(e) => seq_of(self@) == Err::<Seq<Option<ElementView>>, ErrorView>(e@),
            },
    {
        self.deserialize_seq()
    }

    /// As [`Deserializer::deserialize_seq`].
    pub fn deserialize_tuple_struct(self) -> (r: Result<SeqAccess<'de>, Error>)
        ensures
            match r {
                Ok(seq) => seq_of(self@) == Ok::<Seq<Option<ElementView>>, ErrorView>(
                    seq.remaining(),
                ) && seq.is_owned() == self.is_owned(),
                Err(e) => seq_of(self@) == Err::<Seq<Option<ElementView>>, ErrorView>(e@),
            },
    {
        self.deserialize_seq()
    }

    /// A numeric literal as a `u128`: see [`integer_of`].
    pub fn deserialize_u128(self) -> (r: Result<u128, Error>)
        ensures
            match r {
                Ok(v) => integer_of(self@, 0, u128::MAX as int, "u128"@) == Ok::<int, ErrorView>(
                    v as int,
                ),
                Err(e) => integer_of(self@, 0, u128::MAX as int, "u128"@) == Err::<int, ErrorView>(
                    e@,
                ),
            },
    {
        let expr = self.node();
        match expr {
            Node::Literal(Literal::Num(number)) => match number_to_u128(number) {
                Some(v) => Ok(v),
                None => Err(mismatch_of(expr, "u128")),
            },
            other => Err(mismatch_of(other, "u128")),
        }
    }

    /// A numeric literal as a `u16`: see [`integer_of`].
    pub fn deserialize_u16(self) -> (r: Result<u16, Error>)
        ensures
            match r {
                Ok(v) => integer_of(self@, 0, u16::MAX as int, "u16"@) == Ok::<int, ErrorView>(
                    v as int,
                ),
                Err(e) => integer_of(self@, 0, u16::MAX as int, "u16"@) == Err::<int, ErrorView>(
                    e@,
                ),
            },
    {
        let expr = self.node();
        match expr {
            Node::Literal(Literal::Num(number)) => match number_to_u16(number) {
                Some(v) => Ok(v),
                None => Err(mismatch_of(expr, "u16")),
            },
            other => Err(mismatch_of(other, "u16")),
        }
    }

    /// A numeric literal as a `u32`: see [`integer_of`].
    pub fn deserialize_u32(self) -> (r: Result<u32, Error>)
        ensures
            match r {
                Ok(v) => integer_of(self@, 0, u32::MAX as int, "u32"@) == Ok::<int, ErrorView>(
                    v as int,
                ),
                Err(e) => integer_of(self@, 0, u32::MAX as int, "u32"@) == Err::<int, ErrorView>(
                    e@,
                ),
            },
    {
        let expr = self.node();
        match expr {
            Node::Literal(Literal::Num(number)) => match number_to_u32(number) {
                Some(v) => Ok(v),
                None => Err(mismatch_of(expr, "u32")),
            },
            other => Err(mismatch_of(other, "u32")),
        }
    }

    /// A numeric literal as a `u64`: see [`integer_of`].
    pub fn deserialize_u64(self) -> (r: Result<u64, Error>)
        ensures
            match r {
                Ok(v) => integer_of(self@, 0, u64::MAX as int, "u64"@) == Ok::<int, ErrorView>(
                    v as int,
                ),
                Err(e) => integer_of(self@, 0, u64::MAX as int, "u64"@) == Err::<int, ErrorView>(
                    e@,
                ),
            },
    {
        let expr = self.node();
        match expr {
            Node::Literal(Literal::Num(number)) => match number_to_u64(number) {
                Some(v) => Ok(v),
                None => Err(mismatch_of(expr, "u64")),
            },
            other => Err(mismatch_of(other, "u64")),
        }
    }

    /// A numeric literal as a `u8`: see [`integer_of`].
    pub fn deserialize_u8(self) -> (r: Result<u8, Error>)
        ensures
            match r {
                Ok(v) => integer_of(self@, 0, u8::MAX as int, "u8"@) == Ok::<int, ErrorView>(
                    v as int,
                ),
                Err(e) => integer_of(self@, 0, u8::MAX as int, "u8"@) == Err::<int, ErrorView>(e@),
            },
    {
        let expr = self.node();
        match expr {
            Node::Literal(Literal::Num(number)) => match number_to_u8(number) {
                Some(v) => Ok(v),
                None => Err(mismatch_of(expr, "u8")),
            },
            other => Err(mismatch_of(other, "u8")),
        }
    }

    /// The unit, for the null literal: see [`unit_of`].
    pub fn deserialize_unit(self) -> (r: Result<(), Error>)
        ensures
            agrees(r, unit_of(self@)),
    {
        match self.node() {
            Node::Literal(Literal::Null) => Ok(()),
            other => Err(mismatch_of(other, "null")),
        }
    }

    /// As [`Deserializer::deserialize_unit`].
    pub fn deserialize_unit_struct(self) -> (r: Result<(), Error>)
        ensures
            agrees(r, unit_of(self@)),
    {
        self.deserialize_unit()
    }

    /// `None` for the null literal; for any other node the dispatcher
    /// itself, to be asked for the shape that the option wraps.
    pub fn deserialize_option(self) -> (r: Option<Deserializer<'de>>)
        ensures
            match r {
                None => self@ == NodeView::Literal(LiteralView::Null),
                Some(d) => self@ != NodeView::Literal(LiteralView::Null) && d@ == self@ && d.is_owned()
                    == self.is_owned(),
            },
    {
        let null = match self.node() {
            Node::Literal(Literal::Null) => true,
            _ => false,
        };
        if null {
            None
        } else {
            Some(self)
        }
    }
}

} // verus!
