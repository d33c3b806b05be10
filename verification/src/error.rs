//! The failures of the engine.

use vstd::prelude::*;
use crate::ast::{
    Key,
    KeyView,
    Literal,
    LiteralView,
    Node,
    NodeView,
    Number,
    NumberView,
    Property,
    PropertyView,
};
use crate::number::{number_to_unexpected, unexpected_of};

verus! {

/// What was found where something else was asked for.
#[derive(Debug, Clone, PartialEq)]
pub enum Unexpected {
    Bool(bool),
    Unsigned(u64),
    Signed(i64),
    /// A number that does not count as an integer, as its binary64 encoding.
    Float(u64),
    Str(String),
    Null,
    Array,
    Object,
    /// An enum tag that names a variant and brings no payload.
    UnitVariant,
}

/// A failure raised by the target's own validation, or a mismatch between
/// the shape asked for and the node found.
#[derive(Debug, Clone, PartialEq)]
pub enum Mismatch {
    Custom(String),
    InvalidType { unexpected: Unexpected, expected: String },
    InvalidValue { unexpected: Unexpected, expected: String },
    InvalidLength { len: usize, expected: String },
    UnknownVariant { variant: String, known: Vec<String> },
    UnknownField { field: String, known: Vec<String> },
    MissingField(String),
    DuplicateField(String),
}

/// What the parser said of a source text that it could not read: its
/// message, and the byte positions between which the fault lies.
#[derive(Debug, Clone, PartialEq)]
pub struct ParseError {
    pub message: String,
    pub lo: u32,
    pub hi: u32,
}

/// Every way in which reading a tree can fail.
#[derive(Debug, Clone, PartialEq)]
pub enum Error {
    /// The source text is not an expression.
    EcmaParse(ParseError),
    /// The key of a property is neither an identifier nor a string; holds
    /// the key.
    InvalidObjectKey(Key),
    /// A literal that counts as an integer but whose value no integer type
    /// of 64 bits holds.
    InvalidNumber(Number),
    /// A literal that is not valid where it stands. The engine itself
    /// never raises this: it is for targets that read literals.
    InvalidLiteral(Literal),
    /// A property that is not valid where it stands. The engine itself
    /// never raises this: it is for targets that read properties.
    InvalidProp(Box<Property>),
    /// A hole in an array literal.
    InvalidArrayElement,
    /// A big integer, where none can be read; holds its decimal digits.
    UnexpectedBigInt(String),
    /// JSX text, where none can be read; holds the text.
    UnexpectedJsxText(String),
    /// A regular expression, where none can be read; holds its pattern and
    /// its flags.
    UnexpectedRegex(String, String),
    /// A spread where a property was required; holds the spread expression.
    UnexpectedSpread(Box<Node>),
    /// A property that is not a plain `key: value`.
    UnexpectedProp(Box<Property>),
    /// A node that the requested shape has no use for.
    UnexpectedExpr(Node),
    /// A value was asked for with no key pending.
    ExpectedFieldValue,
    Serde(Mismatch),
}

/// The view of [`Unexpected`].
pub enum UnexpectedView {
    Bool(bool),
    Unsigned(u64),
    Signed(i64),
    Float(u64),
    Str(Seq<char>),
    Null,
    Array,
    Object,
    UnitVariant,
}

/// The view of [`Mismatch`].
pub enum MismatchView {
    Custom(Seq<char>),
    InvalidType { unexpected: UnexpectedView, expected: Seq<char> },
    InvalidValue { unexpected: UnexpectedView, expected: Seq<char> },
    InvalidLength { len: usize, expected: Seq<char> },
    UnknownVariant { variant: Seq<char>, known: Seq<Seq<char>> },
    UnknownField { field: Seq<char>, known: Seq<Seq<char>> },
    MissingField(Seq<char>),
    DuplicateField(Seq<char>),
}

/// The view of [`ParseError`].
pub struct ParseErrorView {
    pub message: Seq<char>,
    pub lo: u32,
    pub hi: u32,
}

/// The view of [`Error`].
pub enum ErrorView {
    EcmaParse(ParseErrorView),
    InvalidObjectKey(KeyView),
    InvalidNumber(NumberView),
    InvalidLiteral(LiteralView),
    InvalidProp(PropertyView),
    InvalidArrayElement,
    UnexpectedBigInt(Seq<char>),
    UnexpectedJsxText(Seq<char>),
    UnexpectedRegex(Seq<char>, Seq<char>),
    UnexpectedSpread(NodeView),
    UnexpectedProp(PropertyView),
    UnexpectedExpr(NodeView),
    ExpectedFieldValue,
    Serde(MismatchView),
}

impl View for Unexpected {
    type V = UnexpectedView;

    open spec fn view(&self) -> UnexpectedView {
        match self {
            Unexpected::Bool(b) => UnexpectedView::Bool(*b),
            Unexpected::Unsigned(v) => UnexpectedView::Unsigned(*v),
            Unexpected::Signed(v) => UnexpectedView::Signed(*v),
            Unexpected::Float(v) => UnexpectedView::Float(*v),
            Unexpected::Str(s) => UnexpectedView::Str(s@),
            Unexpected::Null => UnexpectedView::Null,
            Unexpected::Array => UnexpectedView::Array,
            Unexpected::Object => UnexpectedView::Object,
            Unexpected::UnitVariant => UnexpectedView::UnitVariant,
        }
    }
}

/// The names of a list, each as its characters.
pub open spec fn names_view(names: Seq<String>) -> Seq<Seq<char>> {
    Seq::new(names.len(), |i: int| names[i]@)
}

impl View for Mismatch {
    type V = MismatchView;

    open spec fn view(&self) -> MismatchView {
        match self {
            Mismatch::Custom(msg) => MismatchView::Custom(msg@),
            Mismatch::InvalidType { unexpected, expected } => MismatchView::InvalidType {
                unexpected: unexpected@,
                expected: expected@,
            },
            Mismatch::InvalidValue { unexpected, expected } => MismatchView::InvalidValue {
                unexpected: unexpected@,
                expected: expected@,
            },
            Mismatch::InvalidLength { len, expected } => MismatchView::InvalidLength {
                len: *len,
                expected: expected@,
            },
            Mismatch::UnknownVariant { variant, known } => MismatchView::UnknownVariant {
                variant: variant@,
                known: names_view(known@),
            },
            Mismatch::UnknownField { field, known } => MismatchView::UnknownField {
                field: field@,
                known: names_view(known@),
            },
            Mismatch::MissingField(field) => MismatchView::MissingField(field@),
            Mismatch::DuplicateField(field) => MismatchView::DuplicateField(field@),
        }
    }
}

impl View for ParseError {
    type V = ParseErrorView;

    open spec fn view(&self) -> ParseErrorView {
        ParseErrorView { message: self.message@, lo: self.lo, hi: self.hi }
    }
}

impl View for Error {
    type V = ErrorView;

    open spec fn view(&self) -> ErrorView {
        match self {
            Error::EcmaParse(failure) => ErrorView::EcmaParse(failure@),
            Error::InvalidObjectKey(key) => ErrorView::InvalidObjectKey(key@),
            Error::InvalidNumber(n) => ErrorView::InvalidNumber(n@),
            Error::InvalidLiteral(lit) => ErrorView::InvalidLiteral(lit@),
            Error::InvalidProp(p) => ErrorView::InvalidProp(p@),
            Error::InvalidArrayElement => ErrorView::InvalidArrayElement,
            Error::UnexpectedBigInt(digits) => ErrorView::UnexpectedBigInt(digits@),
            Error::UnexpectedJsxText(text) => ErrorView::UnexpectedJsxText(text@),
            Error::UnexpectedRegex(exp, flags) => ErrorView::UnexpectedRegex(exp@, flags@),
            Error::UnexpectedSpread(e) => ErrorView::UnexpectedSpread(e@),
            Error::UnexpectedProp(p) => ErrorView::UnexpectedProp(p@),
            Error::UnexpectedExpr(e) => ErrorView::UnexpectedExpr(e@),
            Error::ExpectedFieldValue => ErrorView::ExpectedFieldValue,
            Error::Serde(m) => ErrorView::Serde(m@),
        }
    }
}

/// The failure for a node of the wrong type.
pub open spec fn invalid_type(unexpected: UnexpectedView, expected: Seq<char>) -> ErrorView {
    ErrorView::Serde(MismatchView::InvalidType { unexpected, expected })
}

/// The failure for a node of the right type and a wrong value.
pub open spec fn invalid_value(unexpected: UnexpectedView, expected: Seq<char>) -> ErrorView {
    ErrorView::Serde(MismatchView::InvalidValue { unexpected, expected })
}

/// The failure for a composite of the wrong length.
pub open spec fn invalid_length(len: usize, expected: Seq<char>) -> ErrorView {
    ErrorView::Serde(MismatchView::InvalidLength { len, expected })
}

/// The failure for a literal met where `expected` was asked for.
///
/// A boolean, a string and null give a type mismatch that names them. A
/// number gives a type mismatch that names it as signed, unsigned or float,
/// or [`ErrorView::InvalidNumber`] where it is none of these. A big integer,
/// a regular expression and JSX text each have a failure of their own.
pub open spec fn unexpected_lit(lit: LiteralView, expected: Seq<char>) -> ErrorView {
    match lit {
        LiteralView::Bool(b) => invalid_type(UnexpectedView::Bool(b), expected),
        LiteralView::BigInt(digits) => ErrorView::UnexpectedBigInt(digits),
        LiteralView::JsxText(text) => ErrorView::UnexpectedJsxText(text),
        LiteralView::Null => invalid_type(UnexpectedView::Null, expected),
        LiteralView::Num(n) => match unexpected_of(n) {
            Some(unexpected) => invalid_type(unexpected, expected),
            None => ErrorView::InvalidNumber(n),
        },
        LiteralView::Regex(exp, flags) => ErrorView::UnexpectedRegex(exp, flags),
        LiteralView::Str(s) => invalid_type(UnexpectedView::Str(s), expected),
    }
}

/// The views of a list of names.
pub open spec fn strs_view(names: Seq<&str>) -> Seq<Seq<char>> {
    Seq::new(names.len(), |i: int| names[i]@)
}

/// What a failure says of itself, whatever it holds.
pub open spec fn message_of(e: ErrorView) -> Seq<char> {
    match e {
        ErrorView::EcmaParse(_) => "JavaScript parsing error"@,
        ErrorView::InvalidObjectKey(_) => "Invalid object key"@,
        ErrorView::InvalidNumber(_) => "Invalid number"@,
        ErrorView::InvalidLiteral(_) => "Invalid literal"@,
        ErrorView::InvalidProp(_) => "Invalid prop"@,
        ErrorView::InvalidArrayElement => "Invalid array element"@,
        ErrorView::UnexpectedBigInt(_) => "Unexpected big integer"@,
        ErrorView::UnexpectedJsxText(_) => "Unexpected JSX text"@,
        ErrorView::UnexpectedRegex(_, _) => "Unexpected regex"@,
        ErrorView::UnexpectedSpread(_) => "Unexpected spread"@,
        ErrorView::UnexpectedProp(_) => "Unexpected property"@,
        ErrorView::UnexpectedExpr(_) => "Unexpected expression"@,
        ErrorView::ExpectedFieldValue => "Expected field value"@,
        ErrorView::Serde(_) => "Serde error"@,
    }
}

/// The names of `list`, each in a string of its own.
fn owned_names(list: &[&str]) -> (r: Vec<String>)
    ensures
        names_view(r@) == strs_view(list@),
{
    let mut r: Vec<String> = Vec::new();
    let mut i: usize = 0;
    while i < list.len()
        invariant
            i <= list.len(),
            r@.len() == i,
            forall|j: int| 0 <= j < i ==> (#[trigger] r@[j])@ == list@[j]@,
        decreases list.len() - i,
    {
        r.push(list[i].to_owned());
        i += 1;
    }
    assert(names_view(r@) =~= strs_view(list@));
    r
}

impl Error {
    /// What the failure says of itself: see [`message_of`].
    pub fn message(&self) -> (r: &'static str)
        ensures
            r@ == message_of(self@),
    {
        match self {
            Error::EcmaParse(_) => "JavaScript parsing error",
            Error::InvalidObjectKey(_) => "Invalid object key",
            Error::InvalidNumber(_) => "Invalid number",
            Error::InvalidLiteral(_) => "Invalid literal",
            Error::InvalidProp(_) => "Invalid prop",
            Error::InvalidArrayElement => "Invalid array element",
            Error::UnexpectedBigInt(_) => "Unexpected big integer",
            Error::UnexpectedJsxText(_) => "Unexpected JSX text",
            Error::UnexpectedRegex(_, _) => "Unexpected regex",
            Error::UnexpectedSpread(_) => "Unexpected spread",
            Error::UnexpectedProp(_) => "Unexpected property",
            Error::UnexpectedExpr(_) => "Unexpected expression",
            Error::ExpectedFieldValue => "Expected field value",
            Error::Serde(_) => "Serde error",
        }
    }

    /// A failure that the target words itself.
    pub fn custom(msg: &str) -> (e: Error)
        ensures
            e@ == ErrorView::Serde(MismatchView::Custom(msg@)),
    {
        Error::Serde(Mismatch::Custom(msg.to_owned()))
    }

    /// The failure for a field that occurs twice.
    pub fn duplicate_field(field: &str) -> (e: Error)
        ensures
            e@ == ErrorView::Serde(MismatchView::DuplicateField(field@)),
    {
        Error::Serde(Mismatch::DuplicateField(field.to_owned()))
    }

    /// The failure for a field that does not occur.
    pub fn missing_field(field: &str) -> (e: Error)
        ensures
            e@ == ErrorView::Serde(MismatchView::MissingField(field@)),
    {
        Error::Serde(Mismatch::MissingField(field.to_owned()))
    }

    /// The failure for a field that the target does not have; `expected`
    /// names those that it has.
    pub fn unknown_field(field: &str, expected: &[&str]) -> (e: Error)
        ensures
            e@ == ErrorView::Serde(
                MismatchView::UnknownField { field: field@, known: strs_view(expected@) },
            ),
    {
        Error::Serde(Mismatch::UnknownField { field: field.to_owned(), known: owned_names(expected) })
    }

    /// The failure for a variant that the target does not have; `expected`
    /// names those that it has.
    pub fn unknown_variant(variant: &str, expected: &[&str]) -> (e: Error)
        ensures
            e@ == ErrorView::Serde(
                MismatchView::UnknownVariant { variant: variant@, known: strs_view(expected@) },
            ),
    {
        Error::Serde(
            Mismatch::UnknownVariant { variant: variant.to_owned(), known: owned_names(expected) },
        )
    }

    /// The failure for `lit` met where `expected` was asked for.
    pub fn unexpected_lit(lit: &Literal, expected: &str) -> (e: Error)
        ensures
            e@ == unexpected_lit(lit@, expected@),
    {
        match lit {
            Literal::Bool(b) => Error::invalid_type(Unexpected::Bool(*b), expected),
            Literal::BigInt(digits) => Error::UnexpectedBigInt(digits.clone()),
            Literal::JsxText(text) => Error::UnexpectedJsxText(text.clone()),
            Literal::Null => Error::invalid_type(Unexpected::Null, expected),
            Literal::Num(number) => match number_to_unexpected(number) {
                Some(unexpected) => Error::invalid_type(unexpected, expected),
                None => Error::InvalidNumber(number.duplicate()),
            },
            Literal::Regex(exp, flags) => Error::UnexpectedRegex(exp.clone(), flags.clone()),
            Literal::Str(s) => Error::invalid_type(Unexpected::Str(s.clone()), expected),
        }
    }

    /// The failure for a node of the wrong type: see [`invalid_type`].
    pub fn invalid_type(unexpected: Unexpected, expected: &str) -> (e: Error)
        ensures
            e@ == invalid_type(unexpected@, expected@),
    {
        Error::Serde(Mismatch::InvalidType { unexpected, expected: expected.to_owned() })
    }

    /// The failure for a node of the right type and a wrong value.
    pub fn invalid_value(unexpected: Unexpected, expected: &str) -> (e: Error)
        ensures
            e@ == invalid_value(unexpected@, expected@),
    {
        Error::Serde(Mismatch::InvalidValue { unexpected, expected: expected.to_owned() })
    }

    /// The failure for a composite of the wrong length.
    pub fn invalid_length(len: usize, expected: &str) -> (e: Error)
        ensures
            e@ == invalid_length(len, expected@),
    {
        Error::Serde(Mismatch::InvalidLength { len, expected: expected.to_owned() })
    }
}

} // verus!
