//! The expression tree that the engine reads, and its mathematical model.
//!
//! A tree is made of array literals, object literals, primitive literals and
//! bare identifiers. Every other expression form is kept as
//! [`Node::Unsupported`]: the engine never looks inside one, and keeps only
//! where in the source it stands.
//!
//! Each type has a view: the same tree with strings as `Seq<char>` and
//! vectors as `Seq`. Contracts throughout the crate speak of views.

use vstd::prelude::*;

verus! {

/// Where in the source text something stands: from the byte position `lo`
/// up to the byte position `hi`. Both are 0 where that is not known.
#[derive(Debug, Clone, Copy, PartialEq, Eq)]
pub struct Span {
    pub lo: u32,
    pub hi: u32,
}

/// A numeric literal.
///
/// `value` is the IEEE-754 binary64 encoding of the literal's value. `raw`
/// is the source text it was written as, where that is known.
#[derive(Debug, Clone, PartialEq)]
pub struct Number {
    pub value: u64,
    pub raw: Option<String>,
}

/// A primitive literal.
#[derive(Debug, Clone, PartialEq)]
pub enum Literal {
    Str(String),
    Bool(bool),
    Null,
    Num(Number),
    /// A big integer, as its decimal digits.
    BigInt(String),
    /// A regular expression: its pattern and its flags.
    Regex(String, String),
    /// JSX text, as it is.
    JsxText(String),
}

/// The key of a property. Only an identifier and a string are names.
#[derive(Debug, Clone, PartialEq)]
pub enum Key {
    Ident(String),
    Str(String),
    Num(Number),
    /// A big integer, as its decimal digits.
    BigInt(String),
    /// A computed key: where the brackets stand.
    Computed(Span),
}

/// One property of an object literal. A method, a getter, a setter and an
/// assignment property are `Other`, with the place where they stand.
#[derive(Debug, PartialEq)]
pub enum Property {
    KeyValue(Key, Box<Node>),
    Shorthand(String),
    Other(Span),
}

/// One entry of an object literal.
#[derive(Debug, PartialEq)]
pub enum Entry {
    Spread(Box<Node>),
    Property(Box<Property>),
}

/// A present element of an array literal.
#[derive(Debug, PartialEq)]
pub struct Element {
    pub spread: bool,
    pub expr: Box<Node>,
}

/// An expression. An absent array element (a hole) is `None` in `Array`.
#[derive(Debug, PartialEq)]
pub enum Node {
    Array(Vec<Option<Element>>),
    Object(Vec<Entry>),
    Literal(Literal),
    Ident(String),
    /// Any other expression: where it stands.
    Unsupported(Span),
}

/// The view of [`Number`].
pub struct NumberView {
    pub value: u64,
    pub raw: Option<Seq<char>>,
}

/// The view of [`Literal`].
pub enum LiteralView {
    Str(Seq<char>),
    Bool(bool),
    Null,
    Num(NumberView),
    BigInt(Seq<char>),
    Regex(Seq<char>, Seq<char>),
    JsxText(Seq<char>),
}

/// The view of [`Key`].
pub enum KeyView {
    Ident(Seq<char>),
    Str(Seq<char>),
    Num(NumberView),
    BigInt(Seq<char>),
    Computed(Span),
}

/// The view of [`Property`].
pub enum PropertyView {
    KeyValue(KeyView, Box<NodeView>),
    Shorthand(Seq<char>),
    Other(Span),
}

/// The view of [`Entry`].
pub enum EntryView {
    Spread(Box<NodeView>),
    Property(Box<PropertyView>),
}

/// The view of [`Element`].
pub struct ElementView {
    pub spread: bool,
    pub expr: Box<NodeView>,
}

/// The view of [`Node`].
pub enum NodeView {
    Array(Seq<Option<ElementView>>),
    Object(Seq<EntryView>),
    Literal(LiteralView),
    Ident(Seq<char>),
    Unsupported(Span),
}

/// The view of a text that may be unknown.
pub open spec fn text_view(text: Option<String>) -> Option<Seq<char>> {
    match text {
        Some(s) => Some(s@),
        None => None,
    }
}

/// The view of a node: see [`Node`]'s `view`.
pub open spec fn node_view(e: Node) -> NodeView
    decreases e,
{
    match e {
        Node::Array(elems) => NodeView::Array(slots_view(elems@)),
        Node::Object(props) => NodeView::Object(entries_view(props@)),
        Node::Literal(lit) => NodeView::Literal(lit@),
        Node::Ident(sym) => NodeView::Ident(sym@),
        Node::Unsupported(span) => NodeView::Unsupported(span),
    }
}

/// The view of a slot of an array: of its element, or `None` for a hole.
pub open spec fn slot_view(slot: Option<Element>) -> Option<ElementView>
    decreases slot,
{
    match slot {
        Some(e) => Some(ElementView { spread: e.spread, expr: Box::new(node_view(*e.expr)) }),
        None => None,
    }
}

/// The views of the slots of an array, in order.
pub open spec fn slots_view(slots: Seq<Option<Element>>) -> Seq<Option<ElementView>>
    decreases slots,
{
    Seq::new(
        slots.len(),
        |i: int|
            if 0 <= i < slots.len() {
                slot_view(slots[i])
            } else {
                None
            },
    )
}

/// The view of a property.
pub open spec fn property_view(p: Property) -> PropertyView
    decreases p,
{
    match p {
        Property::KeyValue(key, value) => PropertyView::KeyValue(key@, Box::new(node_view(*value))),
        Property::Shorthand(name) => PropertyView::Shorthand(name@),
        Property::Other(span) => PropertyView::Other(span),
    }
}

/// The view of an entry of an object.
pub open spec fn entry_view(entry: Entry) -> EntryView
    decreases entry,
{
    match entry {
        Entry::Spread(e) => EntryView::Spread(Box::new(node_view(*e))),
        Entry::Property(p) => EntryView::Property(Box::new(property_view(*p))),
    }
}

/// The views of the entries of an object, in order.
pub open spec fn entries_view(entries: Seq<Entry>) -> Seq<EntryView>
    decreases entries,
{
    Seq::new(
        entries.len(),
        |i: int|
            if 0 <= i < entries.len() {
                entry_view(entries[i])
            } else {
                EntryView::Property(Box::new(PropertyView::Other(Span { lo: 0, hi: 0 })))
            },
    )
}

impl View for Number {
    type V = NumberView;

    open spec fn view(&self) -> NumberView {
        NumberView { value: self.value, raw: text_view(self.raw) }
    }
}

impl View for Literal {
    type V = LiteralView;

    open spec fn view(&self) -> LiteralView {
        match self {
            Literal::Str(s) => LiteralView::Str(s@),
            Literal::Bool(b) => LiteralView::Bool(*b),
            Literal::Null => LiteralView::Null,
            Literal::Num(n) => LiteralView::Num(n@),
            Literal::BigInt(digits) => LiteralView::BigInt(digits@),
            Literal::Regex(exp, flags) => LiteralView::Regex(exp@, flags@),
            Literal::JsxText(text) => LiteralView::JsxText(text@),
        }
    }
}

impl View for Key {
    type V = KeyView;

    open spec fn view(&self) -> KeyView {
        match self {
            Key::Ident(s) => KeyView::Ident(s@),
            Key::Str(s) => KeyView::Str(s@),
            Key::Num(n) => KeyView::Num(n@),
            Key::BigInt(digits) => KeyView::BigInt(digits@),
            Key::Computed(span) => KeyView::Computed(*span),
        }
    }
}

impl View for Property {
    type V = PropertyView;

    open spec fn view(&self) -> PropertyView {
        property_view(*self)
    }
}

impl View for Entry {
    type V = EntryView;

    open spec fn view(&self) -> EntryView {
        entry_view(*self)
    }
}

impl View for Element {
    type V = ElementView;

    open spec fn view(&self) -> ElementView {
        ElementView { spread: self.spread, expr: Box::new(node_view(*self.expr)) }
    }
}

impl View for Node {
    type V = NodeView;

    open spec fn view(&self) -> NodeView {
        node_view(*self)
    }
}

impl KeyView {
    /// The text of a key that is an identifier or a string; `None` for any
    /// other key.
    pub open spec fn text(self) -> Option<Seq<char>> {
        match self {
            KeyView::Ident(s) => Some(s),
            KeyView::Str(s) => Some(s),
            _ => None,
        }
    }
}

impl Number {
    /// A copy of this literal.
    pub fn duplicate(&self) -> (r: Number)
        ensures
            r@ == self@,
    {
        let raw = match &self.raw {
            Some(s) => Some(s.clone()),
            None => None,
        };
        Number { value: self.value, raw }
    }
}

impl Literal {
    /// A copy of this literal.
    pub fn duplicate(&self) -> (r: Literal)
        ensures
            r@ == self@,
    {
        match self {
            Literal::Str(s) => Literal::Str(s.clone()),
            Literal::Bool(b) => Literal::Bool(*b),
            Literal::Null => Literal::Null,
            Literal::Num(n) => Literal::Num(n.duplicate()),
            Literal::BigInt(digits) => Literal::BigInt(digits.clone()),
            Literal::Regex(exp, flags) => Literal::Regex(exp.clone(), flags.clone()),
            Literal::JsxText(text) => Literal::JsxText(text.clone()),
        }
    }
}

impl Key {
    /// A copy of this key.
    pub fn duplicate(&self) -> (r: Key)
        ensures
            r@ == self@,
    {
        match self {
            Key::Ident(s) => Key::Ident(s.clone()),
            Key::Str(s) => Key::Str(s.clone()),
            Key::Num(n) => Key::Num(n.duplicate()),
            Key::BigInt(digits) => Key::BigInt(digits.clone()),
            Key::Computed(span) => Key::Computed(*span),
        }
    }
}

impl Property {
    /// A deep copy of this property.
    pub fn duplicate(&self) -> (r: Property)
        ensures
            r@ == self@,
        decreases self,
    {
        match self {
            Property::KeyValue(key, value) => Property::KeyValue(
                key.duplicate(),
                Box::new(value.duplicate()),
            ),
            Property::Shorthand(name) => Property::Shorthand(name.clone()),
            Property::Other(span) => Property::Other(*span),
        }
    }
}

impl Entry {
    /// A deep copy of this entry.
    pub fn duplicate(&self) -> (r: Entry)
        ensures
            r@ == self@,
        decreases self,
    {
        match self {
            Entry::Spread(e) => Entry::Spread(Box::new(e.duplicate())),
            Entry::Property(p) => Entry::Property(Box::new(p.duplicate())),
        }
    }
}

impl Element {
    /// A deep copy of this element.
    pub fn duplicate(&self) -> (r: Element)
        ensures
            r@ == self@,
        decreases self,
    {
        Element { spread: self.spread, expr: Box::new(self.expr.duplicate()) }
    }
}

impl Node {
    /// A deep copy of this expression.
    pub fn duplicate(&self) -> (r: Node)
        ensures
            r@ == self@,
        decreases self,
    {
        match self {
            Node::Array(elems) => {
                let mut copy: Vec<Option<Element>> = Vec::new();
                let mut i: usize = 0;
                while i < elems.len()
                    invariant
                        *self == Node::Array(*elems),
                        i <= elems.len(),
                        copy@.len() == i,
                        forall|j: int| 0 <= j < i ==> slot_view(#[trigger] copy@[j]) == slot_view(elems@[j]),
                    decreases elems.len() - i,
                {
                    assert(decreases_to!(*self => self->Array_0@[i as int]));
                    let slot = match &elems[i] {
                        Some(e) => Some(e.duplicate()),
                        None => None,
                    };
                    copy.push(slot);
                    i += 1;
                }
                assert(slots_view(copy@) =~= slots_view(elems@));
                Node::Array(copy)
            },
            Node::Object(props) => {
                let mut copy: Vec<Entry> = Vec::new();
                let mut i: usize = 0;
                while i < props.len()
                    invariant
                        *self == Node::Object(*props),
                        i <= props.len(),
                        copy@.len() == i,
                        forall|j: int| 0 <= j < i ==> entry_view(#[trigger] copy@[j]) == entry_view(props@[j]),
                    decreases props.len() - i,
                {
                    assert(decreases_to!(*self => self->Object_0@[i as int]));
                    let entry = props[i].duplicate();
                    copy.push(entry);
                    i += 1;
                }
                assert(entries_view(copy@) =~= entries_view(props@));
                Node::Object(copy)
            },
            Node::Literal(lit) => Node::Literal(lit.duplicate()),
            Node::Ident(sym) => Node::Ident(sym.clone()),
            Node::Unsupported(span) => Node::Unsupported(*span),
        }
    }
}

impl Clone for Property {
    fn clone(&self) -> (r: Self)
        ensures
            r@ == self@,
    {
        self.duplicate()
    }
}

impl Clone for Entry {
    fn clone(&self) -> (r: Self)
        ensures
            r@ == self@,
    {
        self.duplicate()
    }
}

impl Clone for Element {
    fn clone(&self) -> (r: Self)
        ensures
            r@ == self@,
    {
        self.duplicate()
    }
}

impl Clone for Node {
    fn clone(&self) -> (r: Self)
        ensures
            r@ == self@,
    {
        self.duplicate()
    }
}

} // verus!
