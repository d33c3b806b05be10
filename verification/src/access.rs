//! The accessors that walk arrays, objects and enum tags, one step at a time.

use std::borrow::Cow;
use vstd::prelude::*;
use crate::ast::{
    entries_view,
    slots_view,
    Element,
    ElementView,
    Entry,
    EntryView,
    Key,
    Node,
    NodeView,
    Property,
    PropertyView,
};
use crate::de::{map_of, seq_of, Deserializer};
use crate::error::{Error, ErrorView};

verus! {

/// The items of `items` in reverse order.
fn reversed<T>(items: Vec<T>) -> (r: Vec<T>)
    ensures
        r@.len() == items@.len(),
        forall|i: int| 0 <= i < r@.len() ==> r@[i] == items@[items@.len() - 1 - i],
{
    let mut items = items;
    let ghost all = items@;
    let mut r: Vec<T> = Vec::new();
    while items.len() > 0
        invariant
            items@.len() + r@.len() == all.len(),
            items@ == all.subrange(0, items@.len() as int),
            forall|i: int| 0 <= i < r@.len() ==> r@[i] == all[all.len() - 1 - i],
        decreases items@.len(),
    {
        match items.pop() {
            Some(item) => {
                r.push(item);
            },
            None => {},
        }
    }
    r
}

/// The views of slots that are held last first, first slot first.
spec fn slots_from_back(held: Seq<Option<Element>>) -> Seq<Option<ElementView>> {
    Seq::new(held.len(), |i: int| slots_view(held)[held.len() - 1 - i])
}

/// The views of entries that are held last first, first entry first.
spec fn entries_from_back(held: Seq<Entry>) -> Seq<EntryView> {
    Seq::new(held.len(), |i: int| entries_view(held)[held.len() - 1 - i])
}

/// The slots of an array literal that have not been yielded yet.
#[derive(Debug)]
pub struct SeqAccess<'de> {
    /// In owned mode the slots are held last first, so that the next one is
    /// popped from the end.
    values: Cow<'de, [Option<Element>]>,
}

impl<'de> SeqAccess<'de> {
    /// The slots that are left, in the order in which they will be yielded.
    pub closed spec fn remaining(&self) -> Seq<Option<ElementView>> {
        match self.values {
            Cow::Borrowed(values) => slots_view(values@),
            Cow::Owned(values) => slots_from_back(values@),
        }
    }

    /// Whether the slots were moved into the accessor.
    pub closed spec fn is_owned(&self) -> bool {
        self.values is Owned
    }

    pub(crate) fn new(values: Cow<'de, [Option<Element>]>) -> (r: Self)
        ensures
            r.remaining() == slots_view(values@),
            r.is_owned() == (values is Owned),
    {
        match values {
            Cow::Borrowed(values) => SeqAccess { values: Cow::Borrowed(values) },
            Cow::Owned(values) => {
                let ghost before = values@;
                let values = reversed(values);
                let r = SeqAccess { values: Cow::Owned(values) };
                assert(r.remaining() =~= slots_view(before));
                r
            },
        }
    }

    /// Yields the dispatcher of the next element, in the accessor's own mode.
    ///
    /// With no slot left the result is `None`. Otherwise the first slot is
    /// consumed; a hole is a failure.
    pub fn next_element(&mut self) -> (r: Result<Option<Deserializer<'de>>, Error>)
        ensures
            final(self).is_owned() == old(self).is_owned(),
            old(self).remaining().len() == 0 ==> (r matches Ok(None)) && final(self).remaining()
                == old(self).remaining(),
            old(self).remaining().len() > 0 ==> final(self).remaining() == old(
                self,
            ).remaining().drop_first() && match old(self).remaining()[0] {
                None => r matches Err(e) && e@ == ErrorView::InvalidArrayElement,
                Some(slot) => r matches Ok(Some(d)) && d@ == *slot.expr && d.is_owned() == old(
                    self,
                ).is_owned(),
            },
    {
        match &mut self.values {
            Cow::Borrowed(values) => {
                let all: &'de [Option<Element>] = *values;
                if all.len() == 0 {
                    Ok(None)
                } else {
                    let value = &all[0];
                    *values = &all[1..all.len()];
                    assert(slots_view(all@.subrange(1, all@.len() as int)) =~= slots_view(
                        all@,
                    ).drop_first());
                    match value {
                        None => Err(Error::InvalidArrayElement),
                        Some(element) => Ok(Some(Deserializer::borrowed(&*element.expr))),
                    }
                }
            },
            Cow::Owned(values) => {
                let ghost before = values@;
                match values.pop() {
                    None => Ok(None),
                    Some(value) => {
                        assert(slots_from_back(values@) =~= slots_from_back(before).drop_first());
                        match value {
                            None => Err(Error::InvalidArrayElement),
                            Some(element) => Ok(Some(Deserializer::owned(*element.expr))),
                        }
                    },
                }
            },
        }
    }

    /// The number of slots that are left.
    pub fn size_hint(&self) -> (r: Option<usize>)
        ensures
            r == Some(self.remaining().len() as usize),
    {
        match &self.values {
            Cow::Borrowed(values) => Some(values.len()),
            Cow::Owned(values) => Some(values.len()),
        }
    }
}

/// The key and the value of an entry that is a plain `key: value` whose key
/// is an identifier or a string; else the failure that the entry gives.
pub open spec fn entry_key_value(entry: EntryView) -> Result<
    (Seq<char>, NodeView),
    ErrorView,
> {
    match entry {
        EntryView::Spread(spread) => Err(ErrorView::UnexpectedSpread(*spread)),
        EntryView::Property(prop) => match *prop {
            PropertyView::KeyValue(key, value) => match key.text() {
                Some(text) => Ok((text, *value)),
                None => Err(ErrorView::InvalidObjectKey(key)),
            },
            other => Err(ErrorView::UnexpectedProp(other)),
        },
    }
}

/// The value of an entry that is a plain `key: value`, whatever its key.
pub open spec fn entry_value(entry: EntryView) -> Option<NodeView> {
    match entry {
        EntryView::Property(prop) => match *prop {
            PropertyView::KeyValue(_, value) => Some(*value),
            _ => None,
        },
        _ => None,
    }
}

/// The text of a key that is an identifier or a string.
pub(crate) fn key_to_str(key: &Key) -> (r: Option<&str>)
    ensures
        match r {
            Some(text) => key@.text() == Some(text@),
            None => key@.text() is None,
        },
{
    match key {
        Key::Str(text) => Some(text.as_str()),
        Key::Ident(text) => Some(text.as_str()),
        _ => None,
    }
}

/// As [`key_to_str`], of a key that is given up: the text of a name, or
/// the key itself where it is none.
pub(crate) fn key_into_string(key: Key) -> (r: Result<String, Key>)
    ensures
        match r {
            Ok(text) => key@.text() == Some(text@),
            Err(other) => key@.text() is None && other@ == key@,
        },
{
    match key {
        Key::Str(text) => Ok(text),
        Key::Ident(text) => Ok(text),
        other => Err(other),
    }
}

#[derive(Debug)]
enum Fields<'de> {
    Borrowed { fields: &'de [Entry], value: Option<&'de Node> },
    /// The entries are held last first.
    Owned { fields: Vec<Entry>, value: Option<Node> },
}

/// The entries of an object literal that have not been yielded yet, and
/// the value of the entry whose key was yielded last, until it is taken.
#[derive(Debug)]
pub struct MapAccess<'de> {
    state: Fields<'de>,
}

impl<'de> MapAccess<'de> {
    /// The entries that are left, in the order in which they will be read.
    pub closed spec fn remaining(&self) -> Seq<EntryView> {
        match self.state {
            Fields::Borrowed { fields, .. } => entries_view(fields@),
            Fields::Owned { fields, .. } => entries_from_back(fields@),
        }
    }

    /// The value that waits to be taken.
    pub closed spec fn pending(&self) -> Option<NodeView> {
        match self.state {
            Fields::Borrowed { value: Some(value), .. } => Some(value@),
            Fields::Owned { value: Some(value), .. } => Some(value@),
            _ => None,
        }
    }

    /// Whether the entries were moved into the accessor.
    pub closed spec fn is_owned(&self) -> bool {
        self.state is Owned
    }

    pub(crate) fn new(fields: Cow<'de, [Entry]>) -> (r: Self)
        ensures
            r.remaining() == entries_view(fields@),
            r.pending() is None,
            r.is_owned() == (fields is Owned),
    {
        match fields {
            Cow::Borrowed(fields) => MapAccess { state: Fields::Borrowed { fields, value: None } },
            Cow::Owned(fields) => {
                let ghost before = fields@;
                let fields = reversed(fields);
                let r = MapAccess { state: Fields::Owned { fields, value: None } };
                assert(r.remaining() =~= entries_view(before));
                r
            },
        }
    }

    /// Yields the key of the next entry.
    ///
    /// With no entry left the result is `None` and nothing changes.
    /// Otherwise the first entry is consumed. A plain `key: value` leaves
    /// its value pending, and its key is yielded if it is an identifier or a
    /// string. A spread, any other property and any other key are failures.
    pub fn next_key(&mut self) -> (r: Result<Option<Cow<'de, str>>, Error>)
        ensures
            final(self).is_owned() == old(self).is_owned(),
            old(self).remaining().len() == 0 ==> (r matches Ok(None)) && final(self).remaining()
                == old(self).remaining() && final(self).pending() == old(self).pending(),
            old(self).remaining().len() > 0 ==> {
                let entry = old(self).remaining()[0];
                &&& final(self).remaining() == old(self).remaining().drop_first()
                &&& final(self).pending() == match entry_value(entry) {
                    Some(value) => Some(value),
                    None => old(self).pending(),
                }
                &&& match entry_key_value(entry) {
                    Ok((key, _)) => r matches Ok(Some(k)) && k@ == key && (k is Owned) == old(
                        self,
                    ).is_owned(),
                    Err(e) => r matches Err(err) && err@ == e,
                }
            },
    {
        match &mut self.state {
            Fields::Borrowed { fields, value } => {
                let all: &'de [Entry] = *fields;
                if all.len() == 0 {
                    Ok(None)
                } else {
                    let entry = &all[0];
                    *fields = &all[1..all.len()];
                    assert(entries_view(all@.subrange(1, all@.len() as int)) =~= entries_view(
                        all@,
                    ).drop_first());
                    match entry {
                        Entry::Property(prop) => match &**prop {
                            Property::KeyValue(key, pending) => {
                                *value = Some(&**pending);
                                match key_to_str(key) {
                                    Some(text) => Ok(Some(Cow::Borrowed(text))),
                                    None => Err(Error::InvalidObjectKey(key.duplicate())),
                                }
                            },
                            other => Err(Error::UnexpectedProp(Box::new(other.duplicate()))),
                        },
                        Entry::Spread(spread) => Err(
                            Error::UnexpectedSpread(Box::new(spread.duplicate())),
                        ),
                    }
                }
            },
            Fields::Owned { fields, value } => {
                let ghost before = fields@;
                match fields.pop() {
                    None => Ok(None),
                    Some(entry) => {
                        assert(entries_from_back(fields@) =~= entries_from_back(
                            before,
                        ).drop_first());
                        match entry {
                            Entry::Property(prop) => match *prop {
                                Property::KeyValue(key, pending) => {
                                    *value = Some(*pending);
                                    match key_into_string(key) {
                                        Ok(text) => Ok(Some(Cow::Owned(text))),
                                        Err(other) => Err(Error::InvalidObjectKey(other)),
                                    }
                                },
                                other => Err(Error::UnexpectedProp(Box::new(other))),
                            },
                            Entry::Spread(spread) => Err(Error::UnexpectedSpread(spread)),
                        }
                    },
                }
            },
        }
    }

    /// Yields the dispatcher of the pending value, in the accessor's own
    /// mode, and leaves none pending. With none pending it fails.
    pub fn next_value(&mut self) -> (r: Result<Deserializer<'de>, Error>)
        ensures
            final(self).is_owned() == old(self).is_owned(),
            final(self).remaining() == old(self).remaining(),
            final(self).pending() is None,
            match old(self).pending() {
                Some(value) => r matches Ok(d) && d@ == value && d.is_owned() == old(
                    self,
                ).is_owned(),
                None => r matches Err(e) && e@ == ErrorView::ExpectedFieldValue,
            },
    {
        match &mut self.state {
            Fields::Borrowed { value, .. } => match value.take() {
                Some(pending) => Ok(Deserializer::borrowed(pending)),
                None => Err(Error::ExpectedFieldValue),
            },
            Fields::Owned { value, .. } => match value.take() {
                Some(pending) => Ok(Deserializer::owned(pending)),
                None => Err(Error::ExpectedFieldValue),
            },
        }
    }

    /// The number of entries that are left.
    pub fn size_hint(&self) -> (r: Option<usize>)
        ensures
            r == Some(self.remaining().len() as usize),
    {
        match &self.state {
            Fields::Borrowed { fields, .. } => Some(fields.len()),
            Fields::Owned { fields, .. } => Some(fields.len()),
        }
    }
}

#[derive(Debug)]
enum Selected<'de> {
    Borrowed { key: &'de str, value: &'de Node },
    Owned { key: String, value: Node },
}

/// The variant that a keyed enum tag names, and its payload.
#[derive(Debug)]
pub struct EnumAccess<'de> {
    state: Selected<'de>,
}

impl<'de> EnumAccess<'de> {
    /// The variant's name.
    pub closed spec fn variant_name(&self) -> Seq<char> {
        match self.state {
            Selected::Borrowed { key, .. } => key@,
            Selected::Owned { key, .. } => key@,
        }
    }

    /// The variant's payload.
    pub closed spec fn payload(&self) -> NodeView {
        match self.state {
            Selected::Borrowed { value, .. } => value@,
            Selected::Owned { value, .. } => value@,
        }
    }

    /// Whether name and payload were moved into the accessor.
    pub closed spec fn is_owned(&self) -> bool {
        self.state is Owned
    }

    pub(crate) fn borrowed(key: &'de str, value: &'de Node) -> (r: Self)
        ensures
            r.variant_name() == key@,
            r.payload() == value@,
            !r.is_owned(),
    {
        EnumAccess { state: Selected::Borrowed { key, value } }
    }

    pub(crate) fn owned(key: String, value: Node) -> (r: Self)
        ensures
            r.variant_name() == key@,
            r.payload() == value@,
            r.is_owned(),
    {
        EnumAccess { state: Selected::Owned { key, value } }
    }

    /// The variant's name.
    pub fn variant(&self) -> (r: &str)
        ensures
            r@ == self.variant_name(),
    {
        match &self.state {
            Selected::Borrowed { key, .. } => key,
            Selected::Owned { key, .. } => key.as_str(),
        }
    }

    /// A keyed tag always has a payload, which a unit variant has no use
    /// for: this fails, with the payload.
    pub fn unit_variant(self) -> (r: Result<(), Error>)
        ensures
            r matches Err(e) && e@ == ErrorView::UnexpectedExpr(self.payload()),
    {
        match self.state {
            Selected::Borrowed { value, .. } => Err(Error::UnexpectedExpr(value.duplicate())),
            Selected::Owned { value, .. } => Err(Error::UnexpectedExpr(value)),
        }
    }

    /// The dispatcher of the payload, in the accessor's own mode.
    pub fn newtype_variant(self) -> (r: Deserializer<'de>)
        ensures
            r@ == self.payload(),
            r.is_owned() == self.is_owned(),
    {
        match self.state {
            Selected::Borrowed { value, .. } => Deserializer::borrowed(value),
            Selected::Owned { value, .. } => Deserializer::owned(value),
        }
    }

    /// The payload as a sequence.
    pub fn tuple_variant(self) -> (r: Result<SeqAccess<'de>, Error>)
        ensures
            match r {
                Ok(seq) => seq_of(self.payload()) == Ok::<Seq<Option<ElementView>>, ErrorView>(
                    seq.remaining(),
                ) && seq.is_owned() == self.is_owned(),
                Err(e) => seq_of(self.payload()) == Err::<Seq<Option<ElementView>>, ErrorView>(
                    e@,
                ),
            },
    {
        self.newtype_variant().deserialize_seq()
    }

    /// The payload as a map.
    pub fn struct_variant(self) -> (r: Result<MapAccess<'de>, Error>)
        ensures
            match r {
                Ok(map) => map_of(self.payload()) == Ok::<Seq<EntryView>, ErrorView>(
                    map.remaining(),
                ) && map.pending() is None && map.is_owned() == self.is_owned(),
                Err(e) => map_of(self.payload()) == Err::<Seq<EntryView>, ErrorView>(e@),
            },
    {
        self.newtype_variant().deserialize_map()
    }
}

} // verus!
