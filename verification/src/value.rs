//! The generic value: what a tree is where the target leaves every shape
//! open.

use std::borrow::Cow;
use vstd::prelude::*;
use crate::ast::{ElementView, EntryView, NodeView, PropertyView};
use crate::de::{any_of, Any, AnyView, Deserializer};
use crate::error::{Error, ErrorView};

verus! {

/// One member of an object: a key and its value.
#[derive(Debug, PartialEq)]
pub struct Member {
    pub key: String,
    pub value: Value,
}

/// A value of no particular type. The members of an object are kept in the
/// order of the source, a repeated key as often as it occurs.
#[derive(Debug, PartialEq)]
pub enum Value {
    Null,
    Bool(bool),
    Signed(i64),
    /// A number that does not count as an integer, as its binary64 encoding.
    Float(u64),
    Str(String),
    Array(Vec<Value>),
    Object(Vec<Member>),
}

/// The view of [`Member`].
pub struct MemberView {
    pub key: Seq<char>,
    pub value: ValueView,
}

/// The view of [`Value`].
pub enum ValueView {
    Null,
    Bool(bool),
    Signed(i64),
    Float(u64),
    Str(Seq<char>),
    Array(Seq<ValueView>),
    Object(Seq<MemberView>),
}

/// The view of a value.
pub open spec fn value_view(value: Value) -> ValueView
    decreases value,
{
    match value {
        Value::Null => ValueView::Null,
        Value::Bool(b) => ValueView::Bool(b),
        Value::Signed(v) => ValueView::Signed(v),
        Value::Float(v) => ValueView::Float(v),
        Value::Str(s) => ValueView::Str(s@),
        Value::Array(items) => ValueView::Array(values_view(items@)),
        Value::Object(members) => ValueView::Object(members_view(members@)),
    }
}

/// The views of a list of values, in order.
pub open spec fn values_view(values: Seq<Value>) -> Seq<ValueView>
    decreases values,
{
    Seq::new(
        values.len(),
        |i: int|
            if 0 <= i < values.len() {
                value_view(values[i])
            } else {
                ValueView::Null
            },
    )
}

/// The view of a member.
pub open spec fn member_view(member: Member) -> MemberView
    decreases member,
{
    MemberView { key: member.key@, value: value_view(member.value) }
}

/// The views of a list of members, in order.
pub open spec fn members_view(members: Seq<Member>) -> Seq<MemberView>
    decreases members,
{
    Seq::new(
        members.len(),
        |i: int|
            if 0 <= i < members.len() {
                member_view(members[i])
            } else {
                MemberView { key: Seq::empty(), value: ValueView::Null }
            },
    )
}

impl View for Value {
    type V = ValueView;

    open spec fn view(&self) -> ValueView {
        value_view(*self)
    }
}

impl View for Member {
    type V = MemberView;

    open spec fn view(&self) -> MemberView {
        member_view(*self)
    }
}

impl Value {
    /// A deep copy of this value.
    pub fn duplicate(&self) -> (r: Value)
        ensures
            r@ == self@,
        decreases self,
    {
        match self {
            Value::Null => Value::Null,
            Value::Bool(b) => Value::Bool(*b),
            Value::Signed(v) => Value::Signed(*v),
            Value::Float(v) => Value::Float(*v),
            Value::Str(s) => Value::Str(s.clone()),
            Value::Array(items) => {
                let mut copy: Vec<Value> = Vec::new();
                let mut i: usize = 0;
                while i < items.len()
                    invariant
                        *self == Value::Array(*items),
                        i <= items.len(),
                        copy@.len() == i,
                        forall|j: int| 0 <= j < i ==> value_view(#[trigger] copy@[j]) == value_view(items@[j]),
                    decreases items.len() - i,
                {
                    assert(decreases_to!(*self => self->Array_0@[i as int]));
                    let item = items[i].duplicate();
                    copy.push(item);
                    i += 1;
                }
                assert(values_view(copy@) =~= values_view(items@));
                Value::Array(copy)
            },
            Value::Object(members) => {
                let mut copy: Vec<Member> = Vec::new();
                let mut i: usize = 0;
                while i < members.len()
                    invariant
                        *self == Value::Object(*members),
                        i <= members.len(),
                        copy@.len() == i,
                        forall|j: int| 0 <= j < i ==> member_view(#[trigger] copy@[j]) == member_view(members@[j]),
                    decreases members.len() - i,
                {
                    assert(decreases_to!(*self => self->Object_0@[i as int].value));
                    let member = Member {
                        key: members[i].key.clone(),
                        value: members[i].value.duplicate(),
                    };
                    copy.push(member);
                    i += 1;
                }
                assert(members_view(copy@) =~= members_view(members@));
                Value::Object(copy)
            },
        }
    }
}

impl Clone for Value {
    fn clone(&self) -> (r: Self)
        ensures
            r@ == self@,
    {
        self.duplicate()
    }
}

impl Clone for Member {
    fn clone(&self) -> (r: Self)
        ensures
            r@ == self@,
    {
        Member { key: self.key.clone(), value: self.value.duplicate() }
    }
}

/// The generic value of a node.
///
/// An array is the values of its elements, in order; a hole fails. An
/// object is its members, in order: each entry must be a plain `key: value`
/// with an identifier or a string for its key. A leaf is what [`any_of`]
/// takes it for. The first failure met, going through the tree from left to
/// right and from a node to its children, is the result.
pub open spec fn value_of(node: NodeView) -> Result<ValueView, ErrorView>
    decreases node,
{
    match node {
        NodeView::Array(slots) => match elements_of(slots) {
            Ok(values) => Ok(ValueView::Array(values)),
            Err(e) => Err(e),
        },
        NodeView::Object(entries) => match members_of(entries) {
            Ok(members) => Ok(ValueView::Object(members)),
            Err(e) => Err(e),
        },
        leaf => match any_of(leaf) {
            Ok(AnyView::Bool(b)) => Ok(ValueView::Bool(b)),
            Ok(AnyView::Signed(v)) => Ok(ValueView::Signed(v)),
            Ok(AnyView::Float(v)) => Ok(ValueView::Float(v)),
            Ok(AnyView::Str(s)) => Ok(ValueView::Str(s)),
            Ok(_) => Ok(ValueView::Null),
            Err(e) => Err(e),
        },
    }
}

/// The values of the elements of an array: see [`value_of`].
pub open spec fn elements_of(slots: Seq<Option<ElementView>>) -> Result<Seq<ValueView>, ErrorView>
    decreases slots,
{
    if slots.len() == 0 {
        Ok(Seq::empty())
    } else {
        match slots[0] {
            None => Err(ErrorView::InvalidArrayElement),
            Some(element) => match value_of(*element.expr) {
                Err(e) => Err(e),
                Ok(value) => after(seq![value], elements_of(slots.drop_first())),
            },
        }
    }
}

/// The members of an object: see [`value_of`].
pub open spec fn members_of(entries: Seq<EntryView>) -> Result<Seq<MemberView>, ErrorView>
    decreases entries,
{
    if entries.len() == 0 {
        Ok(Seq::empty())
    } else {
        match entries[0] {
            EntryView::Spread(spread) => Err(ErrorView::UnexpectedSpread(*spread)),
            EntryView::Property(property) => match *property {
                PropertyView::KeyValue(key, value) => match key.text() {
                    None => Err(ErrorView::InvalidObjectKey(key)),
                    Some(text) => match value_of(*value) {
                        Err(e) => Err(e),
                        Ok(v) => after(
                            seq![MemberView { key: text, value: v }],
                            members_of(entries.drop_first()),
                        ),
                    },
                },
                other => Err(ErrorView::UnexpectedProp(other)),
            },
        }
    }
}

/// `done` followed by what `rest` yields, or the failure of `rest`.
pub open spec fn after<T>(done: Seq<T>, rest: Result<Seq<T>, ErrorView>) -> Result<
    Seq<T>,
    ErrorView,
> {
    match rest {
        Ok(more) => Ok(done + more),
        Err(e) => Err(e),
    }
}

/// The text itself, copied if it was lent.
fn into_string(text: Cow<'_, str>) -> (r: String)
    ensures
        r@ == text@,
{
    match text {
        Cow::Borrowed(s) => s.to_owned(),
        Cow::Owned(s) => s,
    }
}

/// Whether `r` is what reading `node` as a generic value gives.
pub open spec fn reads(node: NodeView, r: Result<Value, Error>) -> bool {
    match r {
        Ok(v) => value_of(node) == Ok::<ValueView, ErrorView>(v@),
        Err(e) => value_of(node) == Err::<ValueView, ErrorView>(e@),
    }
}

/// Reads the node of `de` as a generic value: see [`value_of`].
pub fn to_value(de: Deserializer<'_>) -> (r: Result<Value, Error>)
    ensures
        reads(de@, r),
    decreases de@,
{
    let ghost node = de@;
    match de.deserialize_any() {
        Err(e) => Err(e),
        Ok(Any::Null) => Ok(Value::Null),
        Ok(Any::Bool(b)) => Ok(Value::Bool(b)),
        Ok(Any::Signed(v)) => Ok(Value::Signed(v)),
        Ok(Any::Float(v)) => Ok(Value::Float(v)),
        Ok(Any::Str(s)) => Ok(Value::Str(into_string(s))),
        Ok(Any::Array(seq)) => {
            let mut seq = seq;
            let ghost all = seq.remaining();
            let ghost mut at: int = 0;
            let mut items: Vec<Value> = Vec::new();
            loop
                invariant
                    node == de@,
                    node == NodeView::Array(all),
                    0 <= at <= all.len(),
                    seq.remaining() == all.subrange(at, all.len() as int),
                    elements_of(all) == after(values_view(items@), elements_of(seq.remaining())),
                ensures
                    elements_of(all) == Ok::<Seq<ValueView>, ErrorView>(values_view(items@)),
                decreases seq.remaining().len(),
            {
                let ghost before = seq.remaining();
                match seq.next_element() {
                    Err(e) => {
                        return Err(e);
                    },
                    Ok(None) => {
                        assert(values_view(items@) + Seq::<ValueView>::empty() =~= values_view(
                            items@,
                        ));
                        break ;
                    },
                    Ok(Some(child)) => {
                        assert(before[0] == all[at]);
                        assert(decreases_to!(node => *(node->Array_0[at]->Some_0.expr)));
                        match to_value(child) {
                            Err(e) => {
                                return Err(e);
                            },
                            Ok(value) => {
                                let ghost done = values_view(items@);
                                items.push(value);
                                proof {
                                    at = at + 1;
                                    assert(seq.remaining() =~= all.subrange(at, all.len() as int));
                                    assert(values_view(items@) =~= done.push(value@));
                                    match elements_of(seq.remaining()) {
                                        Ok(more) => {
                                            assert(done + (seq![value@] + more) =~= done.push(
                                                value@,
                                            ) + more);
                                        },
                                        Err(_) => {},
                                    }
                                }
                            },
                        }
                    },
                }
            }
            Ok(Value::Array(items))
        },
        Ok(Any::Object(map)) => {
            let mut map = map;
            let ghost all = map.remaining();
            let ghost mut at: int = 0;
            let mut members: Vec<Member> = Vec::new();
            loop
                invariant
                    node == de@,
                    node == NodeView::Object(all),
                    0 <= at <= all.len(),
                    map.remaining() == all.subrange(at, all.len() as int),
                    members_of(all) == after(members_view(members@), members_of(map.remaining())),
                ensures
                    members_of(all) == Ok::<Seq<MemberView>, ErrorView>(members_view(members@)),
                decreases map.remaining().len(),
            {
                let ghost before = map.remaining();
                match map.next_key() {
                    Err(e) => {
                        return Err(e);
                    },
                    Ok(None) => {
                        assert(members_view(members@) + Seq::<MemberView>::empty() =~= members_view(
                            members@,
                        ));
                        break ;
                    },
                    Ok(Some(key)) => {
                        assert(before[0] == all[at]);
                        match map.next_value() {
                            Err(e) => {
                                return Err(e);
                            },
                            Ok(child) => {
                                assert(decreases_to!(node => *(node->Object_0[at]->Property_0)->KeyValue_1));
                                match to_value(child) {
                                    Err(e) => {
                                        return Err(e);
                                    },
                                    Ok(value) => {
                                        let ghost done = members_view(members@);
                                        let member = Member { key: into_string(key), value };
                                        members.push(member);
                                        proof {
                                            at = at + 1;
                                            assert(map.remaining() =~= all.subrange(
                                                at,
                                                all.len() as int,
                                            ));
                                            assert(members_view(members@) =~= done.push(member@));
                                            match members_of(map.remaining()) {
                                                Ok(more) => {
                                                    assert(done + (seq![member@] + more)
                                                        =~= done.push(member@) + more);
                                                },
                                                Err(_) => {},
                                            }
                                        }
                                    },
                                }
                            },
                        }
                    },
                }
            }
            Ok(Value::Object(members))
        },
    }
}

} // verus!
