//! What holds of the engine as a whole, proved from the contracts of its
//! parts.

use vstd::prelude::*;
use vstd::arithmetic::div_mod::lemma_fundamental_div_mod_converse;
use vstd::arithmetic::power2::{lemma_pow2_pos, pow2};
use crate::access::entry_key_value;
use crate::ast::{
    ElementView,
    EntryView,
    KeyView,
    LiteralView,
    NodeView,
    NumberView,
    PropertyView,
    Span,
};
use crate::de::{
    agrees,
    integer_of,
    map_of,
    mismatch,
    seq_of,
    tag_of,
    Deserializer,
    TagView,
};
use crate::error::{
    invalid_length,
    invalid_type,
    unexpected_lit,
    Error,
    ErrorView,
    UnexpectedView,
};
use crate::number::{
    biased_exponent,
    integer_in,
    is_finite,
    is_integer_text,
    narrowed,
    scaled_magnitude,
    scaled_value,
    sign_bit,
    significand,
    truncated,
    value_ge,
    value_le,
};
use crate::parse::{cut, cut_entry, cut_slot};
use crate::value::{elements_of, members_of, reads, value_of, Value, ValueView};

verus! {

/// Two outcomes are the same: both succeed with the same value, or both
/// fail with the same failure.
pub open spec fn same_outcome<T>(a: Result<T, Error>, b: Result<T, Error>) -> bool {
    match (a, b) {
        (Ok(x), Ok(y)) => x == y,
        (Err(x), Err(y)) => x@ == y@,
        _ => false,
    }
}

/// Two generic values read are the same: both succeed with values of one
/// view, or both fail with the same failure.
pub open spec fn same_value(a: Result<Value, Error>, b: Result<Value, Error>) -> bool {
    match (a, b) {
        (Ok(x), Ok(y)) => x@ == y@,
        (Err(x), Err(y)) => x@ == y@,
        _ => false,
    }
}

/// Whether a tree is lent or moved in cannot be observed: a dispatcher on a
/// lent tree and one on the same tree moved in, asked for the same shape,
/// give the same outcome.
pub proof fn lemma_mode_is_not_observed<T>(
    lent: Deserializer<'_>,
    moved: Deserializer<'_>,
    shape: spec_fn(NodeView) -> Result<T, ErrorView>,
    from_lent: Result<T, Error>,
    from_moved: Result<T, Error>,
)
    requires
        !lent.is_owned(),
        moved.is_owned(),
        lent@ == moved@,
        agrees(from_lent, shape(lent@)),
        agrees(from_moved, shape(moved@)),
    ensures
        same_outcome(from_lent, from_moved),
{
}

/// The generic value of a tree is the same whether the tree is lent or
/// moved in.
pub proof fn lemma_mode_is_not_observed_in_values(
    lent: Deserializer<'_>,
    moved: Deserializer<'_>,
    from_lent: Result<Value, Error>,
    from_moved: Result<Value, Error>,
)
    requires
        !lent.is_owned(),
        moved.is_owned(),
        lent@ == moved@,
        reads(lent@, from_lent),
        reads(moved@, from_moved),
    ensures
        same_value(from_lent, from_moved),
{
}

/// The value of a finite encoding is the integer `k`.
pub open spec fn value_is(bits: u64, k: int) -> bool {
    is_finite(bits) && scaled_value(bits) == k * pow2(1074)
}

/// A value that is the integer `k` lies on the right side of every bound,
/// and `k` is what is left of it when it is rounded toward zero.
pub proof fn lemma_value_is_integer(bits: u64, k: int, bound: int)
    requires
        value_is(bits, k),
    ensures
        truncated(bits) == k,
        value_le(bits, bound) == (k <= bound),
        value_ge(bits, bound) == (k >= bound),
{
    let unit = pow2(1074);
    let m = scaled_magnitude(bits);
    lemma_pow2_pos(1074);
    assert((k * unit <= bound * unit) == (k <= bound)) by (nonlinear_arith)
        requires
            unit > 0,
    ;
    assert((k * unit >= bound * unit) == (k >= bound)) by (nonlinear_arith)
        requires
            unit > 0,
    ;
    if sign_bit(bits) {
        assert(m == (-k) * unit + 0) by (nonlinear_arith)
            requires
                -(m as int) == k * unit,
        ;
        assert(-k >= 0) by (nonlinear_arith)
            requires
                m == (-k) * unit,
                m >= 0,
                unit > 0,
        ;
        lemma_fundamental_div_mod_converse(m as int, unit as int, -k, 0);
    } else {
        assert(k >= 0) by (nonlinear_arith)
            requires
                m == k * unit,
                m >= 0,
                unit > 0,
        ;
        lemma_fundamental_div_mod_converse(m as int, unit as int, k, 0);
    }
}

/// The bounds of an integer type are sharp. A literal that counts as an
/// integer and whose value is the least or the greatest value of the range
/// is read as that value. One whose value is one below or one above is not
/// read. A literal that does not count as an integer is never read,
/// whatever its value.
pub proof fn lemma_integer_bounds_are_sharp(number: NumberView, lo: int, hi: int)
    requires
        lo <= hi,
    ensures
        is_integer_text(number.raw) && value_is(number.value, lo) ==> integer_in(number, lo, hi)
            == Some(lo),
        is_integer_text(number.raw) && value_is(number.value, hi) ==> integer_in(number, lo, hi)
            == Some(hi),
        value_is(number.value, lo - 1) ==> integer_in(number, lo, hi) is None,
        value_is(number.value, hi + 1) ==> integer_in(number, lo, hi) is None,
        !is_integer_text(number.raw) ==> integer_in(number, lo, hi) is None,
{
    if value_is(number.value, lo) {
        lemma_value_is_integer(number.value, lo, lo);
        lemma_value_is_integer(number.value, lo, hi);
    }
    if value_is(number.value, hi) {
        lemma_value_is_integer(number.value, hi, lo);
        lemma_value_is_integer(number.value, hi, hi);
    }
    if value_is(number.value, lo - 1) {
        lemma_value_is_integer(number.value, lo - 1, lo);
    }
    if value_is(number.value, hi + 1) {
        lemma_value_is_integer(number.value, hi + 1, hi);
    }
}

/// A numeric literal that is not read as an integer of the requested range
/// fails with the mismatch that names the literal and the requested type.
pub proof fn lemma_unread_integer_is_a_mismatch(
    number: NumberView,
    lo: int,
    hi: int,
    expected: Seq<char>,
)
    requires
        integer_in(number, lo, hi) is None,
    ensures
        integer_of(NodeView::Literal(LiteralView::Num(number)), lo, hi, expected) == Err::<
            int,
            ErrorView,
        >(mismatch(NodeView::Literal(LiteralView::Num(number)), expected)),
{
}

/// A composite of the wrong kind is named for what it is: an array asked
/// for a map is a sequence where none was expected, and an object asked
/// for a sequence is a map where none was expected.
pub proof fn lemma_wrong_composite_is_named(
    slots: Seq<Option<ElementView>>,
    entries: Seq<EntryView>,
)
    ensures
        map_of(NodeView::Array(slots)) == Err::<Seq<EntryView>, ErrorView>(
            invalid_type(UnexpectedView::Array, "map"@),
        ),
        seq_of(NodeView::Object(entries)) == Err::<Seq<Option<ElementView>>, ErrorView>(
            invalid_type(UnexpectedView::Object, "sequence"@),
        ),
{
}

/// A literal asked for a sequence or for a map fails as the literal that it
/// is, named by its kind.
pub proof fn lemma_literal_is_no_composite(literal: LiteralView)
    ensures
        seq_of(NodeView::Literal(literal)) == Err::<Seq<Option<ElementView>>, ErrorView>(
            unexpected_lit(literal, "sequence"@),
        ),
        map_of(NodeView::Literal(literal)) == Err::<Seq<EntryView>, ErrorView>(
            unexpected_lit(literal, "map"@),
        ),
{
}

/// A string and a bare identifier name a variant without a payload.
pub proof fn lemma_bare_tag(name: Seq<char>)
    ensures
        tag_of(NodeView::Literal(LiteralView::Str(name))) == Ok::<TagView, ErrorView>(
            TagView::Str(name),
        ),
        tag_of(NodeView::Ident(name)) == Ok::<TagView, ErrorView>(TagView::Ident(name)),
{
}

/// A bare tag names a variant without fields, and has no payload for a
/// variant with fields, whatever their kind.
pub proof fn lemma_bare_tag_has_no_payload(name: Seq<char>, expected: Seq<char>)
    ensures
        TagView::Str(name).name() == name,
        TagView::Ident(name).name() == name,
        TagView::Str(name).unit() is Ok,
        TagView::Ident(name).unit() is Ok,
        TagView::Str(name).payload(expected) is Err,
        TagView::Ident(name).payload(expected) is Err,
        TagView::Str(name).tuple() is Err,
        TagView::Ident(name).tuple() is Err,
        TagView::Str(name).fields() is Err,
        TagView::Ident(name).fields() is Err,
{
}

/// A keyed tag is never a variant without fields: its payload, whatever it
/// is, is unexpected.
pub proof fn lemma_keyed_tag_is_no_unit(name: Seq<char>, payload: NodeView)
    ensures
        TagView::Keyed(name, payload).name() == name,
        TagView::Keyed(name, payload).unit() == Err::<(), ErrorView>(
            ErrorView::UnexpectedExpr(payload),
        ),
        forall|expected: Seq<char>|
            #[trigger] TagView::Keyed(name, payload).payload(expected) == Ok::<
                NodeView,
                ErrorView,
            >(payload),
{
}

/// An object of exactly one plain `key: value` entry, with an identifier
/// or a string for its key, names the variant `key` with the payload
/// `value`.
pub proof fn lemma_keyed_tag(entries: Seq<EntryView>, key: KeyView, value: NodeView)
    requires
        entries.len() == 1,
        entries[0] == EntryView::Property(Box::new(PropertyView::KeyValue(key, Box::new(value)))),
        key.text() is Some,
    ensures
        tag_of(NodeView::Object(entries)) == Ok::<TagView, ErrorView>(
            TagView::Keyed(key.text()->Some_0, value),
        ),
{
}

/// An object of no entry, or of two or more, is no enum tag: it fails as
/// a composite of the wrong length, where exactly one entry was expected.
pub proof fn lemma_tag_of_wrong_length(entries: Seq<EntryView>)
    requires
        entries.len() != 1,
    ensures
        tag_of(NodeView::Object(entries)) == Err::<TagView, ErrorView>(
            invalid_length(entries.len() as usize, "1"@),
        ),
{
}

/// The first `n` slots of an array all hold elements that are read.
pub open spec fn elements_read(slots: Seq<Option<ElementView>>, n: int) -> bool {
    forall|j: int|
        0 <= j < n ==> (#[trigger] slots[j]) is Some && value_of(*slots[j]->Some_0.expr) is Ok
}

/// The first `n` entries of an object are all members that are read.
pub open spec fn members_read(entries: Seq<EntryView>, n: int) -> bool {
    forall|j: int|
        0 <= j < n ==> entry_key_value(#[trigger] entries[j]) is Ok && value_of(
            entry_key_value(entries[j])->Ok_0.1,
        ) is Ok
}

/// A hole fails the array that holds it: where every element before the
/// hole is read, reading the array fails with the failure of the hole.
pub proof fn lemma_hole_fails(slots: Seq<Option<ElementView>>, at: int)
    requires
        0 <= at < slots.len(),
        slots[at] is None,
        elements_read(slots, at),
    ensures
        elements_of(slots) == Err::<Seq<ValueView>, ErrorView>(ErrorView::InvalidArrayElement),
        value_of(NodeView::Array(slots)) == Err::<ValueView, ErrorView>(
            ErrorView::InvalidArrayElement,
        ),
    decreases at,
{
    if at > 0 {
        let rest = slots.drop_first();
        assert(rest[at - 1] == slots[at]);
        assert(elements_read(rest, at - 1)) by {
            assert forall|j: int| 0 <= j < at - 1 implies (#[trigger] rest[j]) is Some && value_of(
                *rest[j]->Some_0.expr,
            ) is Ok by {
                assert(rest[j] == slots[j + 1]);
            }
        }
        lemma_hole_fails(rest, at - 1);
        assert(slots[0] is Some && value_of(*slots[0]->Some_0.expr) is Ok);
    }
}

/// An entry that is no readable member fails the object that holds it:
/// where every entry before it is a member that is read, reading the
/// object fails with the failure of that entry. So a spread fails as an
/// unexpected spread, and a shorthand as an unexpected property.
pub proof fn lemma_bad_entry_fails(entries: Seq<EntryView>, at: int)
    requires
        0 <= at < entries.len(),
        entry_key_value(entries[at]) is Err,
        members_read(entries, at),
    ensures
        members_of(entries) is Err,
        members_of(entries)->Err_0 == entry_key_value(entries[at])->Err_0,
        value_of(NodeView::Object(entries)) == Err::<ValueView, ErrorView>(
            entry_key_value(entries[at])->Err_0,
        ),
        entries[at] matches EntryView::Spread(spread) ==> members_of(entries)->Err_0
            == ErrorView::UnexpectedSpread(*spread),
        entries[at] == EntryView::Property(Box::new(PropertyView::Shorthand(
            entries[at]->Property_0->Shorthand_0,
        ))) ==> members_of(entries)->Err_0 == ErrorView::UnexpectedProp(
            PropertyView::Shorthand(entries[at]->Property_0->Shorthand_0),
        ),
    decreases at,
{
    if at > 0 {
        let rest = entries.drop_first();
        assert(rest[at - 1] == entries[at]);
        assert(members_read(rest, at - 1)) by {
            assert forall|j: int| 0 <= j < at - 1 implies entry_key_value(#[trigger] rest[j]) is Ok
                && value_of(entry_key_value(rest[j])->Ok_0.1) is Ok by {
                assert(rest[j] == entries[j + 1]);
            }
        }
        lemma_bad_entry_fails(rest, at - 1);
        assert(entry_key_value(entries[0]) is Ok && value_of(
            entry_key_value(entries[0])->Ok_0.1,
        ) is Ok);
    }
}

/// An identifier is read as the string of its name.
pub proof fn lemma_identifier_is_a_string(name: Seq<char>)
    ensures
        value_of(NodeView::Ident(name)) == Ok::<ValueView, ErrorView>(ValueView::Str(name)),
        value_of(NodeView::Ident(name)) == value_of(NodeView::Literal(LiteralView::Str(name))),
{
}

/// A key gives the same member whether it is written as an identifier or
/// as a string.
pub proof fn lemma_key_form_is_not_observed(name: Seq<char>, value: NodeView)
    ensures
        entry_key_value(
            EntryView::Property(
                Box::new(PropertyView::KeyValue(KeyView::Ident(name), Box::new(value))),
            ),
        ) == Ok::<(Seq<char>, NodeView), ErrorView>((name, value)),
        entry_key_value(
            EntryView::Property(
                Box::new(PropertyView::KeyValue(KeyView::Str(name), Box::new(value))),
            ),
        ) == Ok::<(Seq<char>, NodeView), ErrorView>((name, value)),
{
}

/// The trees that have a generic value. Every element of an array is
/// present and readable; every entry of an object is a plain `key: value`
/// with an identifier or a string for its key and a readable value; a leaf
/// is a boolean, null, a string, an identifier, or a number that does not
/// count as an integer or whose value an `i64` holds.
pub open spec fn readable(node: NodeView) -> bool
    decreases node,
{
    match node {
        NodeView::Array(slots) => forall|i: int|
            0 <= i < slots.len() ==> match #[trigger] slots[i] {
                Some(element) => readable(*element.expr),
                None => false,
            },
        NodeView::Object(entries) => forall|i: int|
            0 <= i < entries.len() ==> match #[trigger] entries[i] {
                EntryView::Property(property) => match *property {
                    PropertyView::KeyValue(key, value) => key.text() is Some && readable(*value),
                    _ => false,
                },
                EntryView::Spread(_) => false,
            },
        NodeView::Literal(LiteralView::Bool(_)) => true,
        NodeView::Literal(LiteralView::Null) => true,
        NodeView::Literal(LiteralView::Str(_)) => true,
        NodeView::Literal(LiteralView::Num(n)) => !is_integer_text(n.raw) || integer_in(
            n,
            i64::MIN as int,
            i64::MAX as int,
        ) is Some,
        NodeView::Ident(_) => true,
        _ => false,
    }
}

/// Reading succeeds on the readable trees, and on no others.
pub proof fn lemma_readable_trees_are_read(node: NodeView)
    ensures
        value_of(node) is Ok <==> readable(node),
    decreases node,
{
    match node {
        NodeView::Array(slots) => {
            lemma_readable_elements_are_read(slots);
        },
        NodeView::Object(entries) => {
            lemma_readable_members_are_read(entries);
        },
        _ => {},
    }
}

/// The elements of an array are read where each is present and readable,
/// and nowhere else; as many values come out as there are elements.
pub proof fn lemma_readable_elements_are_read(slots: Seq<Option<ElementView>>)
    ensures
        elements_of(slots) is Ok <==> readable(NodeView::Array(slots)),
        elements_of(slots) matches Ok(values) ==> values.len() == slots.len(),
    decreases slots,
{
    if slots.len() > 0 {
        let rest = slots.drop_first();
        lemma_readable_elements_are_read(rest);
        match slots[0] {
            Some(element) => {
                lemma_readable_trees_are_read(*element.expr);
            },
            None => {},
        }
        if readable(NodeView::Array(slots)) {
            assert forall|i: int| 0 <= i < rest.len() implies match #[trigger] rest[i] {
                Some(element) => readable(*element.expr),
                None => false,
            } by {
                assert(rest[i] == slots[i + 1]);
            }
        }
        if elements_of(slots) is Ok {
            assert forall|i: int| 0 <= i < slots.len() implies match #[trigger] slots[i] {
                Some(element) => readable(*element.expr),
                None => false,
            } by {
                if i > 0 {
                    assert(slots[i] == rest[i - 1]);
                }
            }
        }
    }
}

/// The entries of an object are read where each is a plain `key: value`
/// with a name for its key and a readable value, and nowhere else; as many
/// members come out as there are entries.
pub proof fn lemma_readable_members_are_read(entries: Seq<EntryView>)
    ensures
        members_of(entries) is Ok <==> readable(NodeView::Object(entries)),
        members_of(entries) matches Ok(members) ==> members.len() == entries.len(),
    decreases entries,
{
    if entries.len() > 0 {
        let rest = entries.drop_first();
        lemma_readable_members_are_read(rest);
        match entries[0] {
            EntryView::Property(property) => match *property {
                PropertyView::KeyValue(_, value) => {
                    lemma_readable_trees_are_read(*value);
                },
                _ => {},
            },
            _ => {},
        }
        if readable(NodeView::Object(entries)) {
            assert forall|i: int| 0 <= i < rest.len() implies match #[trigger] rest[i] {
                EntryView::Property(property) => match *property {
                    PropertyView::KeyValue(key, value) => key.text() is Some && readable(*value),
                    _ => false,
                },
                EntryView::Spread(_) => false,
            } by {
                assert(rest[i] == entries[i + 1]);
            }
        }
        if members_of(entries) is Ok {
            assert forall|i: int| 0 <= i < entries.len() implies match #[trigger] entries[i] {
                EntryView::Property(property) => match *property {
                    PropertyView::KeyValue(key, value) => key.text() is Some && readable(*value),
                    _ => false,
                },
                EntryView::Spread(_) => false,
            } by {
                if i > 0 {
                    assert(entries[i] == rest[i - 1]);
                }
            }
        }
    }
}

/// The tree as strict JSON would have it: every identifier a string, every
/// key a string, no element marked as a spread. Nothing else changes.
pub open spec fn json_form(node: NodeView) -> NodeView
    decreases node,
{
    match node {
        NodeView::Array(slots) => NodeView::Array(json_slots(slots)),
        NodeView::Object(entries) => NodeView::Object(json_entries(entries)),
        NodeView::Ident(name) => NodeView::Literal(LiteralView::Str(name)),
        other => other,
    }
}

/// The slots of an array, each element in its [`json_form`].
pub open spec fn json_slots(slots: Seq<Option<ElementView>>) -> Seq<Option<ElementView>>
    decreases slots,
{
    Seq::new(
        slots.len(),
        |i: int|
            if 0 <= i < slots.len() {
                match slots[i] {
                    Some(element) => Some(
                        ElementView { spread: false, expr: Box::new(json_form(*element.expr)) },
                    ),
                    None => None,
                }
            } else {
                None
            },
    )
}

/// The entries of an object, each plain `key: value` with its key as a
/// string and its value in its [`json_form`].
pub open spec fn json_entries(entries: Seq<EntryView>) -> Seq<EntryView>
    decreases entries,
{
    Seq::new(
        entries.len(),
        |i: int|
            if 0 <= i < entries.len() {
                match entries[i] {
                    EntryView::Property(property) => match *property {
                        PropertyView::KeyValue(key, value) => EntryView::Property(
                            Box::new(
                                PropertyView::KeyValue(
                                    match key.text() {
                                        Some(text) => KeyView::Str(text),
                                        None => key,
                                    },
                                    Box::new(json_form(*value)),
                                ),
                            ),
                        ),
                        other => EntryView::Property(Box::new(other)),
                    },
                    other => other,
                }
            } else {
                EntryView::Property(Box::new(PropertyView::Other(Span { lo: 0, hi: 0 })))
            },
    )
}

/// A readable tree has the value of its [`json_form`]: whether a name is
/// written bare or as a string, as a key or as a value, and whether an
/// element is marked as a spread, makes no difference to what is read.
pub proof fn lemma_json_form_has_the_same_value(node: NodeView)
    requires
        readable(node),
    ensures
        readable(json_form(node)),
        value_of(json_form(node)) == value_of(node),
    decreases node,
{
    match node {
        NodeView::Array(slots) => {
            lemma_json_slots_have_the_same_values(slots);
        },
        NodeView::Object(entries) => {
            lemma_json_entries_have_the_same_members(entries);
        },
        _ => {},
    }
}

/// As [`lemma_json_form_has_the_same_value`], of the elements of an array.
pub proof fn lemma_json_slots_have_the_same_values(slots: Seq<Option<ElementView>>)
    requires
        readable(NodeView::Array(slots)),
    ensures
        readable(NodeView::Array(json_slots(slots))),
        elements_of(json_slots(slots)) == elements_of(slots),
    decreases slots,
{
    let json = json_slots(slots);
    assert forall|i: int| 0 <= i < json.len() implies match #[trigger] json[i] {
        Some(element) => readable(*element.expr),
        None => false,
    } by {
        assert(slots[i] is Some);
        lemma_json_form_has_the_same_value(*slots[i]->Some_0.expr);
    }
    if slots.len() > 0 {
        let rest = slots.drop_first();
        assert forall|i: int| 0 <= i < rest.len() implies match #[trigger] rest[i] {
            Some(element) => readable(*element.expr),
            None => false,
        } by {
            assert(rest[i] == slots[i + 1]);
        }
        lemma_json_slots_have_the_same_values(rest);
        assert(slots[0] is Some);
        lemma_json_form_has_the_same_value(*slots[0]->Some_0.expr);
        assert(json.drop_first() =~= json_slots(rest));
    }
}

/// As [`lemma_json_form_has_the_same_value`], of the entries of an object.
pub proof fn lemma_json_entries_have_the_same_members(entries: Seq<EntryView>)
    requires
        readable(NodeView::Object(entries)),
    ensures
        readable(NodeView::Object(json_entries(entries))),
        members_of(json_entries(entries)) == members_of(entries),
    decreases entries,
{
    let json = json_entries(entries);
    assert forall|i: int| 0 <= i < json.len() implies match #[trigger] json[i] {
        EntryView::Property(property) => match *property {
            PropertyView::KeyValue(key, value) => key.text() is Some && readable(*value),
            _ => false,
        },
        EntryView::Spread(_) => false,
    } by {
        assert(entries[i] is Property);
        assert(*entries[i]->Property_0 is KeyValue);
        lemma_json_form_has_the_same_value(*(*entries[i]->Property_0)->KeyValue_1);
    }
    if entries.len() > 0 {
        let rest = entries.drop_first();
        assert forall|i: int| 0 <= i < rest.len() implies match #[trigger] rest[i] {
            EntryView::Property(property) => match *property {
                PropertyView::KeyValue(key, value) => key.text() is Some && readable(*value),
                _ => false,
            },
            EntryView::Spread(_) => false,
        } by {
            assert(rest[i] == entries[i + 1]);
        }
        lemma_json_entries_have_the_same_members(rest);
        assert(entries[0] is Property);
        assert(*entries[0]->Property_0 is KeyValue);
        lemma_json_form_has_the_same_value(*(*entries[0]->Property_0)->KeyValue_1);
        assert(json.drop_first() =~= json_entries(rest));
    }
}

/// The binary64 encoding of the normal number of binary32 that has the
/// given sign, exponent bits and fraction bits.
pub open spec fn widened(negative: bool, exponent: nat, fraction: nat) -> u64 {
    ((if negative {
        0x8000_0000_0000_0000nat
    } else {
        0nat
    }) + (exponent + 896) * 0x10_0000_0000_0000 + fraction * 0x2000_0000) as u64
}

/// Narrowing loses nothing of a value that binary32 has: a normal number
/// of binary32, written in binary64, narrows to the encoding that it came
/// from.
pub proof fn lemma_narrowing_keeps_binary32_values(negative: bool, exponent: nat, fraction: nat)
    requires
        1 <= exponent <= 254,
        fraction < 0x80_0000,
    ensures
        narrowed(widened(negative, exponent, fraction)) == (if negative {
            0x8000_0000nat
        } else {
            0nat
        }) + exponent * 0x80_0000 + fraction,
{
    let bits = widened(negative, exponent, fraction);
    let low = (exponent + 896) * 0x10_0000_0000_0000 + fraction * 0x2000_0000;
    assert(low < 0x8000_0000_0000_0000);
    assert(sign_bit(bits) == negative);
    assert(fraction * 0x2000_0000 < 0x10_0000_0000_0000);
    assert(bits % 0x10_0000_0000_0000 == fraction * 0x2000_0000);
    assert(bits / 0x10_0000_0000_0000 == (if negative {
        0x800nat
    } else {
        0nat
    }) + exponent + 896);
    assert(biased_exponent(bits) == exponent + 896);
    assert(crate::number::fraction(bits) == fraction * 0x2000_0000);
    assert(significand(bits) == (0x80_0000 + fraction) * 0x2000_0000);
    assert(significand(bits) / 0x2000_0000 == 0x80_0000 + fraction);
    assert(significand(bits) % 0x2000_0000 == 0);
}

/// The tree has no node at a depth greater than `levels`, the root being
/// at depth 1.
pub open spec fn fits(node: NodeView, levels: nat) -> bool
    decreases levels,
{
    levels > 0 && match node {
        NodeView::Array(slots) => forall|i: int|
            0 <= i < slots.len() ==> match #[trigger] slots[i] {
                Some(element) => fits(*element.expr, (levels - 1) as nat),
                None => true,
            },
        NodeView::Object(entries) => forall|i: int|
            0 <= i < entries.len() ==> match #[trigger] entries[i] {
                EntryView::Spread(spread) => fits(*spread, (levels - 1) as nat),
                EntryView::Property(property) => match *property {
                    PropertyView::KeyValue(_, value) => fits(*value, (levels - 1) as nat),
                    _ => true,
                },
            },
        _ => true,
    }
}

/// Reading a tree to a depth that it does not exceed gives the tree itself:
/// nothing is cut off a tree that fits.
pub proof fn lemma_cut_keeps_a_tree_that_fits(node: NodeView, levels: nat)
    requires
        fits(node, levels),
    ensures
        cut(node, levels) == node,
    decreases levels,
{
    let below = (levels - 1) as nat;
    match node {
        NodeView::Array(slots) => {
            assert forall|i: int| 0 <= i < slots.len() implies cut_slot(slots[i], below)
                == slots[i] by {
                match slots[i] {
                    Some(element) => {
                        lemma_cut_keeps_a_tree_that_fits(*element.expr, below);
                    },
                    None => {},
                }
            }
            assert(cut(node, levels)->Array_0 =~= slots);
        },
        NodeView::Object(entries) => {
            assert forall|i: int| 0 <= i < entries.len() implies cut_entry(entries[i], below)
                == entries[i] by {
                match entries[i] {
                    EntryView::Spread(spread) => {
                        lemma_cut_keeps_a_tree_that_fits(*spread, below);
                    },
                    EntryView::Property(property) => match *property {
                        PropertyView::KeyValue(_, value) => {
                            lemma_cut_keeps_a_tree_that_fits(*value, below);
                        },
                        _ => {},
                    },
                }
            }
            assert(cut(node, levels)->Object_0 =~= entries);
        },
        _ => {},
    }
}

} // verus!
