//! The values of the `serde_json` crate.
use crate::checked::{came_out, checked_step, checked_sum, MallocCheckedSizeOf};
use crate::measurement::{
    lemma_then_all_first_fits, lemma_then_all_prefix_fits, lemma_then_all_step, Measurement,
};
use crate::ops::{MallocSizeOfOps, OpsModel};
use crate::sequences::lemma_vec_shallow_fits;
use crate::traits::{MallocShallowSizeOf, MallocSizeOf};
use serde_json::Value;
use vstd::prelude::*;

verus! {

/// `serde_json::Value`: a JSON value.
#[verifier::external_type_specification]
#[verifier::external_body]
pub struct ExValue(Value);

/// What a [`Value`] is made of, as contracts see it.
pub enum JsonModel {
    /// `null`.
    Null,
    /// A boolean.
    Bool,
    /// A number.
    Number,
    /// A string.
    String(String),
    /// An array and its items.
    Array(Vec<Value>),
    /// An object and its entries, in the order in which a walk over it meets
    /// them.
    Object(Seq<(String, Value)>),
}

/// What a [`Value`] is made of.
pub uninterp spec fn json_model(value: Value) -> JsonModel;

/// The parts of a [`Value`].
pub enum JsonParts<'a> {
    /// `null`.
    Null,
    /// A boolean.
    Bool,
    /// A number.
    Number,
    /// A string.
    String(&'a String),
    /// An array.
    Array(&'a Vec<Value>),
    /// The entries of an object.
    Object(Vec<(&'a String, &'a Value)>),
}

impl<'a> JsonParts<'a> {
    pub open spec fn model(self) -> JsonModel {
        match self {
            JsonParts::Null => JsonModel::Null,
            JsonParts::Bool => JsonModel::Bool,
            JsonParts::Number => JsonModel::Number,
            JsonParts::String(s) => JsonModel::String(*s),
            JsonParts::Array(a) => JsonModel::Array(*a),
            JsonParts::Object(entries) => JsonModel::Object(entries@.unref()),
        }
    }
}

/// `part` is a proper part of `whole`.
pub open spec fn inside(whole: Value, part: Value) -> bool {
    decreases_to!(whole => part)
}

/// The values in `model` are proper parts of `whole`.
pub open spec fn all_inside(whole: Value, model: JsonModel) -> bool {
    match model {
        JsonModel::Array(items) => items_inside(whole, items@),
        JsonModel::Object(entries) => items_inside(whole, values_of(entries)),
        _ => true,
    }
}

/// The values of `entries`.
pub open spec fn values_of(entries: Seq<(String, Value)>) -> Seq<Value> {
    entries.map_values(|entry: (String, Value)| entry.1)
}

/// Each of `items` is a proper part of `whole`.
pub open spec fn items_inside(whole: Value, items: Seq<Value>) -> bool {
    forall|i: int| 0 <= i < items.len() ==> inside(whole, #[trigger] items[i])
}

/// The parts of a value: the variants of `serde_json::Value`, with the entries
/// of an object as `serde_json::Map::iter` gives them.
///
/// A value is a finite tree, so the values in it are smaller than itself.
#[verifier::external_body]
fn json_parts(value: &Value) -> (parts: JsonParts<'_>)
    ensures
        parts.model() == json_model(*value),
        all_inside(*value, parts.model()),
{
    match value {
        Value::Null => JsonParts::Null,
        Value::Bool(_) => JsonParts::Bool,
        Value::Number(_) => JsonParts::Number,
        Value::String(s) => JsonParts::String(s),
        Value::Array(a) => JsonParts::Array(a),
        Value::Object(o) => JsonParts::Object(o.iter().collect()),
    }
}

/// What measuring a value inside `whole` may return.
pub open spec fn part_measurement(whole: Value, part: Value) -> Measurement
    decreases whole, 0int,
{
    if inside(whole, part) {
        json_measurement(part)
    } else {
        Measurement::impossible()
    }
}

/// What measuring `value` may return.
pub open spec fn json_measurement(value: Value) -> Measurement
    decreases value, 2int,
{
    match json_model(value) {
        JsonModel::Null => Measurement::nothing(),
        JsonModel::Bool => Measurement::nothing(),
        JsonModel::Number => Measurement::nothing(),
        JsonModel::String(s) => s.measurement(),
        JsonModel::Array(items) => items.shallow_measurement().then_all(
            item_measurements(value, items@),
        ),
        JsonModel::Object(entries) => Measurement::nothing().then_all(
            entry_measurements(value, entries),
        ),
    }
}

/// What measuring each of `items`, which are inside `whole`, may return.
pub open spec fn item_measurements(whole: Value, items: Seq<Value>) -> Seq<Measurement>
    decreases whole, 1int,
{
    items.map_values(|item: Value| part_measurement(whole, item))
}

/// What measuring the key and the value of each of `entries`, which are inside
/// `whole`, may return.
pub open spec fn entry_measurements(whole: Value, entries: Seq<(String, Value)>) -> Seq<Measurement>
    decreases whole, 1int,
{
    entries.map_values(
        |entry: (String, Value)| entry.0.measurement().plus(part_measurement(whole, entry.1)),
    )
}

/// The size of `value`.
fn json_size_of(value: &Value, ops: &mut MallocSizeOfOps) -> (n: usize)
    requires
        json_measurement(*value).fits(old(ops)@),
    ensures
        json_measurement(*value).yields(old(ops)@, final(ops)@, n as nat),
        final(ops)@.continues(old(ops)@),
        all_inside(*value, json_model(*value)),
    decreases value, 1int,
{
    match json_parts(value) {
        JsonParts::Null => 0,
        JsonParts::Bool => 0,
        JsonParts::Number => 0,
        JsonParts::String(s) => s.size_of(ops),
        JsonParts::Array(a) => {
            let ghost origin = ops@;
            proof {
                lemma_then_all_first_fits(
                    a.shallow_measurement(),
                    item_measurements(*value, a@),
                    origin,
                );
            }
            let ghost first = a.shallow_measurement();
            let n = a.shallow_size_of(ops);
            add_each_item(value, n, a.as_slice(), ops, Ghost(first), Ghost(origin))
        },
        JsonParts::Object(entries) => {
            let ghost origin = ops@;
            assert forall|i: int| 0 <= i < entries@.len() implies #[trigger] inside(
                *value,
                *entries@[i].1,
            ) by {
                assert(inside(*value, values_of(entries@.unref())[i]));
            }
            add_each_entry(value, entries.as_slice(), ops, Ghost(origin))
        },
    }
}

/// Adds the size of each of `items`, which are inside `whole`, to `start`, which
/// a first measurement yielded.
fn add_each_item(
    whole: &Value,
    start: usize,
    items: &[Value],
    ops: &mut MallocSizeOfOps,
    Ghost(first): Ghost<Measurement>,
    Ghost(origin): Ghost<OpsModel>,
) -> (n: usize)
    requires
        items_inside(*whole, items@),
        first.yields(origin, old(ops)@, start as nat),
        first.then_all(item_measurements(*whole, items@)).fits(origin),
    ensures
        first.then_all(item_measurements(*whole, items@)).yields(origin, final(ops)@, n as nat),
        final(ops)@.continues(old(ops)@),
    decreases whole, 0int,
{
    let ghost rest = item_measurements(*whole, items@);
    let mut n: usize = start;
    assert(rest.take(0) =~= Seq::<Measurement>::empty());
    for i in 0..items.len()
        invariant
            items_inside(*whole, items@),
            rest == item_measurements(*whole, items@),
            ops@.continues(old(ops)@),
            first.then_all(rest).fits(origin),
            first.then_all(rest.take(i as int)).yields(origin, ops@, n as nat),
    {
        proof {
            lemma_then_all_prefix_fits(first, rest, i + 1, origin);
            lemma_then_all_step(first, rest, i as int);
            assert(inside(*whole, items@[i as int]));
        }
        let size = json_size_of(&items[i], ops);
        n = n + size;
    }
    assert(rest.take(items@.len() as int) =~= rest);
    n
}

/// The sizes of the key and of the value of each of `entries`, which are inside
/// `whole`.
fn add_each_entry(
    whole: &Value,
    entries: &[(&String, &Value)],
    ops: &mut MallocSizeOfOps,
    Ghost(origin): Ghost<OpsModel>,
) -> (n: usize)
    requires
        forall|i: int| 0 <= i < entries@.len() ==> #[trigger] inside(*whole, *entries@[i].1),
        old(ops)@ == origin,
        Measurement::nothing().then_all(entry_measurements(*whole, entries@.unref())).fits(origin),
    ensures
        Measurement::nothing().then_all(entry_measurements(*whole, entries@.unref())).yields(
            origin,
            final(ops)@,
            n as nat,
        ),
        final(ops)@.continues(old(ops)@),
    decreases whole, 0int,
{
    let ghost first = Measurement::nothing();
    let ghost rest = entry_measurements(*whole, entries@.unref());
    let mut n: usize = 0;
    assert(rest.take(0) =~= Seq::<Measurement>::empty());
    for i in 0..entries.len()
        invariant
            forall|i: int| 0 <= i < entries@.len() ==> #[trigger] inside(*whole, *entries@[i].1),
            rest == entry_measurements(*whole, entries@.unref()),
            ops@.continues(old(ops)@),
            first.then_all(rest).fits(origin),
            first.then_all(rest.take(i as int)).yields(origin, ops@, n as nat),
    {
        let ghost before = ops@;
        proof {
            lemma_then_all_prefix_fits(first, rest, i + 1, origin);
            lemma_then_all_step(first, rest, i as int);
            assert(inside(*whole, *entries@[i as int].1));
            assert(rest[i as int].fits(before));
            assert(rest[i as int] == entries@[i as int].0.measurement().plus(
                json_measurement(*entries@[i as int].1),
            ));
        }
        let key = entries[i].0.size_of(ops);
        let value = json_size_of(entries[i].1, ops);
        assert(rest[i as int].yields(before, ops@, (key + value) as nat));
        n = n + (key + value);
    }
    assert(rest.take(entries@.len() as int) =~= rest);
    n
}

impl MallocSizeOf for Value {
    open spec fn measurement(&self) -> Measurement {
        json_measurement(*self)
    }

    fn size_of(&self, ops: &mut MallocSizeOfOps) -> (n: usize)
        ensures
            all_inside(*self, json_model(*self)),
    {
        json_size_of(self, ops)
    }
}

/// The size of `value`, or `None` where it cannot be measured.
fn checked_json_size_of(value: &Value, ops: &mut MallocSizeOfOps) -> (n: Option<usize>)
    ensures
        came_out(json_measurement(*value), old(ops)@, final(ops)@, n),
        final(ops)@.continues(old(ops)@),
        all_inside(*value, json_model(*value)),
    decreases value, 1int,
{
    match json_parts(value) {
        JsonParts::Null => Some(0),
        JsonParts::Bool => Some(0),
        JsonParts::Number => Some(0),
        JsonParts::String(s) => s.checked_size_of(ops),
        JsonParts::Array(a) => {
            let ghost origin = ops@;
            let ghost first = a.shallow_measurement();
            proof {
                lemma_vec_shallow_fits(a, origin);
            }
            let n = a.shallow_size_of(ops);
            checked_add_each_item(value, n, a.as_slice(), ops, Ghost(first), Ghost(origin))
        },
        JsonParts::Object(entries) => {
            assert forall|i: int| 0 <= i < entries@.len() implies #[trigger] inside(
                *value,
                *entries@[i].1,
            ) by {
                assert(inside(*value, values_of(entries@.unref())[i]));
            }
            checked_add_each_entry(value, entries.as_slice(), ops)
        },
    }
}

/// The outcome of a first measurement and then each of `items`, which are inside
/// `whole`.
fn checked_add_each_item(
    whole: &Value,
    start: usize,
    items: &[Value],
    ops: &mut MallocSizeOfOps,
    Ghost(first): Ghost<Measurement>,
    Ghost(origin): Ghost<OpsModel>,
) -> (n: Option<usize>)
    requires
        items_inside(*whole, items@),
        first.yields(origin, old(ops)@, start as nat),
    ensures
        came_out(
            first.then_all(item_measurements(*whole, items@)),
            origin,
            final(ops)@,
            n,
        ),
        final(ops)@.continues(old(ops)@),
    decreases whole, 0int,
{
    let ghost rest = item_measurements(*whole, items@);
    let mut n: usize = start;
    assert(rest.take(0) =~= Seq::<Measurement>::empty());
    for i in 0..items.len()
        invariant
            items_inside(*whole, items@),
            rest == item_measurements(*whole, items@),
            ops@.continues(old(ops)@),
            first.then_all(rest.take(i as int)).yields(origin, ops@, n as nat),
    {
        let ghost before = ops@;
        assert(inside(*whole, items@[i as int]));
        let size = checked_json_size_of(&items[i], ops);
        match checked_step(
            n,
            size,
            Ghost(first),
            Ghost(rest),
            Ghost(i as int),
            Ghost(origin),
            Ghost(before),
            Ghost(ops@),
        ) {
            Some(sum) => {
                n = sum;
            },
            None => return None,
        }
    }
    assert(rest.take(items@.len() as int) =~= rest);
    Some(n)
}

/// The outcome of the key and the value of each of `entries`, which are inside
/// `whole`.
fn checked_add_each_entry(
    whole: &Value,
    entries: &[(&String, &Value)],
    ops: &mut MallocSizeOfOps,
) -> (n: Option<usize>)
    requires
        forall|i: int| 0 <= i < entries@.len() ==> #[trigger] inside(*whole, *entries@[i].1),
    ensures
        came_out(
            Measurement::nothing().then_all(entry_measurements(*whole, entries@.unref())),
            old(ops)@,
            final(ops)@,
            n,
        ),
        final(ops)@.continues(old(ops)@),
    decreases whole, 0int,
{
    let ghost origin = ops@;
    let ghost first = Measurement::nothing();
    let ghost rest = entry_measurements(*whole, entries@.unref());
    let mut n: usize = 0;
    assert(rest.take(0) =~= Seq::<Measurement>::empty());
    for i in 0..entries.len()
        invariant
            origin == old(ops)@,
            first == Measurement::nothing(),
            forall|i: int| 0 <= i < entries@.len() ==> #[trigger] inside(*whole, *entries@[i].1),
            rest == entry_measurements(*whole, entries@.unref()),
            ops@.continues(old(ops)@),
            first.then_all(rest.take(i as int)).yields(origin, ops@, n as nat),
    {
        let ghost before = ops@;
        let ghost (k, v) = (
            entries@[i as int].0.measurement(),
            json_measurement(*entries@[i as int].1),
        );
        assert(inside(*whole, *entries@[i as int].1));
        assert(rest[i as int] == k.plus(v));
        let key = entries[i].0.checked_size_of(ops);
        let ghost mid = ops@;
        let value = match key {
            Some(_) => checked_json_size_of(entries[i].1, ops),
            None => None,
        };
        let size = checked_sum(
            key,
            value,
            Ghost(k),
            Ghost(v),
            Ghost(before),
            Ghost(mid),
            Ghost(ops@),
        );
        match checked_step(
            n,
            size,
            Ghost(first),
            Ghost(rest),
            Ghost(i as int),
            Ghost(origin),
            Ghost(before),
            Ghost(ops@),
        ) {
            Some(sum) => {
                n = sum;
            },
            None => return None,
        }
    }
    assert(rest.take(entries@.len() as int) =~= rest);
    Some(n)
}

impl MallocCheckedSizeOf for Value {
    fn checked_size_of(&self, ops: &mut MallocSizeOfOps) -> (n: Option<usize>)
        ensures
            all_inside(*self, json_model(*self)),
    {
        checked_json_size_of(self, ops)
    }
}

} // verus!
