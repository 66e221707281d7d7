//! CBOR values as the indexer reads them out of substates, and the repairs that make them
//! representable as JSON.
//!
//! In JSON every object key is a string, but a decoded CBOR map may use any value as a key (tags,
//! integers, byte strings). Such a map is turned into an array of `[key, value]` pairs, recursively,
//! so that the value converts to JSON without loss.

use tari_template_lib_types::BinaryTag;
use vstd::prelude::*;

verus! {

/// A decoded CBOR value. A float is held as the bits of its `f64`.
#[derive(Debug)]
pub enum CborValue {
    Integer(i128),
    Bytes(Vec<u8>),
    Float(u64),
    Text(String),
    Bool(bool),
    Null,
    Tag(u64, Box<CborValue>),
    Array(Vec<CborValue>),
    Dict(Vec<(CborValue, CborValue)>),
}

/// The mathematical value of a [`CborValue`].
pub enum CborModel {
    Integer(i128),
    Bytes(Seq<u8>),
    Float(u64),
    Text(Seq<char>),
    Bool(bool),
    Null,
    Tag(u64, Box<CborModel>),
    Array(Seq<CborModel>),
    Dict(Seq<(CborModel, CborModel)>),
}

pub open spec fn model(v: CborValue) -> CborModel
    decreases v,
{
    match v {
        CborValue::Integer(i) => CborModel::Integer(i),
        CborValue::Bytes(b) => CborModel::Bytes(b@),
        CborValue::Float(f) => CborModel::Float(f),
        CborValue::Text(s) => CborModel::Text(s@),
        CborValue::Bool(b) => CborModel::Bool(b),
        CborValue::Null => CborModel::Null,
        CborValue::Tag(t, c) => CborModel::Tag(t, Box::new(model(*c))),
        CborValue::Array(items) => {
            proof {
                assert(decreases_to!(items => items@));
            }
            CborModel::Array(model_seq(items@))
        },
        CborValue::Dict(entries) => {
            proof {
                assert(decreases_to!(entries => entries@));
            }
            CborModel::Dict(model_entries(entries@))
        },
    }
}

pub open spec fn model_seq(s: Seq<CborValue>) -> Seq<CborModel>
    decreases s,
{
    if s.len() == 0 {
        Seq::empty()
    } else {
        proof {
            assert(decreases_to!(s => s[s.len() - 1]));
        }
        model_seq(s.drop_last()).push(model(s.last()))
    }
}

pub open spec fn model_entries(s: Seq<(CborValue, CborValue)>) -> Seq<(CborModel, CborModel)>
    decreases s,
{
    if s.len() == 0 {
        Seq::empty()
    } else {
        proof {
            assert(decreases_to!(s => s[s.len() - 1]));
        }
        model_entries(s.drop_last()).push((model(s.last().0), model(s.last().1)))
    }
}

/// The value with every map that has a non-text key turned into an array of `[key, value]` pairs,
/// at every depth. Keys of a map that is kept are kept as they are: they are all text.
pub open spec fn fixed(m: CborModel) -> CborModel
    decreases m,
{
    match m {
        CborModel::Tag(t, c) => CborModel::Tag(t, Box::new(fixed(*c))),
        CborModel::Array(items) => CborModel::Array(fixed_seq(items)),
        CborModel::Dict(entries) => if all_keys_text(entries) {
            CborModel::Dict(fixed_values(entries))
        } else {
            CborModel::Array(entries_as_pairs(entries))
        },
        _ => m,
    }
}

pub open spec fn fixed_seq(s: Seq<CborModel>) -> Seq<CborModel>
    decreases s,
{
    if s.len() == 0 {
        Seq::empty()
    } else {
        proof {
            assert(decreases_to!(s => s[s.len() - 1]));
        }
        fixed_seq(s.drop_last()).push(fixed(s.last()))
    }
}

pub open spec fn fixed_values(s: Seq<(CborModel, CborModel)>) -> Seq<(CborModel, CborModel)>
    decreases s,
{
    if s.len() == 0 {
        Seq::empty()
    } else {
        proof {
            assert(decreases_to!(s => s[s.len() - 1]));
        }
        fixed_values(s.drop_last()).push((s.last().0, fixed(s.last().1)))
    }
}

pub open spec fn entries_as_pairs(s: Seq<(CborModel, CborModel)>) -> Seq<CborModel>
    decreases s,
{
    if s.len() == 0 {
        Seq::empty()
    } else {
        proof {
            assert(decreases_to!(s => s[s.len() - 1]));
        }
        entries_as_pairs(s.drop_last()).push(
            CborModel::Array(seq![fixed(s.last().0), fixed(s.last().1)]),
        )
    }
}

pub open spec fn all_keys_text(s: Seq<(CborModel, CborModel)>) -> bool {
    forall|i: int| 0 <= i < s.len() ==> (#[trigger] s[i]).0 is Text
}

/// A value is representable as JSON when every map in it, at every depth, has only text keys.
pub open spec fn json_keyable(m: CborModel) -> bool
    decreases m,
{
    match m {
        CborModel::Tag(_, c) => json_keyable(*c),
        CborModel::Array(items) => json_keyable_seq(items),
        CborModel::Dict(entries) => all_keys_text(entries) && json_keyable_values(entries),
        _ => true,
    }
}

pub open spec fn json_keyable_seq(s: Seq<CborModel>) -> bool
    decreases s,
{
    if s.len() == 0 {
        true
    } else {
        proof {
            assert(decreases_to!(s => s[s.len() - 1]));
        }
        json_keyable_seq(s.drop_last()) && json_keyable(s.last())
    }
}

pub open spec fn json_keyable_values(s: Seq<(CborModel, CborModel)>) -> bool
    decreases s,
{
    if s.len() == 0 {
        true
    } else {
        proof {
            assert(decreases_to!(s => s[s.len() - 1]));
        }
        json_keyable_values(s.drop_last()) && json_keyable(s.last().1)
    }
}

proof fn lemma_fixed_values_keep_keys(s: Seq<(CborModel, CborModel)>)
    ensures
        fixed_values(s).len() == s.len(),
        forall|i: int| 0 <= i < s.len() ==> (#[trigger] fixed_values(s)[i]).0 == s[i].0,
    decreases s.len(),
{
    if s.len() > 0 {
        lemma_fixed_values_keep_keys(s.drop_last());
        assert forall|i: int| 0 <= i < s.len() implies (#[trigger] fixed_values(s)[i]).0 == s[i].0 by {
            if i < s.len() - 1 {
                assert(fixed_values(s)[i] == fixed_values(s.drop_last())[i]);
                assert(s.drop_last()[i] == s[i]);
            }
        }
    }
}

/// A repaired value is always representable as JSON: no map in it, at any depth, has a key that is
/// not text.
pub proof fn lemma_fixed_is_json_keyable(m: CborModel)
    ensures
        json_keyable(fixed(m)),
    decreases m,
{
    match m {
        CborModel::Tag(t, c) => {
            lemma_fixed_is_json_keyable(*c);
        },
        CborModel::Array(items) => {
            lemma_fixed_seq_is_json_keyable(items);
        },
        CborModel::Dict(entries) => {
            if all_keys_text(entries) {
                lemma_fixed_values_keep_keys(entries);
                lemma_fixed_values_are_json_keyable(entries);
                assert(all_keys_text(fixed_values(entries)));
            } else {
                lemma_entries_as_pairs_are_json_keyable(entries);
            }
        },
        _ => {},
    }
}

proof fn lemma_fixed_seq_is_json_keyable(s: Seq<CborModel>)
    ensures
        json_keyable_seq(fixed_seq(s)),
    decreases s,
{
    if s.len() > 0 {
        assert(decreases_to!(s => s[s.len() - 1]));
        lemma_fixed_seq_is_json_keyable(s.drop_last());
        lemma_fixed_is_json_keyable(s.last());
        assert(fixed_seq(s).drop_last() =~= fixed_seq(s.drop_last()));
    }
}

proof fn lemma_fixed_values_are_json_keyable(s: Seq<(CborModel, CborModel)>)
    ensures
        json_keyable_values(fixed_values(s)),
    decreases s,
{
    if s.len() > 0 {
        assert(decreases_to!(s => s[s.len() - 1]));
        lemma_fixed_values_are_json_keyable(s.drop_last());
        lemma_fixed_is_json_keyable(s.last().1);
        assert(fixed_values(s).drop_last() =~= fixed_values(s.drop_last()));
    }
}

proof fn lemma_entries_as_pairs_are_json_keyable(s: Seq<(CborModel, CborModel)>)
    ensures
        json_keyable_seq(entries_as_pairs(s)),
    decreases s,
{
    if s.len() > 0 {
        assert(decreases_to!(s => s[s.len() - 1]));
        lemma_entries_as_pairs_are_json_keyable(s.drop_last());
        lemma_fixed_is_json_keyable(s.last().0);
        lemma_fixed_is_json_keyable(s.last().1);
        let pair = seq![fixed(s.last().0), fixed(s.last().1)];
        let first = seq![fixed(s.last().0)];
        assert(pair.drop_last() =~= first);
        assert(first.drop_last() =~= Seq::<CborModel>::empty());
        assert(json_keyable_seq(Seq::<CborModel>::empty()));
        assert(first.last() == fixed(s.last().0));
        assert(pair.last() == fixed(s.last().1));
        assert(json_keyable_seq(first));
        assert(json_keyable_seq(pair));
        assert(entries_as_pairs(s).last() == CborModel::Array(pair));
        assert(json_keyable(CborModel::Array(pair)));
        assert(entries_as_pairs(s).drop_last() =~= entries_as_pairs(s.drop_last()));
    }
}

/// Repairing a value that JSON can already represent changes nothing; so repairing twice is the
/// same as repairing once.
pub proof fn lemma_keyable_values_are_left_alone(m: CborModel)
    ensures
        json_keyable(m) ==> fixed(m) == m,
        fixed(fixed(m)) == fixed(m),
    decreases m,
{
    lemma_keyable_is_fixed_point(m);
    lemma_fixed_is_json_keyable(m);
    lemma_keyable_is_fixed_point(fixed(m));
}

proof fn lemma_keyable_is_fixed_point(m: CborModel)
    ensures
        json_keyable(m) ==> fixed(m) == m,
    decreases m,
{
    if json_keyable(m) {
        match m {
            CborModel::Tag(t, c) => {
                lemma_keyable_is_fixed_point(*c);
            },
            CborModel::Array(items) => {
                lemma_keyable_seq_is_fixed_point(items);
            },
            CborModel::Dict(entries) => {
                lemma_keyable_values_are_fixed_point(entries);
            },
            _ => {},
        }
    }
}

proof fn lemma_keyable_seq_is_fixed_point(s: Seq<CborModel>)
    ensures
        json_keyable_seq(s) ==> fixed_seq(s) == s,
    decreases s,
{
    if s.len() > 0 && json_keyable_seq(s) {
        assert(decreases_to!(s => s[s.len() - 1]));
        lemma_keyable_seq_is_fixed_point(s.drop_last());
        lemma_keyable_is_fixed_point(s.last());
        assert(s.drop_last().push(s.last()) =~= s);
    }
}

proof fn lemma_keyable_values_are_fixed_point(s: Seq<(CborModel, CborModel)>)
    ensures
        json_keyable_values(s) ==> fixed_values(s) == s,
    decreases s,
{
    if s.len() > 0 && json_keyable_values(s) {
        assert(decreases_to!(s => s[s.len() - 1]));
        lemma_keyable_values_are_fixed_point(s.drop_last());
        lemma_keyable_is_fixed_point(s.last().1);
        assert(s.drop_last().push((s.last().0, s.last().1)) =~= s);
    }
}

proof fn lemma_model_seq_step(s: Seq<CborValue>, i: int)
    requires
        0 <= i < s.len(),
    ensures
        model_seq(s.take(i + 1)) == model_seq(s.take(i)).push(model(s[i])),
        fixed_seq(model_seq(s.take(i + 1))) == fixed_seq(model_seq(s.take(i))).push(
            fixed(model(s[i])),
        ),
{
    assert(s.take(i + 1).drop_last() =~= s.take(i));
    let m = model_seq(s.take(i)).push(model(s[i]));
    assert(m.drop_last() =~= model_seq(s.take(i)));
}

proof fn lemma_model_entries_step(s: Seq<(CborValue, CborValue)>, i: int)
    requires
        0 <= i < s.len(),
    ensures
        model_entries(s.take(i + 1)) == model_entries(s.take(i)).push(
            (model(s[i].0), model(s[i].1)),
        ),
        fixed_values(model_entries(s.take(i + 1))) == fixed_values(model_entries(s.take(i))).push(
            (model(s[i].0), fixed(model(s[i].1))),
        ),
        entries_as_pairs(model_entries(s.take(i + 1))) == entries_as_pairs(
            model_entries(s.take(i)),
        ).push(CborModel::Array(seq![fixed(model(s[i].0)), fixed(model(s[i].1))])),
{
    assert(s.take(i + 1).drop_last() =~= s.take(i));
    let m = model_entries(s.take(i)).push((model(s[i].0), model(s[i].1)));
    assert(m.drop_last() =~= model_entries(s.take(i)));
}

proof fn lemma_model_entries_keys(s: Seq<(CborValue, CborValue)>)
    ensures
        model_entries(s).len() == s.len(),
        forall|i: int|
            0 <= i < s.len() ==> (#[trigger] model_entries(s)[i]) == (model(s[i].0), model(s[i].1)),
    decreases s.len(),
{
    if s.len() > 0 {
        lemma_model_entries_keys(s.drop_last());
        assert forall|i: int| 0 <= i < s.len() implies (#[trigger] model_entries(s)[i]) == (
        model(s[i].0), model(s[i].1)) by {
            if i < s.len() - 1 {
                assert(model_entries(s)[i] == model_entries(s.drop_last())[i]);
                assert(s.drop_last()[i] == s[i]);
            }
        }
    }
}

fn copy_bytes(b: &Vec<u8>) -> (r: Vec<u8>)
    ensures
        r@ == b@,
{
    let mut r: Vec<u8> = Vec::new();
    let mut i: usize = 0;
    while i < b.len()
        invariant
            i <= b@.len(),
            r@ == b@.take(i as int),
        decreases b@.len() - i,
    {
        r.push(b[i]);
        proof {
            assert(b@.take(i + 1) =~= b@.take(i as int).push(b@[i as int]));
        }
        i = i + 1;
    }
    proof {
        assert(b@.take(b@.len() as int) =~= b@);
    }
    r
}

fn is_text(v: &CborValue) -> (r: bool)
    ensures
        r == (model(*v) is Text),
{
    match v {
        CborValue::Text(_) => true,
        _ => false,
    }
}

fn has_invalid_keys(entries: &Vec<(CborValue, CborValue)>) -> (r: bool)
    ensures
        r == !all_keys_text(model_entries(entries@)),
{
    proof {
        lemma_model_entries_keys(entries@);
    }
    let mut i: usize = 0;
    while i < entries.len()
        invariant
            i <= entries@.len(),
            model_entries(entries@).len() == entries@.len(),
            forall|j: int|
                0 <= j < entries@.len() ==> (#[trigger] model_entries(entries@)[j]) == (
                model(entries@[j].0), model(entries@[j].1)),
            forall|j: int| 0 <= j < i ==> (#[trigger] model_entries(entries@)[j]).0 is Text,
        decreases entries@.len() - i,
    {
        if !is_text(&entries[i].0) {
            assert(!(model_entries(entries@)[i as int].0 is Text));
            return true;
        }
        i = i + 1;
    }
    false
}

/// Makes `value` representable as JSON: every map with a key that is not text becomes an array of
/// `[key, value]` pairs, at every depth, and everything else is kept as it is.
pub fn fix_invalid_object_keys(value: &CborValue) -> (r: CborValue)
    ensures
        model(r) == fixed(model(*value)),
        json_keyable(model(r)),
    decreases value,
{
    proof {
        lemma_fixed_is_json_keyable(model(*value));
    }
    match value {
        CborValue::Integer(i) => CborValue::Integer(*i),
        CborValue::Bytes(b) => CborValue::Bytes(copy_bytes(b)),
        CborValue::Float(f) => CborValue::Float(*f),
        CborValue::Text(s) => CborValue::Text(s.clone()),
        CborValue::Bool(b) => CborValue::Bool(*b),
        CborValue::Null => CborValue::Null,
        CborValue::Tag(t, c) => CborValue::Tag(*t, Box::new(fix_invalid_object_keys(c))),
        CborValue::Array(items) => {
            let fixed_items = fix_items(items);
            CborValue::Array(fixed_items)
        },
        CborValue::Dict(entries) => {
            if has_invalid_keys(entries) {
                CborValue::Array(entries_to_pairs(entries))
            } else {
                CborValue::Dict(fix_entry_values(entries))
            }
        },
    }
}

/// A copy of `value`, equal to it at every depth.
pub fn copy_value(value: &CborValue) -> (r: CborValue)
    ensures
        model(r) == model(*value),
    decreases value,
{
    match value {
        CborValue::Integer(i) => CborValue::Integer(*i),
        CborValue::Bytes(b) => CborValue::Bytes(copy_bytes(b)),
        CborValue::Float(f) => CborValue::Float(*f),
        CborValue::Text(s) => CborValue::Text(s.clone()),
        CborValue::Bool(b) => CborValue::Bool(*b),
        CborValue::Null => CborValue::Null,
        CborValue::Tag(t, c) => CborValue::Tag(*t, Box::new(copy_value(c))),
        CborValue::Array(items) => CborValue::Array(copy_items(items)),
        CborValue::Dict(entries) => CborValue::Dict(copy_entries(entries)),
    }
}

fn copy_items(items: &Vec<CborValue>) -> (r: Vec<CborValue>)
    ensures
        model_seq(r@) == model_seq(items@),
    decreases items,
{
    let mut out: Vec<CborValue> = Vec::new();
    let mut i: usize = 0;
    while i < items.len()
        invariant
            i <= items@.len(),
            model_seq(out@) == model_seq(items@.take(i as int)),
        decreases items@.len() - i,
    {
        proof {
            assert(decreases_to!(items => items@));
            assert(decreases_to!(items@ => items@[i as int]));
        }
        let c = copy_value(&items[i]);
        proof {
            lemma_model_seq_step(items@, i as int);
            assert(out@.push(c).drop_last() =~= out@);
        }
        out.push(c);
        i = i + 1;
    }
    proof {
        assert(items@.take(items@.len() as int) =~= items@);
    }
    out
}

fn copy_entries(entries: &Vec<(CborValue, CborValue)>) -> (r: Vec<(CborValue, CborValue)>)
    ensures
        model_entries(r@) == model_entries(entries@),
    decreases entries,
{
    let mut out: Vec<(CborValue, CborValue)> = Vec::new();
    let mut i: usize = 0;
    while i < entries.len()
        invariant
            i <= entries@.len(),
            model_entries(out@) == model_entries(entries@.take(i as int)),
        decreases entries@.len() - i,
    {
        proof {
            assert(decreases_to!(entries => entries@));
            assert(decreases_to!(entries@ => entries@[i as int]));
            assert(decreases_to!(entries@[i as int] => entries@[i as int].0));
            assert(decreases_to!(entries@[i as int] => entries@[i as int].1));
        }
        let k = copy_value(&entries[i].0);
        let v = copy_value(&entries[i].1);
        proof {
            lemma_model_entries_step(entries@, i as int);
            assert(out@.push((k, v)).drop_last() =~= out@);
        }
        out.push((k, v));
        i = i + 1;
    }
    proof {
        assert(entries@.take(entries@.len() as int) =~= entries@);
    }
    out
}

fn fix_items(items: &Vec<CborValue>) -> (r: Vec<CborValue>)
    ensures
        model_seq(r@) == fixed_seq(model_seq(items@)),
    decreases items,
{
    let mut out: Vec<CborValue> = Vec::new();
    let mut i: usize = 0;
    while i < items.len()
        invariant
            i <= items@.len(),
            model_seq(out@) == fixed_seq(model_seq(items@.take(i as int))),
        decreases items@.len() - i,
    {
        proof {
            assert(decreases_to!(items => items@));
            assert(decreases_to!(items@ => items@[i as int]));
        }
        let f = fix_invalid_object_keys(&items[i]);
        proof {
            lemma_model_seq_step(items@, i as int);
            assert(out@.push(f).drop_last() =~= out@);
        }
        out.push(f);
        i = i + 1;
    }
    proof {
        assert(items@.take(items@.len() as int) =~= items@);
    }
    out
}

fn entries_to_pairs(entries: &Vec<(CborValue, CborValue)>) -> (r: Vec<CborValue>)
    ensures
        model_seq(r@) == entries_as_pairs(model_entries(entries@)),
    decreases entries,
{
    let mut out: Vec<CborValue> = Vec::new();
    let mut i: usize = 0;
    while i < entries.len()
        invariant
            i <= entries@.len(),
            model_seq(out@) == entries_as_pairs(model_entries(entries@.take(i as int))),
        decreases entries@.len() - i,
    {
        proof {
            assert(decreases_to!(entries => entries@));
            assert(decreases_to!(entries@ => entries@[i as int]));
            assert(decreases_to!(entries@[i as int] => entries@[i as int].0));
            assert(decreases_to!(entries@[i as int] => entries@[i as int].1));
        }
        let k = fix_invalid_object_keys(&entries[i].0);
        let v = fix_invalid_object_keys(&entries[i].1);
        let mut pair: Vec<CborValue> = Vec::new();
        pair.push(k);
        pair.push(v);
        let item = CborValue::Array(pair);
        proof {
            lemma_model_entries_step(entries@, i as int);
            let p = pair@;
            assert(p.drop_last() =~= seq![k]);
            assert(seq![k].drop_last() =~= Seq::<CborValue>::empty());
            assert(model_seq(Seq::<CborValue>::empty()) =~= Seq::<CborModel>::empty());
            assert(seq![k].last() == k);
            assert(model_seq(seq![k]) =~= seq![model(k)]);
            assert(p.last() == v);
            assert(model_seq(p) =~= seq![model(k), model(v)]);
            assert(model(item) == CborModel::Array(
                seq![fixed(model(entries@[i as int].0)), fixed(model(entries@[i as int].1))],
            ));
            assert(out@.push(item).drop_last() =~= out@);
            assert(out@.push(item).last() == item);
        }
        out.push(item);
        i = i + 1;
    }
    proof {
        assert(entries@.take(entries@.len() as int) =~= entries@);
    }
    out
}

fn fix_entry_values(entries: &Vec<(CborValue, CborValue)>) -> (r: Vec<(CborValue, CborValue)>)
    requires
        all_keys_text(model_entries(entries@)),
    ensures
        model_entries(r@) == fixed_values(model_entries(entries@)),
    decreases entries,
{
    proof {
        lemma_model_entries_keys(entries@);
    }
    let mut out: Vec<(CborValue, CborValue)> = Vec::new();
    let mut i: usize = 0;
    while i < entries.len()
        invariant
            i <= entries@.len(),
            all_keys_text(model_entries(entries@)),
            model_entries(entries@).len() == entries@.len(),
            forall|j: int|
                0 <= j < entries@.len() ==> (#[trigger] model_entries(entries@)[j]) == (
                model(entries@[j].0), model(entries@[j].1)),
            model_entries(out@) == fixed_values(model_entries(entries@.take(i as int))),
        decreases entries@.len() - i,
    {
        proof {
            assert(decreases_to!(entries => entries@));
            assert(decreases_to!(entries@ => entries@[i as int]));
            assert(decreases_to!(entries@[i as int] => entries@[i as int].0));
            assert(decreases_to!(entries@[i as int] => entries@[i as int].1));
            assert(model_entries(entries@)[i as int].0 is Text);
        }
        let k = fix_invalid_object_keys(&entries[i].0);
        let v = fix_invalid_object_keys(&entries[i].1);
        proof {
            lemma_model_entries_step(entries@, i as int);
            assert(out@.push((k, v)).drop_last() =~= out@);
        }
        out.push((k, v));
        i = i + 1;
    }
    proof {
        assert(entries@.take(entries@.len() as int) =~= entries@);
    }
    out
}

#[verifier::external_type_specification]
pub struct ExBinaryTag(tari_template_lib_types::BinaryTag);

/// `BinaryTag::from_u64`: the engine's tag for each number from 128 to 142, in the order the enum
/// lists them, and `None` for every other number.
pub assume_specification[ BinaryTag::from_u64 ](value: u64) -> (tag: Option<BinaryTag>)
    ensures
        tag == (if value == 128 {
            Some(BinaryTag::ComponentAddress)
        } else if value == 129 {
            Some(BinaryTag::Metadata)
        } else if value == 130 {
            Some(BinaryTag::NonFungibleAddress)
        } else if value == 131 {
            Some(BinaryTag::ResourceAddress)
        } else if value == 132 {
            Some(BinaryTag::VaultId)
        } else if value == 133 {
            Some(BinaryTag::BucketId)
        } else if value == 134 {
            Some(BinaryTag::TransactionReceipt)
        } else if value == 135 {
            Some(BinaryTag::ProofId)
        } else if value == 136 {
            Some(BinaryTag::ClaimedOutputTombstoneAddress)
        } else if value == 137 {
            Some(BinaryTag::TemplateAddress)
        } else if value == 138 {
            Some(BinaryTag::ValidatorNodeFeePool)
        } else if value == 139 {
            Some(BinaryTag::AllocatedComponentAddress)
        } else if value == 140 {
            Some(BinaryTag::AllocatedResourceAddress)
        } else if value == 141 {
            Some(BinaryTag::Utxo)
        } else if value == 142 {
            Some(BinaryTag::ConfidentialOutput)
        } else {
            None
        }),
;

/// The kinds of substate a tagged CBOR value can refer to.
#[derive(Debug, Clone, Copy, PartialEq, Eq, Structural)]
pub enum ReferenceKind {
    Component,
    NonFungible,
    Resource,
    Vault,
}

/// The kind of substate a value tagged `tag` refers to, if any: a component, non-fungible,
/// resource or vault address.
pub open spec fn reference_kind(tag: u64) -> Option<ReferenceKind> {
    if tag == 128 {
        Some(ReferenceKind::Component)
    } else if tag == 130 {
        Some(ReferenceKind::NonFungible)
    } else if tag == 131 {
        Some(ReferenceKind::Resource)
    } else if tag == 132 {
        Some(ReferenceKind::Vault)
    } else {
        None
    }
}

/// The references to other substates in `m`, in order: each tagged value whose tag names a
/// substate address, as a whole; the items of an array and the keys and values of a map in turn;
/// nothing inside a tagged value and nothing in any other value.
pub open spec fn references(m: CborModel) -> Seq<(ReferenceKind, CborModel)>
    decreases m,
{
    match m {
        CborModel::Tag(t, _) => match reference_kind(t) {
            Some(kind) => seq![(kind, m)],
            None => Seq::empty(),
        },
        CborModel::Array(items) => references_seq(items),
        CborModel::Dict(entries) => references_entries(entries),
        _ => Seq::empty(),
    }
}

pub open spec fn references_seq(s: Seq<CborModel>) -> Seq<(ReferenceKind, CborModel)>
    decreases s,
{
    if s.len() == 0 {
        Seq::empty()
    } else {
        proof {
            assert(decreases_to!(s => s[s.len() - 1]));
        }
        references_seq(s.drop_last()) + references(s.last())
    }
}

pub open spec fn references_entries(s: Seq<(CborModel, CborModel)>) -> Seq<
    (ReferenceKind, CborModel),
>
    decreases s,
{
    if s.len() == 0 {
        Seq::empty()
    } else {
        proof {
            assert(decreases_to!(s => s[s.len() - 1]));
        }
        references_entries(s.drop_last()) + references(s.last().0) + references(s.last().1)
    }
}

pub open spec fn model_refs(s: Seq<(ReferenceKind, &CborValue)>) -> Seq<(ReferenceKind, CborModel)> {
    s.map_values(|p: (ReferenceKind, &CborValue)| (p.0, model(*p.1)))
}

proof fn lemma_model_refs_push(s: Seq<(ReferenceKind, &CborValue)>, p: (ReferenceKind, &CborValue))
    ensures
        model_refs(s.push(p)) == model_refs(s).push((p.0, model(*p.1))),
{
    assert(model_refs(s.push(p)) =~= model_refs(s).push((p.0, model(*p.1))));
}

fn reference_kind_of(tag: u64) -> (kind: Option<ReferenceKind>)
    ensures
        kind == reference_kind(tag),
{
    match BinaryTag::from_u64(tag) {
        Some(BinaryTag::ComponentAddress) => Some(ReferenceKind::Component),
        Some(BinaryTag::NonFungibleAddress) => Some(ReferenceKind::NonFungible),
        Some(BinaryTag::ResourceAddress) => Some(ReferenceKind::Resource),
        Some(BinaryTag::VaultId) => Some(ReferenceKind::Vault),
        _ => None,
    }
}

/// Scans `value` for references to other substates, appending each to `out` in order, as the
/// tagged value that holds the address.
pub fn collect_references<'a>(value: &'a CborValue, out: &mut Vec<(ReferenceKind, &'a CborValue)>)
    ensures
        model_refs(final(out)@) == model_refs(old(out)@) + references(model(*value)),
    decreases value,
{
    match value {
        CborValue::Tag(t, _) => {
            match reference_kind_of(*t) {
                Some(kind) => {
                    proof {
                        lemma_model_refs_push(out@, (kind, value));
                    }
                    out.push((kind, value));
                    assert(model_refs(out@) =~= model_refs(old(out)@) + references(model(*value)));
                },
                None => {
                    assert(model_refs(out@) =~= model_refs(old(out)@) + references(model(*value)));
                },
            }
        },
        CborValue::Array(items) => collect_references_in_items(items, out),
        CborValue::Dict(entries) => collect_references_in_entries(entries, out),
        _ => {
            assert(model_refs(out@) =~= model_refs(old(out)@) + references(model(*value)));
        },
    }
}


fn collect_references_in_items<'a>(items: &'a Vec<CborValue>, out: &mut Vec<(ReferenceKind, &'a CborValue)>)
    ensures
        model_refs(final(out)@) == model_refs(old(out)@) + references_seq(model_seq(items@)),
    decreases items,
{
    let mut i: usize = 0;
    while i < items.len()
        invariant
            i <= items@.len(),
            model_refs(out@) == model_refs(old(out)@) + references_seq(
                model_seq(items@.take(i as int)),
            ),
        decreases items@.len() - i,
    {
        proof {
            assert(decreases_to!(items => items@));
            assert(decreases_to!(items@ => items@[i as int]));
            lemma_model_seq_step(items@, i as int);
            let ms = model_seq(items@.take(i + 1));
            assert(ms.drop_last() == model_seq(items@.take(i as int)));
            assert(ms.last() == model(items@[i as int]));
        }
        collect_references(&items[i], out);
        proof {
            assert(model_refs(out@) =~= model_refs(old(out)@) + references_seq(
                model_seq(items@.take(i + 1)),
            ));
        }
        i = i + 1;
    }
    proof {
        assert(items@.take(items@.len() as int) =~= items@);
    }
}

fn collect_references_in_entries<'a>(
    entries: &'a Vec<(CborValue, CborValue)>,
    out: &mut Vec<(ReferenceKind, &'a CborValue)>,
)
    ensures
        model_refs(final(out)@) == model_refs(old(out)@) + references_entries(model_entries(entries@)),
    decreases entries,
{
    let mut i: usize = 0;
    while i < entries.len()
        invariant
            i <= entries@.len(),
            model_refs(out@) == model_refs(old(out)@) + references_entries(
                model_entries(entries@.take(i as int)),
            ),
        decreases entries@.len() - i,
    {
        proof {
            assert(decreases_to!(entries => entries@));
            assert(decreases_to!(entries@ => entries@[i as int]));
            assert(decreases_to!(entries@[i as int] => entries@[i as int].0));
            assert(decreases_to!(entries@[i as int] => entries@[i as int].1));
            lemma_model_entries_step(entries@, i as int);
            let me = model_entries(entries@.take(i + 1));
            assert(me.drop_last() == model_entries(entries@.take(i as int)));
            assert(me.last() == (model(entries@[i as int].0), model(entries@[i as int].1)));
        }
        collect_references(&entries[i].0, out);
        collect_references(&entries[i].1, out);
        proof {
            assert(model_refs(out@) =~= model_refs(old(out)@) + references_entries(
                model_entries(entries@.take(i + 1)),
            ));
        }
        i = i + 1;
    }
    proof {
        assert(entries@.take(entries@.len() as int) =~= entries@);
    }
}

/// The references to other substates in `value`, in order, each as the tagged value holding the
/// address; turning each into an address is left to the caller.
pub fn find_related_substates_in_cbor_value(value: &CborValue) -> (refs: Vec<
    (ReferenceKind, &CborValue),
>)
    ensures
        model_refs(refs@) == references(model(*value)),
{
    let mut refs: Vec<(ReferenceKind, &CborValue)> = Vec::new();
    collect_references(value, &mut refs);
    assert(model_refs(refs@) =~= references(model(*value)));
    refs
}

} // verus!
