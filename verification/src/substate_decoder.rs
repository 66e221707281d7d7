//! Decoding a substate's CBOR, and finding the other substates it refers to.
//!
//! A substate is encoded as CBOR, and so are the parts of it that templates fill in: a component's
//! state and a non-fungible's data and mutable data. Those parts are decoded on their own, both to
//! show them as JSON and to scan them for references to other substates.

use ciborium::value::Value;
use tari_engine_types::substate::SubstateId;
use vstd::prelude::*;
use vstd::string::StringExecFns;

use crate::cbor::{
    CborModel, CborValue, ReferenceKind, copy_value, find_related_substates_in_cbor_value, fix_invalid_object_keys,
    fixed, model, model_refs, references,
};

verus! {

#[verifier::external_type_specification]
#[verifier::external_body]
pub struct ExCiboriumValue(ciborium::value::Value);

#[verifier::external_type_specification]
#[verifier::external_body]
pub struct ExBorValue(tari_bor::Value);

/// What `ciborium` decodes `bytes` into, as the library's model of a CBOR value: the item the bytes
/// begin with (anything after it is not read); `None` where they do not begin with a well-formed
/// item that `ciborium` takes in. It depends on the bytes alone.
pub uninterp spec fn cbor_decoded(bytes: Seq<u8>) -> Option<CborModel>;

/// `ciborium::de::from_reader` into a `ciborium` value, taken over into the library's form: the
/// CBOR item `bytes` begin with, or `None` where they do not begin with one.
#[verifier::external_body]
pub(crate) fn decode_into_cbor(bytes: &[u8]) -> (r: Option<CborValue>)
    ensures
        r.is_some() == cbor_decoded(bytes@).is_some(),
        r matches Some(v) ==> cbor_decoded(bytes@) == Some(model(v)),
{
    let value: Value = ciborium::de::from_reader(bytes).ok()?;
    from_ciborium(&value)
}

/// Takes a decoded `ciborium` value over into the library's form, variant for variant.
#[verifier::external_body]
fn from_ciborium(v: &Value) -> (r: Option<CborValue>) {
    Some(match v {
        Value::Integer(i) => CborValue::Integer(i128::from(*i)),
        Value::Bytes(b) => CborValue::Bytes(b.clone()),
        Value::Float(x) => CborValue::Float(x.to_bits()),
        Value::Text(s) => CborValue::Text(s.clone()),
        Value::Bool(b) => CborValue::Bool(*b),
        Value::Null => CborValue::Null,
        Value::Tag(t, c) => CborValue::Tag(*t, Box::new(from_ciborium(c)?)),
        Value::Array(items) => CborValue::Array(items.iter().map(from_ciborium).collect::<Option<_>>()?),
        Value::Map(entries) => CborValue::Dict(from_ciborium_entries(entries)?),
        _ => return None,
    })
}

/// Takes the entries of a decoded `ciborium` map over into the library's form, in order.
#[verifier::external_body]
fn from_ciborium_entries(entries: &Vec<(Value, Value)>) -> (r: Option<Vec<(CborValue, CborValue)>>) {
    entries.iter().map(|(k, v)| Some((from_ciborium(k)?, from_ciborium(v)?))).collect()
}

/// Why a substate could not be decoded: one of its CBOR parts is not well formed, or a value
/// tagged as a substate address does not hold one.
#[derive(Debug, Clone, Copy, PartialEq, Eq, Structural)]
pub enum DecodeError {
    InvalidCbor,
    InvalidReference,
}

/// The address `tari_bor::from_value` reads out of the tagged value `tagged` as the address of a
/// substate of kind `kind`, or `None` where it does not hold one. It depends on its arguments alone.
pub uninterp spec fn reference_address(kind: ReferenceKind, tagged: CborModel) -> Option<SubstateId>;

/// `tari_bor::from_value` into the address type of `kind`, the address taken as a substate id:
/// the substate `tagged` refers to, or `None` where it does not hold such an address. (A float,
/// which no address holds, is not taken over into `tari_bor`'s value and also gives `None`.)
#[verifier::external_body]
fn address_of_reference(kind: ReferenceKind, tagged: &CborValue) -> (r: Option<SubstateId>)
    ensures
        r == reference_address(kind, model(*tagged)),
{
    let value = to_bor_value(tagged)?;
    match kind {
        ReferenceKind::Component => tari_bor::from_value(&value).ok().map(SubstateId::Component),
        ReferenceKind::NonFungible => tari_bor::from_value(&value).ok().map(SubstateId::NonFungible),
        ReferenceKind::Resource => tari_bor::from_value(&value).ok().map(SubstateId::Resource),
        ReferenceKind::Vault => tari_bor::from_value(&value).ok().map(SubstateId::Vault),
    }
}

/// Takes a library value over into a `tari_bor` value, variant for variant; a float is not taken
/// over.
#[verifier::external_body]
fn to_bor_value(v: &CborValue) -> (r: Option<tari_bor::Value>) {
    Some(match v {
        CborValue::Integer(i) => tari_bor::Value::Integer(*i),
        CborValue::Bytes(b) => tari_bor::Value::Bytes(b.clone()),
        CborValue::Float(_) => return None,
        CborValue::Text(t) => tari_bor::Value::Text(t.clone()),
        CborValue::Bool(b) => tari_bor::Value::Bool(*b),
        CborValue::Null => tari_bor::Value::Null,
        CborValue::Tag(t, c) => tari_bor::Value::Tag(*t, Box::new(to_bor_value(c)?)),
        CborValue::Array(items) => tari_bor::Value::Array(items.iter().map(to_bor_value).collect::<Option<_>>()?),
        CborValue::Dict(entries) => tari_bor::Value::Map(to_bor_entries(entries)?),
    })
}

/// Takes the entries of a library map over into `tari_bor` values, in order.
#[verifier::external_body]
fn to_bor_entries(entries: &Vec<(CborValue, CborValue)>) -> (r: Option<Vec<(tari_bor::Value, tari_bor::Value)>>) {
    entries.iter().map(|(k, x)| Some((to_bor_value(k)?, to_bor_value(x)?))).collect()
}

/// The parts of a substate that hold CBOR of their own, by the kind of substate: a component's
/// state; a non-fungible's data and mutable data, where it has contents; the non-fungible a
/// non-fungible index refers to, as its tagged address; and nothing for any other substate.
#[derive(Debug)]
pub enum SubstateShape {
    Component { state: Vec<u8> },
    NonFungible { contents: Option<(Vec<u8>, Vec<u8>)> },
    NonFungibleIndex { referenced: CborValue },
    Other,
}

pub open spec fn owned_refs(s: Seq<(ReferenceKind, CborValue)>) -> Seq<(ReferenceKind, CborModel)> {
    s.map_values(|p: (ReferenceKind, CborValue)| (p.0, model(p.1)))
}

/// The references a substate of shape `shape` holds to other substates, in order: those in a
/// component's state; those in a non-fungible's data, then in its mutable data; the one
/// non-fungible an index refers to; and none for any other substate. `None` where a part does not
/// decode.
pub open spec fn spec_related_substates(shape: SubstateShape) -> Option<Seq<(ReferenceKind, CborModel)>> {
    match shape {
        SubstateShape::Component { state } => match cbor_decoded(state@) {
            Some(m) => Some(references(m)),
            None => None,
        },
        SubstateShape::NonFungible { contents } => match contents {
            Some((data, mutable_data)) => match (cbor_decoded(data@), cbor_decoded(mutable_data@)) {
                (Some(d), Some(md)) => Some(references(d) + references(md)),
                _ => None,
            },
            None => Some(Seq::empty()),
        },
        SubstateShape::NonFungibleIndex { referenced } => Some(
            seq![(ReferenceKind::NonFungible, model(referenced))],
        ),
        SubstateShape::Other => Some(Seq::empty()),
    }
}

fn push_refs(value: &CborValue, out: &mut Vec<(ReferenceKind, CborValue)>)
    ensures
        owned_refs(final(out)@) == owned_refs(old(out)@) + references(model(*value)),
{
    let refs = find_related_substates_in_cbor_value(value);
    let ghost start = owned_refs(out@);
    let mut i: usize = 0;
    while i < refs.len()
        invariant
            i <= refs@.len(),
            model_refs(refs@) == references(model(*value)),
            owned_refs(out@) == start + model_refs(refs@).take(i as int),
        decreases refs@.len() - i,
    {
        let (kind, tagged) = refs[i];
        let copy = copy_value(tagged);
        let ghost before = out@;
        out.push((kind, copy));
        proof {
            assert(owned_refs(out@) =~= owned_refs(before).push((kind, model(copy))));
            assert(model_refs(refs@).take(i + 1) =~= model_refs(refs@).take(i as int).push(
                model_refs(refs@)[i as int],
            ));
        }
        i = i + 1;
    }
    proof {
        assert(model_refs(refs@).take(refs@.len() as int) =~= model_refs(refs@));
    }
}

/// The references a substate of shape `shape` holds to other substates, each as the tagged value
/// holding the address, in order; or the error where one of its CBOR parts does not decode.
/// Turning each into an address is left to the caller.
pub fn find_related_substates(shape: &SubstateShape) -> (r: Result<Vec<(ReferenceKind, CborValue)>, DecodeError>)
    ensures
        match r {
            Ok(refs) => spec_related_substates(*shape) == Some(owned_refs(refs@)),
            Err(_) => spec_related_substates(*shape) is None,
        },
{
    let mut out: Vec<(ReferenceKind, CborValue)> = Vec::new();
    proof {
        assert(owned_refs(out@) =~= Seq::empty());
    }
    match shape {
        SubstateShape::Component { state } => {
            let v = match decode_into_cbor(state.as_slice()) {
                Some(v) => v,
                None => {
                    return Err(DecodeError::InvalidCbor);
                },
            };
            push_refs(&v, &mut out);
            assert(owned_refs(out@) =~= references(model(v)));
        },
        SubstateShape::NonFungible { contents } => {
            if let Some((data, mutable_data)) = contents {
                let d = match decode_into_cbor(data.as_slice()) {
                    Some(v) => v,
                    None => {
                        return Err(DecodeError::InvalidCbor);
                    },
                };
                let md = match decode_into_cbor(mutable_data.as_slice()) {
                    Some(v) => v,
                    None => {
                        return Err(DecodeError::InvalidCbor);
                    },
                };
                push_refs(&d, &mut out);
                push_refs(&md, &mut out);
                assert(owned_refs(out@) =~= references(model(d)) + references(model(md)));
            }
        },
        SubstateShape::NonFungibleIndex { referenced } => {
            let copy = copy_value(referenced);
            out.push((ReferenceKind::NonFungible, copy));
            assert(owned_refs(out@) =~= seq![(ReferenceKind::NonFungible, model(*referenced))]);
        },
        SubstateShape::Other => {},
    }
    Ok(out)
}

/// The addresses `refs` hold, in order, or `None` where one of them does not hold one.
pub open spec fn addresses_of(refs: Seq<(ReferenceKind, CborModel)>) -> Option<Seq<SubstateId>>
    decreases refs.len(),
{
    if refs.len() == 0 {
        Some(Seq::empty())
    } else {
        match (addresses_of(refs.drop_last()), reference_address(refs.last().0, refs.last().1)) {
            (Some(ids), Some(id)) => Some(ids.push(id)),
            _ => None,
        }
    }
}

/// The substates a substate of shape `shape` refers to, in order; the error where one of its CBOR
/// parts does not decode, else where one of the references it holds is not an address.
pub open spec fn spec_related_substate_ids(shape: SubstateShape) -> Result<Seq<SubstateId>, DecodeError> {
    match spec_related_substates(shape) {
        None => Err(DecodeError::InvalidCbor),
        Some(refs) => match addresses_of(refs) {
            Some(ids) => Ok(ids),
            None => Err(DecodeError::InvalidReference),
        },
    }
}

pub open spec fn ids_view(r: Result<Vec<SubstateId>, DecodeError>) -> Result<Seq<SubstateId>, DecodeError> {
    match r {
        Ok(ids) => Ok(ids@),
        Err(e) => Err(e),
    }
}

/// The substates a substate of shape `shape` refers to, each by its id, in the order
/// [`find_related_substates`] finds them; or why they could not be found.
pub fn related_substate_ids(shape: &SubstateShape) -> (r: Result<Vec<SubstateId>, DecodeError>)
    ensures
        ids_view(r) == spec_related_substate_ids(*shape),
{
    let refs = match find_related_substates(shape) {
        Ok(refs) => refs,
        Err(_) => {
            return Err(DecodeError::InvalidCbor);
        },
    };
    let ghost all = owned_refs(refs@);
    let mut ids: Vec<SubstateId> = Vec::new();
    let mut i: usize = 0;
    while i < refs.len()
        invariant
            i <= refs@.len(),
            all == owned_refs(refs@),
            spec_related_substates(*shape) == Some(all),
            addresses_of(all.take(i as int)) == Some(ids@),
        decreases refs@.len() - i,
    {
        let (kind, tagged) = &refs[i];
        let found = address_of_reference(*kind, tagged);
        proof {
            assert(all.take(i + 1).drop_last() =~= all.take(i as int));
            assert(all.take(i + 1).last() == (*kind, model(*tagged)));
        }
        match found {
            Some(id) => {
                ids.push(id);
            },
            None => {
                proof {
                    lemma_a_failed_address_fails_all(all, i + 1);
                }
                return Err(DecodeError::InvalidReference);
            },
        }
        i = i + 1;
    }
    assert(all.take(refs@.len() as int) =~= all);
    Ok(ids)
}

/// Where a reference among the first `k` is not an address, neither are the references as a whole.
proof fn lemma_a_failed_address_fails_all(refs: Seq<(ReferenceKind, CborModel)>, k: int)
    requires
        0 <= k <= refs.len(),
        addresses_of(refs.take(k)) is None,
    ensures
        addresses_of(refs) is None,
    decreases refs.len() - k,
{
    if k < refs.len() {
        assert(refs.take(k + 1).drop_last() =~= refs.take(k));
        lemma_a_failed_address_fails_all(refs, k + 1);
    } else {
        assert(refs.take(k) =~= refs);
    }
}

/// A substate decoded for showing as JSON: the whole substate, and each part that holds CBOR of
/// its own, by field name, decoded in turn; every one repaired so that JSON can represent it.
#[derive(Debug)]
pub struct SubstateJson {
    pub substate: CborValue,
    pub fields: Vec<(String, CborValue)>,
}

pub open spec fn field_models(s: Seq<(String, CborValue)>) -> Seq<(Seq<char>, CborModel)> {
    s.map_values(|p: (String, CborValue)| (p.0@, model(p.1)))
}

/// The repaired decodings of a substate whose bytes are `bytes` and whose shape is `shape`: the
/// whole substate, and its component `state`, or its non-fungible `data` then `mutable_data`;
/// `None` where any of them does not decode.
pub open spec fn spec_substate_json(bytes: Seq<u8>, shape: SubstateShape) -> Option<(CborModel, Seq<(Seq<char>, CborModel)>)> {
    match cbor_decoded(bytes) {
        None => None,
        Some(whole) => match shape {
            SubstateShape::Component { state } => match cbor_decoded(state@) {
                Some(s) => Some((fixed(whole), seq![("state"@, fixed(s))])),
                None => None,
            },
            SubstateShape::NonFungible { contents: Some((data, mutable_data)) } => match (
                cbor_decoded(data@),
                cbor_decoded(mutable_data@),
            ) {
                (Some(d), Some(md)) => Some(
                    (fixed(whole), seq![("data"@, fixed(d)), ("mutable_data"@, fixed(md))]),
                ),
                _ => None,
            },
            _ => Some((fixed(whole), Seq::empty())),
        },
    }
}

fn decode_fixed(bytes: &[u8]) -> (r: Result<CborValue, DecodeError>)
    ensures
        match r {
            Ok(v) => cbor_decoded(bytes@) matches Some(m) && model(v) == fixed(m),
            Err(_) => cbor_decoded(bytes@) is None,
        },
{
    match decode_into_cbor(bytes) {
        Some(v) => Ok(fix_invalid_object_keys(&v)),
        None => Err(DecodeError::InvalidCbor),
    }
}

/// Decodes a substate for showing as JSON, from its encoding `bytes` and its `shape`: the whole
/// substate and the parts that hold CBOR of their own, each repaired so that JSON can represent
/// it; or the error where one of them does not decode.
pub fn decode_substate_into_json(bytes: &[u8], shape: &SubstateShape) -> (r: Result<SubstateJson, DecodeError>)
    ensures
        match r {
            Ok(j) => spec_substate_json(bytes@, *shape) == Some((model(j.substate), field_models(j.fields@))),
            Err(_) => spec_substate_json(bytes@, *shape) is None,
        },
{
    let substate = decode_fixed(bytes)?;
    let mut fields: Vec<(String, CborValue)> = Vec::new();
    match shape {
        SubstateShape::Component { state } => {
            let s = decode_fixed(state.as_slice())?;
            fields.push((<String as StringExecFns>::from_str("state"), s));
            assert(field_models(fields@) =~= seq![("state"@, model(s))]);
        },
        SubstateShape::NonFungible { contents: Some((data, mutable_data)) } => {
            let d = decode_fixed(data.as_slice())?;
            let md = decode_fixed(mutable_data.as_slice())?;
            fields.push((<String as StringExecFns>::from_str("data"), d));
            fields.push((<String as StringExecFns>::from_str("mutable_data"), md));
            assert(field_models(fields@) =~= seq![("data"@, model(d)), ("mutable_data"@, model(md))]);
        },
        _ => {
            assert(field_models(fields@) =~= Seq::empty());
        },
    }
    Ok(SubstateJson { substate, fields })
}

} // verus!
