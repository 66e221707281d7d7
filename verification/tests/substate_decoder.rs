use tari_indexer::cbor::{CborValue, ReferenceKind};
use tari_engine_types::substate::SubstateId;
use tari_indexer::substate_decoder::{
    DecodeError, SubstateShape, decode_substate_into_json, find_related_substates, related_substate_ids,
};

fn render(v: &CborValue) -> String {
    format!("{:?}", v)
}

// {1: "a"}: a map whose key is not text.
const WHOLE: [u8; 4] = [0xa1, 0x01, 0x61, 0x61];
// [tag(128)(h'01'), {"k": tag(132)(h'02')}]
const STATE: [u8; 12] = [0x82, 0xd8, 0x80, 0x41, 0x01, 0xa1, 0x61, 0x6b, 0xd8, 0x84, 0x41, 0x02];

#[test]
fn a_substate_and_its_state_are_decoded_and_repaired() {
    let shape = SubstateShape::Component { state: STATE.to_vec() };
    let json = decode_substate_into_json(&WHOLE, &shape).unwrap();
    let expected = CborValue::Array(vec![CborValue::Array(vec![CborValue::Integer(1), CborValue::Text("a".to_string())])]);
    assert_eq!(render(&json.substate), render(&expected));
    assert_eq!(json.fields.len(), 1);
    assert_eq!(json.fields[0].0, "state");
    assert!(decode_substate_into_json(&[0xff], &SubstateShape::Other).is_err());
    let bad_part = SubstateShape::NonFungible { contents: Some((STATE.to_vec(), vec![0x1f])) };
    assert_eq!(decode_substate_into_json(&WHOLE, &bad_part).unwrap_err(), DecodeError::InvalidCbor);
}

#[test]
fn references_are_found_in_each_part_in_order() {
    let refs = find_related_substates(&SubstateShape::Component { state: STATE.to_vec() }).unwrap();
    let kinds: Vec<ReferenceKind> = refs.iter().map(|(k, _)| *k).collect();
    assert_eq!(kinds, vec![ReferenceKind::Component, ReferenceKind::Vault]);
    assert_eq!(render(&refs[0].1), render(&CborValue::Tag(128, Box::new(CborValue::Bytes(vec![1])))));

    let nft = SubstateShape::NonFungible { contents: Some((vec![0xf6], STATE.to_vec())) };
    assert_eq!(find_related_substates(&nft).unwrap().len(), 2);
    assert!(find_related_substates(&SubstateShape::NonFungible { contents: None }).unwrap().is_empty());
    let index = SubstateShape::NonFungibleIndex { referenced: CborValue::Tag(130, Box::new(CborValue::Null)) };
    assert_eq!(find_related_substates(&index).unwrap()[0].0, ReferenceKind::NonFungible);
    assert!(find_related_substates(&SubstateShape::Component { state: vec![0x1f] }).is_err());
}

#[test]
fn references_are_read_as_the_substates_they_address() {
    let id: SubstateId = format!("component_{:064x}", 5).parse().unwrap();
    let SubstateId::Component(address) = &id else { panic!("expected a component id") };
    let state = tari_bor::encode(&vec![*address]).unwrap();
    let ids = related_substate_ids(&SubstateShape::Component { state }).unwrap();
    assert_eq!(ids, vec![id]);
    assert!(related_substate_ids(&SubstateShape::Other).unwrap().is_empty());
    // tag(128)(h'01') is tagged as a component address but holds one byte, not an address.
    assert_eq!(
        related_substate_ids(&SubstateShape::Component { state: STATE.to_vec() }).unwrap_err(),
        DecodeError::InvalidReference
    );
    assert_eq!(
        related_substate_ids(&SubstateShape::Component { state: vec![0x1f] }).unwrap_err(),
        DecodeError::InvalidCbor
    );
}

#[test]
fn substate_decoder_it_decodes_confidential_vaults() {
    let resource: SubstateId = format!("resource_{:064x}", 0).parse().unwrap();
    let SubstateId::Resource(address) = resource else { panic!("expected a resource id") };
    let container = tari_engine_types::resource_container::ResourceContainer::confidential(
        address,
        [tari_template_lib_types::crypto::PedersenCommitmentBytes::zero()],
        tari_template_lib_types::Amount::zero(),
    );
    let vault = tari_engine_types::vault::Vault::new(container);
    let substate = tari_engine_types::substate::Substate::new(
        0u64,
        tari_engine_types::substate::SubstateValue::Vault(vault),
    );
    assert!(decode_substate_into_json(&substate.to_bytes(), &SubstateShape::Other).is_ok());
}
