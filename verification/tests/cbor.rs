use tari_indexer::cbor::{CborValue, ReferenceKind, find_related_substates_in_cbor_value, fix_invalid_object_keys};

fn text(s: &str) -> CborValue {
    CborValue::Text(s.to_string())
}

fn render(v: &CborValue) -> String {
    format!("{:?}", v)
}

#[test]
fn a_map_with_text_keys_is_kept() {
    let v = CborValue::Dict(vec![(text("a"), CborValue::Integer(1)), (text("b"), CborValue::Null)]);
    assert_eq!(render(&fix_invalid_object_keys(&v)), render(&v));
}

#[test]
fn a_map_with_a_non_text_key_becomes_pairs() {
    let v = CborValue::Dict(vec![(text("a"), CborValue::Integer(1)), (CborValue::Integer(7), CborValue::Bool(true))]);
    let expected = CborValue::Array(vec![
        CborValue::Array(vec![text("a"), CborValue::Integer(1)]),
        CborValue::Array(vec![CborValue::Integer(7), CborValue::Bool(true)]),
    ]);
    assert_eq!(render(&fix_invalid_object_keys(&v)), render(&expected));
}

#[test]
fn maps_are_repaired_at_every_depth() {
    let inner = CborValue::Dict(vec![(CborValue::Tag(128, Box::new(CborValue::Bytes(vec![1, 2]))), text("x"))]);
    let v = CborValue::Tag(
        9,
        Box::new(CborValue::Array(vec![CborValue::Dict(vec![(text("k"), inner)]), CborValue::Float(0)])),
    );
    let expected = CborValue::Tag(
        9,
        Box::new(CborValue::Array(vec![
            CborValue::Dict(vec![(
                text("k"),
                CborValue::Array(vec![CborValue::Array(vec![
                    CborValue::Tag(128, Box::new(CborValue::Bytes(vec![1, 2]))),
                    text("x"),
                ])]),
            )]),
            CborValue::Float(0),
        ])),
    );
    assert_eq!(render(&fix_invalid_object_keys(&v)), render(&expected));
}

#[test]
fn references_are_found_in_order_and_only_for_address_tags() {
    let component = CborValue::Tag(128, Box::new(CborValue::Bytes(vec![1])));
    let resource = CborValue::Tag(131, Box::new(CborValue::Bytes(vec![2])));
    let vault = CborValue::Tag(132, Box::new(CborValue::Bytes(vec![3])));
    let nft = CborValue::Tag(130, Box::new(CborValue::Array(vec![])));
    let metadata = CborValue::Tag(129, Box::new(CborValue::Tag(128, Box::new(CborValue::Null))));
    let v = CborValue::Array(vec![
        component,
        CborValue::Dict(vec![(resource, vault), (text("m"), metadata)]),
        nft,
        CborValue::Integer(128),
    ]);
    let refs = find_related_substates_in_cbor_value(&v);
    let kinds: Vec<ReferenceKind> = refs.iter().map(|(k, _)| *k).collect();
    assert_eq!(
        kinds,
        vec![ReferenceKind::Component, ReferenceKind::Resource, ReferenceKind::Vault, ReferenceKind::NonFungible]
    );
    assert_eq!(render(refs[1].1), render(&CborValue::Tag(131, Box::new(CborValue::Bytes(vec![2])))));
}

#[test]
fn a_tagged_address_is_not_searched_inside() {
    let v = CborValue::Tag(128, Box::new(CborValue::Tag(131, Box::new(CborValue::Null))));
    let refs = find_related_substates_in_cbor_value(&v);
    assert_eq!(refs.len(), 1);
    assert_eq!(refs[0].0, ReferenceKind::Component);
    assert!(find_related_substates_in_cbor_value(&text("plain")).is_empty());
}

#[test]
fn repairing_a_repaired_value_changes_nothing() {
    let v = CborValue::Array(vec![
        CborValue::Dict(vec![(CborValue::Integer(1), CborValue::Dict(vec![(CborValue::Null, text("n"))]))]),
        CborValue::Dict(vec![(text("ok"), CborValue::Dict(vec![(CborValue::Bool(false), text("b"))]))]),
    ]);
    let once = fix_invalid_object_keys(&v);
    let twice = fix_invalid_object_keys(&once);
    assert_eq!(render(&twice), render(&once));
    assert_ne!(render(&once), render(&v));
}
