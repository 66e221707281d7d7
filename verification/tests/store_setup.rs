use tari_indexer::store_setup::{NetworkCheck, network_check};

#[test]
fn a_store_stays_on_the_network_it_was_created_for() {
    assert_eq!(network_check(None, "igor".to_string()), NetworkCheck::Record);
    assert_eq!(network_check(Some("igor".to_string()), "igor".to_string()), NetworkCheck::Matches);
    assert_eq!(
        network_check(Some("igor".to_string()), "esmeralda".to_string()),
        NetworkCheck::Mismatch { stored: "igor".to_string(), configured: "esmeralda".to_string() }
    );
}
