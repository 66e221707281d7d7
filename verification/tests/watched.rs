use tari_indexer::watched::{WatchedChange, watched_change};

fn t(s: &str) -> String {
    s.to_string()
}

#[test]
fn a_component_created_from_a_watched_template_is_watched() {
    assert_eq!(watched_change(&t("std.component.created"), true, true, false), WatchedChange::Watch);
    assert_eq!(watched_change(&t("std.component.created"), true, false, true), WatchedChange::Unchanged);
    assert_eq!(watched_change(&t("std.component.created"), false, true, false), WatchedChange::Unchanged);
}

#[test]
fn a_template_change_moves_a_component_in_or_out() {
    let topic = t("std.component.template_update");
    assert_eq!(watched_change(&topic, true, false, true), WatchedChange::Unwatch);
    assert_eq!(watched_change(&topic, true, true, true), WatchedChange::Watch);
    assert_eq!(watched_change(&topic, true, true, false), WatchedChange::Watch);
    assert_eq!(watched_change(&topic, true, false, false), WatchedChange::Unchanged);
    assert_eq!(watched_change(&topic, false, false, true), WatchedChange::Unchanged);
    assert_eq!(watched_change(&t("other"), true, true, true), WatchedChange::Unchanged);
}
