//! Which components the indexer watches, as the events of their templates come in.
//!
//! A component is watched while its template is one of the watched templates: it starts being
//! watched when it is created from one, or moved onto one, and stops when it is moved off one onto
//! a template that is not watched.

use vstd::prelude::*;
use vstd::string::StringExecFns;

verus! {

/// What an event changes about the watched components.
#[derive(Debug, Clone, Copy, PartialEq, Eq, Structural)]
pub enum WatchedChange {
    /// Watch the event's component under the event's template.
    Watch,
    /// Stop watching the event's component.
    Unwatch,
    Unchanged,
}

/// The change an event makes: a component created from a watched template is watched; a component
/// whose template changed is watched under a watched new template, and dropped when it leaves a
/// watched template for one that is not; nothing else changes anything, and neither does an event
/// without a component.
pub open spec fn spec_watched_change(
    topic: Seq<char>,
    has_component: bool,
    template_watched: bool,
    prev_template_watched: bool,
) -> WatchedChange {
    if topic == "std.component.created"@ {
        if template_watched && has_component {
            WatchedChange::Watch
        } else {
            WatchedChange::Unchanged
        }
    } else if topic == "std.component.template_update"@ && has_component {
        if prev_template_watched && !template_watched {
            WatchedChange::Unwatch
        } else if template_watched {
            WatchedChange::Watch
        } else {
            WatchedChange::Unchanged
        }
    } else {
        WatchedChange::Unchanged
    }
}

/// The change an event with `topic` makes, given whether it names a component (`has_component`),
/// whether its template is watched, and whether the template it names as the component's previous
/// one is.
pub fn watched_change(
    topic: &String,
    has_component: bool,
    template_watched: bool,
    prev_template_watched: bool,
) -> (change: WatchedChange)
    ensures
        change == spec_watched_change(topic@, has_component, template_watched, prev_template_watched),
{
    let created = <String as StringExecFns>::from_str("std.component.created");
    let template_update = <String as StringExecFns>::from_str("std.component.template_update");
    if *topic == created {
        if template_watched && has_component {
            WatchedChange::Watch
        } else {
            WatchedChange::Unchanged
        }
    } else if *topic == template_update && has_component {
        if prev_template_watched && !template_watched {
            WatchedChange::Unwatch
        } else if template_watched {
            WatchedChange::Watch
        } else {
            WatchedChange::Unchanged
        }
    } else {
        WatchedChange::Unchanged
    }
}

/// A component is never dropped for moving onto a watched template, and never watched for an
/// event under a template that is not watched.
pub proof fn lemma_watching_follows_the_template(
    topic: Seq<char>,
    has_component: bool,
    template_watched: bool,
    prev_template_watched: bool,
)
    ensures
        spec_watched_change(topic, has_component, template_watched, prev_template_watched)
            == WatchedChange::Unwatch ==> !template_watched,
        spec_watched_change(topic, has_component, template_watched, prev_template_watched)
            == WatchedChange::Watch ==> template_watched && has_component,
{
}

} // verus!
