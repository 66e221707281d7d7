//! What the indexer does with its store's recorded network when it starts.
//!
//! A store belongs to one network for life: the first start records the configured network in it,
//! and every later start must be configured for the same one.

use vstd::prelude::*;

verus! {

/// What a start does about the network recorded in the store.
#[derive(Debug, Clone, PartialEq, Eq)]
pub enum NetworkCheck {
    /// The store records the configured network: carry on.
    Matches,
    /// A new store: record the configured network in it.
    Record,
    /// The store belongs to another network: refuse to start, naming both.
    Mismatch { stored: String, configured: String },
}

/// Decides what a start does, given the network the store records (if any) and the configured
/// one, each by its name.
pub fn network_check(stored: Option<String>, configured: String) -> (check: NetworkCheck)
    ensures
        match stored {
            None => check == NetworkCheck::Record,
            Some(s) => if s@ == configured@ {
                check == NetworkCheck::Matches
            } else {
                check matches NetworkCheck::Mismatch { stored: a, configured: b } && a@ == s@ && b@
                    == configured@
            },
        },
{
    match stored {
        None => NetworkCheck::Record,
        Some(s) => {
            if s == configured {
                NetworkCheck::Matches
            } else {
                NetworkCheck::Mismatch { stored: s, configured }
            }
        },
    }
}

} // verus!
