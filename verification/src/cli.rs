//! The configuration overrides the indexer's command line sets.
//!
//! Every value given on the command line overrides the configuration file under a fixed key; the
//! network always does, and it also selects which network's section of the file the indexer and its
//! peer seeds read.

use vstd::prelude::*;
use vstd::string::StringExecFns;

use crate::text::{decimal_digits, decimal_text, join, joined, views};

verus! {

/// The command-line values that override configuration, each already rendered as text where it
/// is not plain text or a number: the network, the JSON-RPC address and the reachability mode.
pub struct CliOverrides {
    pub network: String,
    pub json_rpc_address: Option<String>,
    pub peer_seeds: Vec<String>,
    pub listener_port: Option<u16>,
    pub dan_layer_scanning_internal: Option<u64>,
    pub ui_connect_address: Option<String>,
    pub reachability: Option<String>,
    pub disable_mdns: bool,
}

pub type Override = (String, String);

pub open spec fn override_views(o: Seq<Override>) -> Seq<(Seq<char>, Seq<char>)> {
    o.map_values(|p: Override| (p.0@, p.1@))
}

pub open spec fn when<A>(present: bool, item: A) -> Seq<A> {
    if present {
        seq![item]
    } else {
        Seq::empty()
    }
}

/// `common` followed by the overrides of the command line's own values, in order.
pub open spec fn spec_cli_overrides(
    common: Seq<(Seq<char>, Seq<char>)>,
    c: CliOverrides,
) -> Seq<(Seq<char>, Seq<char>)> {
    common + seq![
        ("network"@, c.network@),
        ("indexer.override_from"@, c.network@),
        ("p2p.seeds.override_from"@, c.network@),
    ] + when(
        c.json_rpc_address.is_some(),
        ("indexer.json_rpc_address"@, c.json_rpc_address.unwrap()@),
    ) + when(
        c.peer_seeds@.len() > 0,
        ("p2p.seeds.peer_seeds"@, joined(views(c.peer_seeds@), ","@)),
    ) + when(
        c.listener_port.is_some(),
        (
            "validator_node.p2p.listener_port"@,
            decimal_digits(c.listener_port.unwrap() as u64),
        ),
    ) + when(
        c.dan_layer_scanning_internal.is_some(),
        (
            "indexer.dan_layer_scanning_interval"@,
            decimal_digits(c.dan_layer_scanning_internal.unwrap()),
        ),
    ) + when(
        c.ui_connect_address.is_some(),
        ("indexer.ui_connect_address"@, c.ui_connect_address.unwrap()@),
    ) + when(
        c.reachability.is_some(),
        ("indexer.p2p.reachability_mode"@, c.reachability.unwrap()@),
    ) + when(c.disable_mdns, ("indexer.p2p.enable_mdns"@, "false"@))
}

fn push_override(out: &mut Vec<Override>, key: &str, value: String)
    ensures
        override_views(final(out)@) == override_views(old(out)@).push((key@, value@)),
{
    let k = <String as StringExecFns>::from_str(key);
    out.push((k, value));
    assert(override_views(out@) =~= override_views(old(out)@).push((key@, value@)));
}

fn push_network(out: &mut Vec<Override>, network: &String)
    ensures
        override_views(final(out)@) == override_views(old(out)@) + seq![
            ("network"@, network@),
            ("indexer.override_from"@, network@),
            ("p2p.seeds.override_from"@, network@),
        ],
{
    push_override(out, "network", network.clone());
    push_override(out, "indexer.override_from", network.clone());
    push_override(out, "p2p.seeds.override_from", network.clone());
    assert(override_views(out@) =~= override_views(old(out)@) + seq![
        ("network"@, network@),
        ("indexer.override_from"@, network@),
        ("p2p.seeds.override_from"@, network@),
    ]);
}

fn push_optional(out: &mut Vec<Override>, key: &str, value: &Option<String>)
    ensures
        override_views(final(out)@) == override_views(old(out)@) + when(
            value.is_some(),
            (key@, value.unwrap()@),
        ),
{
    if let Some(v) = value {
        push_override(out, key, v.clone());
    }
    assert(override_views(out@) =~= override_views(old(out)@) + when(
        value.is_some(),
        (key@, value.unwrap()@),
    ));
}

fn push_optional_number(out: &mut Vec<Override>, key: &str, value: Option<u64>)
    ensures
        override_views(final(out)@) == override_views(old(out)@) + when(
            value.is_some(),
            (key@, decimal_digits(value.unwrap())),
        ),
{
    if let Some(v) = value {
        push_override(out, key, decimal_text(v));
    }
    assert(override_views(out@) =~= override_views(old(out)@) + when(
        value.is_some(),
        (key@, decimal_digits(value.unwrap())),
    ));
}

/// The overrides up to and including the peer seeds.
pub open spec fn spec_seeds_prefix(
    common: Seq<(Seq<char>, Seq<char>)>,
    c: CliOverrides,
) -> Seq<(Seq<char>, Seq<char>)> {
    common + seq![
        ("network"@, c.network@),
        ("indexer.override_from"@, c.network@),
        ("p2p.seeds.override_from"@, c.network@),
    ] + when(
        c.json_rpc_address.is_some(),
        ("indexer.json_rpc_address"@, c.json_rpc_address.unwrap()@),
    ) + when(
        c.peer_seeds@.len() > 0,
        ("p2p.seeds.peer_seeds"@, joined(views(c.peer_seeds@), ","@)),
    )
}

/// The configuration overrides: the `common` ones first, then those of the command line's own
/// values, in a fixed order.
pub fn config_property_overrides(common: Vec<Override>, c: &CliOverrides) -> (overrides: Vec<
    Override,
>)
    ensures
        override_views(overrides@) == spec_cli_overrides(override_views(common@), *c),
{
    let mut out = common;
    let ghost start = override_views(out@);
    push_network(&mut out, &c.network);
    push_optional(&mut out, "indexer.json_rpc_address", &c.json_rpc_address);
    if c.peer_seeds.len() > 0 {
        let seeds = join(&c.peer_seeds, ",");
        push_override(&mut out, "p2p.seeds.peer_seeds", seeds);
    }
    let ghost after_seeds = override_views(out@);
    push_optional_number(
        &mut out,
        "validator_node.p2p.listener_port",
        match c.listener_port {
            Some(p) => Some(p as u64),
            None => None,
        },
    );
    push_optional_number(&mut out, "indexer.dan_layer_scanning_interval", c.dan_layer_scanning_internal);
    push_optional(&mut out, "indexer.ui_connect_address", &c.ui_connect_address);
    push_optional(&mut out, "indexer.p2p.reachability_mode", &c.reachability);
    if c.disable_mdns {
        push_override(&mut out, "indexer.p2p.enable_mdns", <String as StringExecFns>::from_str("false"));
    }
    proof {
        let ghost_c = *c;
        assert(after_seeds == spec_seeds_prefix(start, ghost_c));
    }
    out
}

} // verus!
