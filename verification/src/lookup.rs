//! What a failed substate lookup tells the caller.
//!
//! A substate that is not there, and a version that has since been spent, are answers about the
//! thing that was asked for rather than failures of the indexer; a shard group that no committee
//! serves is a state the network leaves on its own. A caller has to be able to tell those from the
//! indexer being unable to answer at all, which is the only case left as a server error.

use vstd::prelude::*;
use vstd::string::StringExecFns;

use crate::text::{decimal_digits, decimal_text};

verus! {

/// A failure of the indexer's storage.
#[derive(Debug, Clone)]
pub enum StorageError {
    /// The item looked up is not stored.
    NotFound { item: String, key: String },
    /// A query failed.
    QueryError { reason: String },
    /// Any other failure.
    General { details: String },
}

impl StorageError {
    /// Whether the failure says the item is absent rather than that storage failed.
    pub fn is_not_found_error(&self) -> (r: bool)
        ensures
            r == (*self is NotFound),
    {
        match self {
            StorageError::NotFound { .. } => true,
            _ => false,
        }
    }
}

/// A failure of the indexer's network lookups.
#[derive(Debug, Clone)]
pub enum IndexerError {
    /// No committee answers for the part of the shard space asked about at this epoch.
    NoCommitteeMembers { details: String },
    /// Any other failure.
    Other { details: String },
}

/// Why a substate could not be fetched.
#[derive(Debug, Clone)]
pub enum SubstateManagerError {
    IndexerError(IndexerError),
    StorageError(StorageError),
    /// The version asked for has been spent.
    InputSubstateIsDown { substate_id: String, version: u64 },
    InputSubstateDoesNotExist { substate_id: String },
}

impl SubstateManagerError {
    /// Whether the failure says the substate, or the stored item, is absent.
    pub fn is_not_found_error(&self) -> (r: bool)
        ensures
            r == (*self is InputSubstateDoesNotExist || (*self matches SubstateManagerError::StorageError(e)
                && e is NotFound)),
    {
        match self {
            SubstateManagerError::InputSubstateDoesNotExist { .. } => true,
            SubstateManagerError::StorageError(e) => e.is_not_found_error(),
            _ => false,
        }
    }
}

/// The HTTP status a response carries.
#[derive(Debug, Clone, Copy, PartialEq, Eq, Structural)]
pub enum ResponseStatus {
    BadRequest,
    NotFound,
    InternalServerError,
    ServiceUnavailable,
}

impl ResponseStatus {
    pub fn code(self) -> (code: u16)
        ensures
            code == match self {
                ResponseStatus::BadRequest => 400u16,
                ResponseStatus::NotFound => 404u16,
                ResponseStatus::InternalServerError => 500u16,
                ResponseStatus::ServiceUnavailable => 503u16,
            },
    {
        match self {
            ResponseStatus::BadRequest => 400,
            ResponseStatus::NotFound => 404,
            ResponseStatus::InternalServerError => 500,
            ResponseStatus::ServiceUnavailable => 503,
        }
    }
}

/// An error answer: its status and the message for the caller.
#[derive(Debug, Clone)]
pub struct ErrorResponse {
    pub status: ResponseStatus,
    pub error: String,
}

/// The message of a storage failure.
pub open spec fn storage_message(e: StorageError) -> Seq<char> {
    match e {
        StorageError::NotFound { item, key } => "Not found: "@ + item@ + " "@ + key@,
        StorageError::QueryError { reason } => "Query error: "@ + reason@,
        StorageError::General { details } => details@,
    }
}

/// The message of a network lookup failure.
pub open spec fn indexer_message(e: IndexerError) -> Seq<char> {
    match e {
        IndexerError::NoCommitteeMembers { details } => "No committee members: "@ + details@,
        IndexerError::Other { details } => details@,
    }
}

/// The message of a failed substate fetch.
pub open spec fn manager_message(e: SubstateManagerError) -> Seq<char> {
    match e {
        SubstateManagerError::IndexerError(i) => "Indexer error: "@ + indexer_message(i),
        SubstateManagerError::StorageError(s) => "Storage error: "@ + storage_message(s),
        SubstateManagerError::InputSubstateIsDown { substate_id, version } => "Input substate "@
            + substate_id@ + " (v"@ + decimal_digits(version) + ") is down"@,
        SubstateManagerError::InputSubstateDoesNotExist { substate_id } => "Input substate "@
            + substate_id@ + " does not exist"@,
    }
}

fn storage_message_text(e: &StorageError) -> (text: String)
    ensures
        text@ == storage_message(*e),
{
    match e {
        StorageError::NotFound { item, key } => {
            let mut text = <String as StringExecFns>::from_str("Not found: ");
            text.append(item.as_str());
            text.append(" ");
            text.append(key.as_str());
            text
        },
        StorageError::QueryError { reason } => {
            let mut text = <String as StringExecFns>::from_str("Query error: ");
            text.append(reason.as_str());
            text
        },
        StorageError::General { details } => details.clone(),
    }
}

fn indexer_message_text(e: &IndexerError) -> (text: String)
    ensures
        text@ == indexer_message(*e),
{
    match e {
        IndexerError::NoCommitteeMembers { details } => {
            let mut text = <String as StringExecFns>::from_str("No committee members: ");
            text.append(details.as_str());
            text
        },
        IndexerError::Other { details } => details.clone(),
    }
}

impl SubstateManagerError {
    /// The message describing the failure.
    pub fn message(&self) -> (text: String)
        ensures
            text@ == manager_message(*self),
    {
        proof {
            reveal_strlit("Indexer error: ");
            reveal_strlit("Storage error: ");
        }
        match self {
            SubstateManagerError::IndexerError(i) => {
                let mut text = <String as StringExecFns>::from_str("Indexer error: ");
                let inner = indexer_message_text(i);
                text.append(inner.as_str());
                text
            },
            SubstateManagerError::StorageError(s) => {
                let mut text = <String as StringExecFns>::from_str("Storage error: ");
                let inner = storage_message_text(s);
                text.append(inner.as_str());
                text
            },
            SubstateManagerError::InputSubstateIsDown { substate_id, version } => {
                let mut text = <String as StringExecFns>::from_str("Input substate ");
                text.append(substate_id.as_str());
                text.append(" (v");
                let digits = decimal_text(*version);
                text.append(digits.as_str());
                text.append(") is down");
                text
            },
            SubstateManagerError::InputSubstateDoesNotExist { substate_id } => {
                let mut text = <String as StringExecFns>::from_str("Input substate ");
                text.append(substate_id.as_str());
                text.append(" does not exist");
                text
            },
        }
    }
}

/// The status a failed lookup is answered with: not found for a spent version or an absent
/// substate, unavailable where no committee serves the shard group, and a server error otherwise.
pub open spec fn lookup_status(e: SubstateManagerError) -> ResponseStatus {
    if e is InputSubstateIsDown || e is InputSubstateDoesNotExist || (e matches SubstateManagerError::StorageError(s)
        && s is NotFound) {
        ResponseStatus::NotFound
    } else if e matches SubstateManagerError::IndexerError(i) && i is NoCommitteeMembers {
        ResponseStatus::ServiceUnavailable
    } else {
        ResponseStatus::InternalServerError
    }
}

/// Maps a lookup failure to the answer the caller gets. A not-found or unavailable answer carries
/// the failure's message as it is, so that a spent version or an unserved shard group reaches the
/// caller by name; a server error says that fetching the substate failed and why.
pub fn substate_lookup_error(e: SubstateManagerError) -> (resp: ErrorResponse)
    ensures
        resp.status == lookup_status(e),
        resp.status == ResponseStatus::InternalServerError ==> resp.error@ == "Error getting substate: "@
            + manager_message(e),
        resp.status != ResponseStatus::InternalServerError ==> resp.error@ == manager_message(e),
{
    let down = match &e {
        SubstateManagerError::InputSubstateIsDown { .. } => true,
        _ => false,
    };
    if down || e.is_not_found_error() {
        return ErrorResponse { status: ResponseStatus::NotFound, error: e.message() };
    }
    let no_committee = match &e {
        SubstateManagerError::IndexerError(IndexerError::NoCommitteeMembers { .. }) => true,
        _ => false,
    };
    if no_committee {
        return ErrorResponse { status: ResponseStatus::ServiceUnavailable, error: e.message() };
    }
    let mut error = <String as StringExecFns>::from_str("Error getting substate: ");
    let message = e.message();
    error.append(message.as_str());
    ErrorResponse { status: ResponseStatus::InternalServerError, error }
}

/// The reason a JSON-RPC error gives: the protocol's internal error, or an application code.
#[derive(Debug, Clone, Copy, PartialEq, Eq, Structural)]
pub enum RpcErrorReason {
    InternalError,
    Application(i32),
}

/// A JSON-RPC error answer: its reason and message.
#[derive(Debug, Clone)]
pub struct RpcError {
    pub reason: RpcErrorReason,
    pub message: String,
}

/// What the indexer's own lookup of a substate gave.
#[derive(Debug, Clone)]
pub enum LocalLookup {
    Failed(SubstateManagerError),
    Held,
    NotHeld,
}

/// What the network said of a substate the indexer does not hold.
#[derive(Debug, Clone)]
pub enum NetworkLookup {
    /// Asking failed; `details` says why.
    Failed { details: String },
    DoesNotExist,
    Up,
    /// The substate is spent on the network, at `version`.
    Down { version: u32 },
}

/// The next step of a substate query once the indexer's own lookup is in.
#[derive(Debug, Clone)]
pub enum QueryStep {
    /// Answer with the substate the indexer holds.
    Answer,
    /// Ask the network.
    AskNetwork,
    Fail(RpcError),
}

/// `" (version:>=v) not found"` after the address, for the version asked about (zero when none).
pub open spec fn not_found_message(address: Seq<char>, version: Option<u32>) -> Seq<char> {
    "Substate "@ + address + " (version:>="@ + decimal_digits(version.unwrap_or(0u32) as u64)
        + ") not found"@
}

/// The message of an internal error: the failure itself where details are exposed, and nothing
/// that says what went wrong otherwise.
pub open spec fn internal_message(details: Seq<char>, expose_details: bool) -> Seq<char> {
    if expose_details {
        details
    } else {
        "Something went wrong"@
    }
}

fn internal_error(details: String, expose_details: bool) -> (e: RpcError)
    ensures
        e.reason == RpcErrorReason::InternalError,
        e.message@ == internal_message(details@, expose_details),
{
    if expose_details {
        RpcError { reason: RpcErrorReason::InternalError, message: details }
    } else {
        RpcError {
            reason: RpcErrorReason::InternalError,
            message: <String as StringExecFns>::from_str("Something went wrong"),
        }
    }
}

fn not_found_text(address: &String, version: Option<u32>) -> (text: String)
    ensures
        text@ == not_found_message(address@, version),
{
    let v: u32 = match version {
        Some(v) => v,
        None => 0,
    };
    let mut text = <String as StringExecFns>::from_str("Substate ");
    text.append(address.as_str());
    text.append(" (version:>=");
    let digits = decimal_text(v as u64);
    text.append(digits.as_str());
    text.append(") not found");
    text
}

/// What a substate query does once the indexer's own lookup of `address` at `version` is in: a
/// held substate is answered; one not held is not found when the query is for local state only,
/// and asked of the network otherwise; a failed lookup is an internal error about getting the
/// substate, with its details only where `expose_details`.
pub fn after_local_lookup(
    address: &String,
    version: Option<u32>,
    local: LocalLookup,
    local_search_only: bool,
    expose_details: bool,
) -> (step: QueryStep)
    ensures
        match local {
            LocalLookup::Held => step is Answer,
            LocalLookup::NotHeld => if local_search_only {
                step matches QueryStep::Fail(e) && e.reason == RpcErrorReason::Application(404)
                    && e.message@ == not_found_message(address@, version)
            } else {
                step is AskNetwork
            },
            LocalLookup::Failed(f) => step matches QueryStep::Fail(e) && e.reason
                == RpcErrorReason::InternalError && e.message@ == internal_message(
                "Error getting substate: "@ + manager_message(f),
                expose_details,
            ),
        },
{
    match local {
        LocalLookup::Held => QueryStep::Answer,
        LocalLookup::NotHeld => {
            if local_search_only {
                QueryStep::Fail(
                    RpcError {
                        reason: RpcErrorReason::Application(404),
                        message: not_found_text(address, version),
                    },
                )
            } else {
                QueryStep::AskNetwork
            }
        },
        LocalLookup::Failed(f) => {
            proof {
                reveal_strlit("Error getting substate: ");
            }
            let mut details = <String as StringExecFns>::from_str("Error getting substate: ");
            let message = f.message();
            details.append(message.as_str());
            QueryStep::Fail(internal_error(details, expose_details))
        },
    }
}

/// The answer to a substate query the network was asked about: the network's substate when it
/// holds it unspent, and otherwise an error that says what the network said.
pub open spec fn network_answer(
    address: Seq<char>,
    version: Option<u32>,
    network: NetworkLookup,
) -> Option<(RpcErrorReason, Seq<char>)> {
    match network {
        NetworkLookup::Up => None,
        NetworkLookup::Failed { details } => Some(
            (RpcErrorReason::Application(501), "Error asking network for substate:"@ + details@),
        ),
        NetworkLookup::DoesNotExist => Some(
            (
                RpcErrorReason::Application(404),
                not_found_message(address, version) + ", and not found on network"@,
            ),
        ),
        NetworkLookup::Down { version: down } => Some(
            (
                RpcErrorReason::Application(301),
                "Substate "@ + address + " (version:>="@ + decimal_digits(
                    (version.unwrap_or(0u32) + 1) as u64,
                ) + ") not found, but found in a down state on network at version "@
                    + decimal_digits(down as u64),
            ),
        ),
    }
}

/// Answers a substate query from what the network said: `Ok` to answer with the network's
/// substate, or the error. A spent substate's message names the version after the one asked
/// about, which needs the version asked about to be below `u32::MAX` there.
pub fn after_network_lookup(address: &String, version: Option<u32>, network: NetworkLookup) -> (r:
    Result<(), RpcError>)
    requires
        network is Down ==> version.unwrap_or(0u32) < u32::MAX,
    ensures
        match network_answer(address@, version, network) {
            None => r is Ok,
            Some((reason, message)) => r matches Err(e) && e.reason == reason && e.message@ == message,
        },
{
    match network {
        NetworkLookup::Up => Ok(()),
        NetworkLookup::Failed { details } => {
            let mut message = <String as StringExecFns>::from_str("Error asking network for substate:");
            message.append(details.as_str());
            Err(RpcError { reason: RpcErrorReason::Application(501), message })
        },
        NetworkLookup::DoesNotExist => {
            let mut message = not_found_text(address, version);
            message.append(", and not found on network");
            Err(RpcError { reason: RpcErrorReason::Application(404), message })
        },
        NetworkLookup::Down { version: down } => {
            let asked: u32 = match version {
                Some(v) => v,
                None => 0,
            };
            let mut message = <String as StringExecFns>::from_str("Substate ");
            message.append(address.as_str());
            message.append(" (version:>=");
            let next = decimal_text((asked + 1) as u64);
            message.append(next.as_str());
            message.append(") not found, but found in a down state on network at version ");
            let at = decimal_text(down as u64);
            message.append(at.as_str());
            Err(RpcError { reason: RpcErrorReason::Application(301), message })
        },
    }
}

/// What the committee, or the cache in front of it, said of a substate.
#[derive(Debug, Clone)]
pub enum LookupResult<T> {
    /// The substate is live; here it is.
    Up(T),
    /// The substate is spent, at `version`.
    Down { version: u64 },
    DoesNotExist,
}

/// The substate a lookup found for `substate_id`, or why it cannot be used: down at the version it
/// was spent, or not existing.
pub fn require_up<T>(substate_id: String, result: LookupResult<T>) -> (r: Result<T, SubstateManagerError>)
    ensures
        match result {
            LookupResult::Up(v) => r matches Ok(x) && x == v,
            LookupResult::Down { version } => r matches Err(SubstateManagerError::InputSubstateIsDown {
                substate_id: id,
                version: v,
            }) && id@ == substate_id@ && v == version,
            LookupResult::DoesNotExist => r matches Err(
                SubstateManagerError::InputSubstateDoesNotExist { substate_id: id },
            ) && id@ == substate_id@,
        },
{
    match result {
        LookupResult::Up(v) => Ok(v),
        LookupResult::Down { version } => Err(SubstateManagerError::InputSubstateIsDown { substate_id, version }),
        LookupResult::DoesNotExist => Err(SubstateManagerError::InputSubstateDoesNotExist { substate_id }),
    }
}

/// The live substates among `results`, in order.
pub open spec fn live_substates<T>(results: Seq<(String, LookupResult<T>)>) -> Seq<(Seq<char>, T)>
    decreases results.len(),
{
    if results.len() == 0 {
        Seq::empty()
    } else {
        let rest = live_substates(results.drop_last());
        match results.last().1 {
            LookupResult::Up(v) => rest.push((results.last().0@, v)),
            _ => rest,
        }
    }
}

/// `results[i]` is the first spent substate among `results`, and `e` says it is down at its version.
pub open spec fn first_down_is<T>(
    results: Seq<(String, LookupResult<T>)>,
    i: int,
    e: SubstateManagerError,
) -> bool {
    &&& 0 <= i < results.len()
    &&& results[i].1 matches LookupResult::Down { version }
    &&& e matches SubstateManagerError::InputSubstateIsDown { substate_id, version: v }
    &&& substate_id@ == results[i].0@
    &&& v == version
    &&& forall|j: int| 0 <= j < i ==> (#[trigger] results[j]).1 !is Down
}

/// Gathers the substates a batch of lookups found, in order: a live one is kept, a missing one is
/// skipped, and a spent one fails the whole batch with the first such substate.
pub fn gather_fetched<T>(results: Vec<(String, LookupResult<T>)>) -> (r: Result<
    Vec<(String, T)>,
    SubstateManagerError,
>)
    ensures
        match r {
            Ok(found) => {
                &&& forall|i: int| 0 <= i < results@.len() ==> (#[trigger] results@[i]).1 !is Down
                &&& found@.map_values(|p: (String, T)| (p.0@, p.1)) == live_substates(results@)
            },
            Err(e) => exists|i: int| first_down_is(results@, i, e),
        },
{
    let ghost all = results@;
    let mut found: Vec<(String, T)> = Vec::new();
    let mut rest = results;
    let ghost n = all.len();
    while rest.len() > 0
        invariant
            all == results@,
            n == all.len(),
            rest@.len() <= n,
            rest@ == all.skip(n - rest@.len()),
            forall|j: int| 0 <= j < n - rest@.len() ==> (#[trigger] all[j]).1 !is Down,
            found@.map_values(|p: (String, T)| (p.0@, p.1)) == live_substates(all.take(n - rest@.len())),
        decreases rest@.len(),
    {
        let ghost i = n - rest@.len();
        let ghost before = found@;
        assert(rest@[0] == all[i]);
        let (id, result) = rest.remove(0);
        assert(rest@ =~= all.skip(i + 1));
        assert(all.take(i + 1).drop_last() =~= all.take(i));
        match result {
            LookupResult::Up(v) => {
                found.push((id, v));
                assert(found@.map_values(|p: (String, T)| (p.0@, p.1)) =~= before.map_values(
                    |p: (String, T)| (p.0@, p.1),
                ).push((all[i].0@, all[i].1->Up_0)));
            },
            LookupResult::Down { version } => {
                let e = SubstateManagerError::InputSubstateIsDown { substate_id: id, version };
                assert(first_down_is(all, i, e));
                return Err(e);
            },
            LookupResult::DoesNotExist => {},
        }
    }
    assert(all.take(n as int) =~= all);
    Ok(found)
}

} // verus!
