//! Asking each involved committee in turn until one of its members answers.
//!
//! A request that involves several shard groups goes to one member of each group's committee at a
//! time, in the order the members are given, until one answers; a member that fails is followed by
//! the next one. The round records the answer of each group, or the last failure where no member
//! answered, and fails as a whole only when no group answered at all. The calls themselves are made
//! by the caller: the round says whom to ask next and takes the outcome back.

use vstd::prelude::*;

use crate::types::ShardGroup;

verus! {

/// The shard groups a request involves, each once, in the order they are first named.
pub open spec fn first_occurrences(groups: Seq<ShardGroup>) -> Seq<ShardGroup>
    decreases groups.len(),
{
    if groups.len() == 0 {
        Seq::empty()
    } else {
        let prefix = first_occurrences(groups.drop_last());
        if prefix.contains(groups.last()) {
            prefix
        } else {
            prefix.push(groups.last())
        }
    }
}

/// The shard groups of `groups`, each once, in the order they are first named.
pub fn unique_shard_groups(groups: &Vec<ShardGroup>) -> (unique: Vec<ShardGroup>)
    ensures
        unique@ == first_occurrences(groups@),
{
    let mut unique: Vec<ShardGroup> = Vec::new();
    let mut i: usize = 0;
    while i < groups.len()
        invariant
            i <= groups@.len(),
            unique@ == first_occurrences(groups@.take(i as int)),
        decreases groups@.len() - i,
    {
        let g = groups[i];
        let mut j: usize = 0;
        let mut seen = false;
        while j < unique.len()
            invariant
                j <= unique@.len(),
                seen == unique@.take(j as int).contains(g),
            decreases unique@.len() - j,
        {
            proof {
                let before = unique@.take(j as int);
                let after = unique@.take(j + 1);
                assert(after =~= before.push(unique@[j as int]));
                if before.contains(g) {
                    let w = choose|w: int| 0 <= w < before.len() && before[w] == g;
                    assert(after[w] == g);
                }
                if after.contains(g) && unique@[j as int] != g {
                    let w = choose|w: int| 0 <= w < after.len() && after[w] == g;
                    assert(before[w] == g);
                }
                if unique@[j as int] == g {
                    assert(after[j as int] == g);
                }
            }
            if unique[j] == g {
                seen = true;
            }
            j = j + 1;
        }
        proof {
            assert(unique@.take(unique@.len() as int) =~= unique@);
            assert(groups@.take(i + 1).drop_last() =~= groups@.take(i as int));
            assert(groups@.take(i + 1).last() == g);
        }
        if !seen {
            unique.push(g);
        }
        i = i + 1;
    }
    assert(groups@.take(groups@.len() as int) =~= groups@);
    unique
}

/// Whom to ask next.
#[derive(Debug, Clone, Copy, PartialEq, Eq, Structural)]
pub enum CommitteeStep {
    /// Call member `member` of the committee of the `group`-th shard group.
    Ask { group: usize, member: usize },
    /// Every shard group has been served or has run out of members.
    Finished,
}

/// How a round ended.
pub enum CommitteeOutcome<T, E> {
    /// The request involved no shard group.
    NoCommitteeMembers,
    /// No shard group answered: the number of shard groups involved and the last failure seen.
    AllValidatorsFailed { committee_size: usize, last_error: Option<E> },
    /// Per shard group, in order, its answer or the last failure of its committee.
    Results(Vec<Result<T, E>>),
}

/// How a round ended, with the per-group results as a sequence.
pub enum CommitteeOutcomeView<T, E> {
    NoCommitteeMembers,
    AllValidatorsFailed { committee_size: usize, last_error: Option<E> },
    Results(Seq<Result<T, E>>),
}

impl<T, E> View for CommitteeOutcome<T, E> {
    type V = CommitteeOutcomeView<T, E>;

    open spec fn view(&self) -> CommitteeOutcomeView<T, E> {
        match self {
            CommitteeOutcome::NoCommitteeMembers => CommitteeOutcomeView::NoCommitteeMembers,
            CommitteeOutcome::AllValidatorsFailed { committee_size, last_error } =>
                CommitteeOutcomeView::AllValidatorsFailed {
                    committee_size: *committee_size,
                    last_error: *last_error,
                },
            CommitteeOutcome::Results(results) => CommitteeOutcomeView::Results(results@),
        }
    }
}

/// The abstract state of a round.
pub struct CommitteeRoundView<T, E> {
    pub committee_sizes: Seq<usize>,
    pub group: int,
    pub member: int,
    pub results: Seq<Result<T, E>>,
    pub num_succeeded: int,
    pub last_error_group: Option<int>,
}

/// The number of answers among `results`.
pub open spec fn count_ok<T, E>(results: Seq<Result<T, E>>) -> int
    decreases results.len(),
{
    if results.len() == 0 {
        0
    } else {
        count_ok(results.drop_last()) + if results.last() is Ok {
            1int
        } else {
            0int
        }
    }
}

/// A consistent round: it has asked the committees of the groups before `group` and the first
/// `member` members of this one; there is a result per group served so far, and one for the current
/// group once a member of it has failed; and every committee has someone to ask.
pub open spec fn round_wf<T, E>(v: CommitteeRoundView<T, E>) -> bool {
    let n = v.committee_sizes.len();
    &&& forall|g: int| 0 <= g < n ==> #[trigger] v.committee_sizes[g] > 0
    &&& 0 <= v.group <= n
    &&& v.group == n ==> v.member == 0
    &&& v.group < n ==> 0 <= v.member < v.committee_sizes[v.group]
    &&& v.results.len() == v.group + (if v.member > 0 {
        1int
    } else {
        0int
    })
    &&& v.member > 0 ==> v.results.last() is Err
    &&& v.num_succeeded == count_ok(v.results)
    &&& (v.last_error_group matches Some(g) ==> 0 <= g < v.results.len())
    &&& (v.last_error_group is None ==> forall|g: int|
        0 <= g < v.results.len() ==> #[trigger] v.results[g] is Ok)
}

pub open spec fn spec_next_step<T, E>(v: CommitteeRoundView<T, E>) -> CommitteeStep {
    if v.group < v.committee_sizes.len() {
        CommitteeStep::Ask { group: v.group as usize, member: v.member as usize }
    } else {
        CommitteeStep::Finished
    }
}

/// The result list with the current group's entry set to `outcome`.
pub open spec fn set_current<T, E>(v: CommitteeRoundView<T, E>, outcome: Result<T, E>) -> Seq<
    Result<T, E>,
> {
    if v.member > 0 {
        v.results.update(v.results.len() - 1, outcome)
    } else {
        v.results.push(outcome)
    }
}

/// The round after the member it last asked answered with `outcome`: an answer serves the group and
/// moves on to the next; a failure moves on to the next member, or the next group once the
/// committee is exhausted.
pub open spec fn spec_record<T, E>(v: CommitteeRoundView<T, E>, outcome: Result<T, E>) -> CommitteeRoundView<T, E> {
    match outcome {
        Ok(_) => CommitteeRoundView {
            results: set_current(v, outcome),
            num_succeeded: v.num_succeeded + 1,
            group: v.group + 1,
            member: 0,
            ..v
        },
        Err(_) => {
            let next_member = v.member + 1;
            let exhausted = next_member == v.committee_sizes[v.group];
            CommitteeRoundView {
                results: set_current(v, outcome),
                last_error_group: Some(v.group),
                group: if exhausted {
                    v.group + 1
                } else {
                    v.group
                },
                member: if exhausted {
                    0
                } else {
                    next_member
                },
                ..v
            }
        },
    }
}

/// The failure a reply carries, if it is one.
pub open spec fn failure_of<T, E>(reply: Result<T, E>) -> Option<E> {
    match reply {
        Err(e) => Some(e),
        Ok(_) => None,
    }
}

/// The round over committees of `committee_sizes` members before any member is asked.
pub open spec fn opening_round<T, E>(committee_sizes: Seq<usize>) -> CommitteeRoundView<T, E> {
    CommitteeRoundView {
        committee_sizes,
        group: 0,
        member: 0,
        results: Seq::empty(),
        num_succeeded: 0,
        last_error_group: None,
    }
}

/// How a finished round ends: with no shard group involved, with every committee failing (and the
/// last failure seen), or with the result of each shard group.
pub open spec fn spec_finish<T, E>(v: CommitteeRoundView<T, E>) -> CommitteeOutcomeView<T, E> {
    if v.committee_sizes.len() == 0 {
        CommitteeOutcomeView::NoCommitteeMembers
    } else if v.num_succeeded == 0 {
        CommitteeOutcomeView::AllValidatorsFailed {
            committee_size: v.committee_sizes.len() as usize,
            last_error: match v.last_error_group {
                Some(g) => failure_of(v.results[g]),
                None => None,
            },
        }
    } else {
        CommitteeOutcomeView::Results(v.results)
    }
}

/// Why no round is held for a request.
#[derive(Debug, Clone, Copy, PartialEq, Eq, Structural)]
pub enum CommitteeRefusal {
    /// The request involves no shard group.
    NoCommitteeMembers,
    /// The `group`-th shard group involved has no validator assigned.
    NoCommitteeForShardGroup { group: usize },
}

/// Drives one request through the committees of the shard groups it involves.
pub struct CommitteeRound<T, E> {
    committee_sizes: Vec<usize>,
    group: usize,
    member: usize,
    results: Vec<Result<T, E>>,
    num_succeeded: usize,
    last_error_group: Option<usize>,
}

impl<T, E> View for CommitteeRound<T, E> {
    type V = CommitteeRoundView<T, E>;

    closed spec fn view(&self) -> CommitteeRoundView<T, E> {
        CommitteeRoundView {
            committee_sizes: self.committee_sizes@,
            group: self.group as int,
            member: self.member as int,
            results: self.results@,
            num_succeeded: self.num_succeeded as int,
            last_error_group: match self.last_error_group {
                Some(g) => Some(g as int),
                None => None,
            },
        }
    }
}

proof fn lemma_count_ok_push<T, E>(results: Seq<Result<T, E>>, r: Result<T, E>)
    ensures
        count_ok(results.push(r)) == count_ok(results) + if r is Ok {
            1int
        } else {
            0int
        },
{
    assert(results.push(r).drop_last() =~= results);
}

proof fn lemma_count_ok_bounds<T, E>(results: Seq<Result<T, E>>)
    ensures
        0 <= count_ok(results) <= results.len(),
        count_ok(results) == 0 ==> forall|g: int| 0 <= g < results.len() ==> #[trigger] results[g] is Err,
    decreases results.len(),
{
    if results.len() > 0 {
        lemma_count_ok_bounds(results.drop_last());
        assert forall|g: int| 0 <= g < results.len() && count_ok(results) == 0 implies #[trigger] results[g] is Err by {
            if g < results.len() - 1 {
                assert(results.drop_last()[g] == results[g]);
            }
        }
    }
}

impl<T, E> CommitteeRound<T, E> {
    /// A round over shard groups whose committees have `committee_sizes` members each, in order.
    /// Every committee must have a member: a group without one is refused before any call.
    pub fn new(committee_sizes: Vec<usize>) -> (round: Self)
        requires
            forall|g: int| 0 <= g < committee_sizes@.len() ==> #[trigger] committee_sizes@[g] > 0,
        ensures
            round@ == opening_round::<T, E>(committee_sizes@),
            round_wf(round@),
    {
        CommitteeRound {
            committee_sizes,
            group: 0,
            member: 0,
            results: Vec::new(),
            num_succeeded: 0,
            last_error_group: None,
        }
    }

    /// A round over shard groups whose committees have `committee_sizes` members each, in order, or
    /// why none is held: the first group, by position, whose committee has no member (nothing
    /// answers for that part of the shard space, which is the network's state rather than a
    /// failure), else no group at all. No member is asked in either case.
    pub fn open(committee_sizes: Vec<usize>) -> (r: Result<Self, CommitteeRefusal>)
        ensures
            match r {
                Ok(round) => {
                    &&& committee_sizes@.len() > 0
                    &&& forall|g: int| 0 <= g < committee_sizes@.len() ==> #[trigger] committee_sizes@[g] > 0
                    &&& round@ == opening_round::<T, E>(committee_sizes@)
                    &&& round_wf(round@)
                },
                Err(CommitteeRefusal::NoCommitteeForShardGroup { group }) => {
                    &&& group < committee_sizes@.len()
                    &&& committee_sizes@[group as int] == 0
                    &&& forall|g: int| 0 <= g < group ==> #[trigger] committee_sizes@[g] > 0
                },
                Err(CommitteeRefusal::NoCommitteeMembers) => committee_sizes@.len() == 0,
            },
    {
        let mut g: usize = 0;
        while g < committee_sizes.len()
            invariant
                g <= committee_sizes@.len(),
                forall|j: int| 0 <= j < g ==> #[trigger] committee_sizes@[j] > 0,
            decreases committee_sizes@.len() - g,
        {
            if committee_sizes[g] == 0 {
                return Err(CommitteeRefusal::NoCommitteeForShardGroup { group: g });
            }
            g = g + 1;
        }
        if committee_sizes.len() == 0 {
            return Err(CommitteeRefusal::NoCommitteeMembers);
        }
        Ok(Self::new(committee_sizes))
    }

    /// Whom to ask next, or that the round is over.
    pub fn next_step(&self) -> (step: CommitteeStep)
        ensures
            step == spec_next_step(self@),
    {
        if self.group < self.committee_sizes.len() {
            CommitteeStep::Ask { group: self.group, member: self.member }
        } else {
            CommitteeStep::Finished
        }
    }

    /// Takes back the outcome of asking the member [`CommitteeRound::next_step`] named.
    pub fn record(&mut self, outcome: Result<T, E>)
        requires
            round_wf(old(self)@),
            old(self)@.group < old(self)@.committee_sizes.len(),
        ensures
            final(self)@ == spec_record(old(self)@, outcome),
            round_wf(final(self)@),
    {
        let ghost before = self@;
        proof {
            lemma_count_ok_bounds(before.results);
            if before.member > 0 {
                assert(before.results =~= before.results.drop_last().push(before.results.last()));
                lemma_count_ok_push(before.results.drop_last(), before.results.last());
                lemma_count_ok_bounds(before.results.drop_last());
            }
            assert(before.num_succeeded <= before.group);
        }
        let succeeded = outcome.is_ok();
        if self.member > 0 {
            let last = self.results.len() - 1;
            self.results.set(last, outcome);
        } else {
            self.results.push(outcome);
        }
        proof {
            assert(self.results@ == set_current(before, self.results@.last()));
            if before.member > 0 {
                assert(before.results.update(before.results.len() - 1, self.results@.last())
                    =~= before.results.drop_last().push(self.results@.last()));
                assert(before.results =~= before.results.drop_last().push(before.results.last()));
                lemma_count_ok_push(before.results.drop_last(), before.results.last());
                lemma_count_ok_push(before.results.drop_last(), self.results@.last());
            } else {
                lemma_count_ok_push(before.results, self.results@.last());
            }
            lemma_count_ok_bounds(self.results@);
        }
        assert(self.group < self.committee_sizes.len());
        if succeeded {
            self.num_succeeded = self.num_succeeded + 1;
            self.group = self.group + 1;
            self.member = 0;
        } else {
            self.last_error_group = Some(self.group);
            let next_member = self.member + 1;
            if next_member == self.committee_sizes[self.group] {
                self.group = self.group + 1;
                self.member = 0;
            } else {
                self.member = next_member;
            }
        }
        proof {
            assert forall|g: int| 0 <= g < self.results@.len() && self@.last_error_group.is_none()
                implies #[trigger] self.results@[g] is Ok by {
                if g < before.results.len() {
                    if !(before.member > 0 && g == before.results.len() - 1) {
                        assert(self.results@[g] == before.results[g]);
                    }
                }
            }
        }
    }

    /// How the round ended: every shard group served, none involved, or all failing with the last
    /// failure seen.
    pub fn finish(self) -> (outcome: CommitteeOutcome<T, E>)
        requires
            round_wf(self@),
            self@.group == self@.committee_sizes.len(),
        ensures
            outcome@ == spec_finish(self@),
            outcome matches CommitteeOutcome::AllValidatorsFailed { last_error, .. }
                ==> last_error.is_some(),
    {
        proof {
            lemma_finished_round_accounts_for_every_group(self@);
        }
        let n = self.committee_sizes.len();
        if n == 0 {
            return CommitteeOutcome::NoCommitteeMembers;
        }
        if self.num_succeeded == 0 {
            let mut results = self.results;
            let last_error = match self.last_error_group {
                Some(g) => match results.remove(g) {
                    Err(e) => Some(e),
                    Ok(_) => None,
                },
                None => None,
            };
            return CommitteeOutcome::AllValidatorsFailed { committee_size: n, last_error };
        }
        CommitteeOutcome::Results(self.results)
    }
}

/// A round that did not fail as a whole answered for every shard group involved, at least one of
/// them with an answer; one that failed as a whole had no answer from any.
pub proof fn lemma_finished_round_accounts_for_every_group<T, E>(v: CommitteeRoundView<T, E>)
    requires
        round_wf(v),
        v.group == v.committee_sizes.len(),
    ensures
        v.results.len() == v.committee_sizes.len(),
        v.num_succeeded > 0 ==> exists|g: int| 0 <= g < v.results.len() && #[trigger] v.results[g] is Ok,
        v.num_succeeded == 0 ==> forall|g: int| 0 <= g < v.results.len() ==> #[trigger] v.results[g] is Err,
    decreases v.results.len(),
{
    lemma_count_ok_bounds(v.results);
    if v.num_succeeded > 0 {
        lemma_some_ok(v.results);
    }
}

proof fn lemma_some_ok<T, E>(results: Seq<Result<T, E>>)
    requires
        count_ok(results) > 0,
    ensures
        exists|g: int| 0 <= g < results.len() && #[trigger] results[g] is Ok,
    decreases results.len(),
{
    if results.last() is Ok {
        assert(results[results.len() - 1] is Ok);
    } else {
        lemma_some_ok(results.drop_last());
        let g = choose|g: int| 0 <= g < results.drop_last().len() && #[trigger] results.drop_last()[g] is Ok;
        assert(results[g] == results.drop_last()[g]);
    }
}

/// A member is never asked after its group was answered: once a member answers, the round moves
/// to the next group, and a failure never changes an answer already recorded.
pub proof fn lemma_an_answer_closes_its_group<T, E>(v: CommitteeRoundView<T, E>, outcome: Result<T, E>)
    requires
        round_wf(v),
        v.group < v.committee_sizes.len(),
    ensures
        outcome is Ok ==> spec_record(v, outcome).group == v.group + 1 && spec_record(v, outcome).member == 0,
        forall|g: int| 0 <= g < v.group ==> #[trigger] spec_record(v, outcome).results[g] == v.results[g],
{
}

/// What a failed call to a validator reported, as far as callers read it.
#[derive(Debug, Clone)]
pub enum CallFailure {
    /// The validator answered with an RPC status: `bad_request` where it refused the request as
    /// invalid, with the status details.
    Status { bad_request: bool, details: String },
    /// The call failed without a status.
    Other,
}

/// The rejection details of a round in which every involved validator failed and the last failure
/// was a bad request, i.e. the request was refused as invalid rather than failing for transient
/// reasons; `None` otherwise.
pub fn validation_rejection_details<T>(outcome: &CommitteeOutcome<T, CallFailure>) -> (details:
    Option<String>)
    ensures
        match outcome {
            CommitteeOutcome::AllValidatorsFailed {
                last_error: Some(CallFailure::Status { bad_request: true, details: d }),
                ..
            } => details matches Some(x) && x@ == d@,
            _ => details is None,
        },
{
    match outcome {
        CommitteeOutcome::AllValidatorsFailed { last_error: Some(CallFailure::Status { bad_request, details }), .. } => {
            if *bad_request {
                Some(details.clone())
            } else {
                None
            }
        },
        _ => None,
    }
}

/// What a committee answers a request whose members reply `replies`, in the order they are asked:
/// the first answer, or the last failure when no member answers.
pub open spec fn committee_answer<T, E>(replies: Seq<Result<T, E>>) -> Result<T, E>
    decreases replies.len(),
{
    if replies.len() <= 1 || replies[0] is Ok {
        replies[0]
    } else {
        committee_answer(replies.drop_first())
    }
}

/// The round `v` driven to its end, each member asked replying as `replies` says: member `m` of the
/// `g`-th committee replies `replies[g][m]`.
pub open spec fn run_round<T, E>(
    v: CommitteeRoundView<T, E>,
    replies: Seq<Seq<Result<T, E>>>,
) -> CommitteeRoundView<T, E>
    decreases v.committee_sizes.len() - v.group, v.committee_sizes[v.group] - v.member
        when round_wf(v)
{
    if v.group >= v.committee_sizes.len() {
        v
    } else {
        let next = spec_record(v, replies[v.group][v.member]);
        proof {
            lemma_record_keeps_round_wf(v, replies[v.group][v.member]);
        }
        run_round(next, replies)
    }
}

/// Recording a reply keeps a round consistent.
pub proof fn lemma_record_keeps_round_wf<T, E>(v: CommitteeRoundView<T, E>, outcome: Result<T, E>)
    requires
        round_wf(v),
        v.group < v.committee_sizes.len(),
    ensures
        round_wf(spec_record(v, outcome)),
{
    let next = spec_record(v, outcome);
    lemma_count_ok_bounds(v.results);
    if v.member > 0 {
        let prev = v.results.drop_last();
        assert(v.results =~= prev.push(v.results.last()));
        lemma_count_ok_push(prev, v.results.last());
        assert(set_current(v, outcome) =~= prev.push(outcome));
        lemma_count_ok_push(prev, outcome);
    } else {
        lemma_count_ok_push(v.results, outcome);
    }
    assert forall|g: int| 0 <= g < next.results.len() && next.last_error_group is None implies
        #[trigger] next.results[g] is Ok by {
        if g < v.results.len() && !(v.member > 0 && g == v.results.len() - 1) {
            assert(next.results[g] == v.results[g]);
        }
    }
}

proof fn lemma_committee_answer_skips_failures<T, E>(replies: Seq<Result<T, E>>, m: int)
    requires
        0 <= m < replies.len(),
        forall|j: int| 0 <= j < m ==> #[trigger] replies[j] is Err,
    ensures
        committee_answer(replies) == committee_answer(replies.skip(m)),
    decreases m,
{
    if m > 0 {
        let rest = replies.drop_first();
        assert forall|j: int| 0 <= j < m - 1 implies #[trigger] rest[j] is Err by {
            assert(rest[j] == replies[j + 1]);
        }
        lemma_committee_answer_skips_failures(rest, m - 1);
        assert(rest.skip(m - 1) =~= replies.skip(m));
    } else {
        assert(replies.skip(0) =~= replies);
    }
}

/// A round driven to its end answers for every shard group involved, in order, and for each group
/// records what its committee answers: the first answer among its members' replies, or the last
/// failure when none answers.
pub proof fn lemma_a_round_records_each_committee_answer<T, E>(
    v: CommitteeRoundView<T, E>,
    replies: Seq<Seq<Result<T, E>>>,
)
    requires
        round_wf(v),
        replies.len() == v.committee_sizes.len(),
        forall|g: int| 0 <= g < replies.len() ==> (#[trigger] replies[g]).len() == v.committee_sizes[g],
        forall|g: int| 0 <= g < v.group ==> #[trigger] v.results[g] == committee_answer(replies[g]),
        v.group < v.committee_sizes.len() ==> forall|j: int| 0 <= j < v.member ==> #[trigger] replies[v.group][j] is Err,
    ensures
        run_round(v, replies).committee_sizes == v.committee_sizes,
        run_round(v, replies).group == v.committee_sizes.len(),
        run_round(v, replies).results.len() == v.committee_sizes.len(),
        forall|g: int|
            0 <= g < v.committee_sizes.len() ==> #[trigger] run_round(v, replies).results[g]
                == committee_answer(replies[g]),
        round_wf(run_round(v, replies)),
    decreases v.committee_sizes.len() - v.group, v.committee_sizes[v.group] - v.member,
{
    if v.group < v.committee_sizes.len() {
        let g0 = v.group;
        let m = v.member;
        let r = replies[g0];
        let outcome = r[m];
        let next = spec_record(v, outcome);
        lemma_record_keeps_round_wf(v, outcome);
        lemma_committee_answer_skips_failures(r, m);
        let rest = r.skip(m);
        assert(rest[0] == outcome);
        assert(next.results.len() == g0 + 1 || next.group == g0);
        if outcome is Ok || m + 1 == v.committee_sizes[g0] {
            assert(committee_answer(rest) == outcome);
            assert(next.group == g0 + 1);
            assert(next.results[g0] == outcome);
        } else {
            assert(next.group == g0);
            assert(next.member == m + 1);
            assert forall|j: int| 0 <= j < next.member implies #[trigger] replies[next.group][j] is Err by {
                if j < m {
                } else {
                    assert(j == m);
                }
            }
        }
        assert forall|g: int| 0 <= g < next.group implies #[trigger] next.results[g] == committee_answer(
            replies[g],
        ) by {
            if g < g0 {
                assert(next.results[g] == v.results[g]);
            }
        }
        lemma_a_round_records_each_committee_answer(next, replies);
    }
}

/// A committee all of whose members fail answers with the last failure.
proof fn lemma_a_failing_committee_answers_its_last_failure<T, E>(replies: Seq<Result<T, E>>)
    requires
        replies.len() > 0,
        forall|m: int| 0 <= m < replies.len() ==> #[trigger] replies[m] is Err,
    ensures
        committee_answer(replies) == replies.last(),
    decreases replies.len(),
{
    if replies.len() > 1 {
        let rest = replies.drop_first();
        assert forall|m: int| 0 <= m < rest.len() implies #[trigger] rest[m] is Err by {
            assert(rest[m] == replies[m + 1]);
        }
        lemma_a_failing_committee_answers_its_last_failure(rest);
        assert(rest.last() == replies.last());
    }
}

proof fn lemma_no_answer_counts_none<T, E>(results: Seq<Result<T, E>>)
    requires
        forall|g: int| 0 <= g < results.len() ==> #[trigger] results[g] is Err,
    ensures
        count_ok(results) == 0,
    decreases results.len(),
{
    if results.len() > 0 {
        let prefix = results.drop_last();
        assert forall|g: int| 0 <= g < prefix.len() implies #[trigger] prefix[g] is Err by {
            assert(prefix[g] == results[g]);
        }
        lemma_no_answer_counts_none(prefix);
        assert(results[results.len() - 1] is Err);
    }
}

/// When every call fails, the last failure a round keeps is that of its last committee.
proof fn lemma_failing_calls_end_in_the_last_group<T, E>(
    v: CommitteeRoundView<T, E>,
    replies: Seq<Seq<Result<T, E>>>,
)
    requires
        round_wf(v),
        v.group < v.committee_sizes.len(),
        replies.len() == v.committee_sizes.len(),
        forall|g: int| 0 <= g < replies.len() ==> (#[trigger] replies[g]).len() == v.committee_sizes[g],
        forall|g: int, m: int|
            0 <= g < replies.len() && 0 <= m < replies[g].len() ==> #[trigger] replies[g][m] is Err,
    ensures
        run_round(v, replies).last_error_group == Some(v.committee_sizes.len() - 1),
    decreases v.committee_sizes.len() - v.group, v.committee_sizes[v.group] - v.member,
{
    let outcome = replies[v.group][v.member];
    assert(outcome is Err);
    let next = spec_record(v, outcome);
    lemma_record_keeps_round_wf(v, outcome);
    if next.group < next.committee_sizes.len() {
        lemma_failing_calls_end_in_the_last_group(next, replies);
    }
}

/// Whether some committee answers, its members replying as `replies` says.
pub open spec fn some_committee_answers<T, E>(replies: Seq<Seq<Result<T, E>>>) -> bool {
    exists|g: int| 0 <= g < replies.len() && #[trigger] committee_answer(replies[g]) is Ok
}

/// Whether every member of every committee fails.
pub open spec fn every_call_fails<T, E>(replies: Seq<Seq<Result<T, E>>>) -> bool {
    forall|g: int, m: int| 0 <= g < replies.len() && 0 <= m < replies[g].len() ==> #[trigger] replies[g][m] is Err
}

/// What each committee answers, in order.
pub open spec fn committee_answers<T, E>(replies: Seq<Seq<Result<T, E>>>) -> Seq<Result<T, E>> {
    Seq::new(replies.len(), |g: int| committee_answer(replies[g]))
}

/// A whole round, each member asked replying as `replies` says (member `m` of the `g`-th committee
/// replies `replies[g][m]`): where some committee answers, the round ends with what each committee
/// answers, in order; where every call fails, the round fails as a whole with the number of
/// committees involved and the failure of the last call made, that of the last member of the last
/// committee.
pub proof fn lemma_a_round_ends_as_its_calls_say<T, E>(
    committee_sizes: Seq<usize>,
    replies: Seq<Seq<Result<T, E>>>,
)
    requires
        committee_sizes.len() > 0,
        forall|g: int| 0 <= g < committee_sizes.len() ==> #[trigger] committee_sizes[g] > 0,
        replies.len() == committee_sizes.len(),
        forall|g: int| 0 <= g < replies.len() ==> (#[trigger] replies[g]).len() == committee_sizes[g],
    ensures
        some_committee_answers(replies) ==> spec_finish(run_round(opening_round(committee_sizes), replies))
            == CommitteeOutcomeView::Results(committee_answers(replies)),
        every_call_fails(replies) ==> spec_finish(run_round(opening_round(committee_sizes), replies))
            == (CommitteeOutcomeView::<T, E>::AllValidatorsFailed {
            committee_size: committee_sizes.len() as usize,
            last_error: failure_of(replies.last().last()),
        }),
{
    let start = opening_round::<T, E>(committee_sizes);
    lemma_a_round_records_each_committee_answer(start, replies);
    let end = run_round(start, replies);
    let n = committee_sizes.len();
    assert(end.results =~= committee_answers(replies));
    lemma_count_ok_bounds(end.results);
    if some_committee_answers(replies) {
        let g = choose|g: int| 0 <= g < replies.len() && #[trigger] committee_answer(replies[g]) is Ok;
        assert(end.results[g] is Ok);
    }
    if every_call_fails(replies) {
        assert forall|g: int| 0 <= g < n implies #[trigger] end.results[g] is Err by {
            lemma_a_failing_committee_answers_its_last_failure(replies[g]);
            assert(replies[g][replies[g].len() - 1] is Err);
        }
        lemma_no_answer_counts_none(end.results);
        lemma_failing_calls_end_in_the_last_group(start, replies);
        lemma_a_failing_committee_answers_its_last_failure(replies[n - 1]);
        assert(end.results[n - 1] == replies.last().last());
    }
}

} // verus!
