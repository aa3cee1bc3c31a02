//! Confirming a number of members of an organization in one request.
use crate::membership::{status_name, status_name_spec, MembershipStatus, RoleCodes};
use vstd::prelude::*;

verus! {

/// A member that a lookup found: the stored status and what it stands for.
#[derive(Clone, Copy, Debug, PartialEq, Eq, Structural)]
pub struct MemberState {
    pub status: i32,
    pub named: Option<MembershipStatus>,
}

/// What became of one of the members.
#[derive(Debug)]
pub enum ConfirmOutcome {
    Confirmed,
    /// The member could not be saved.
    NotSaved(String),
    /// The member was in another status than accepted.
    Skipped(Option<MembershipStatus>),
    NotFound,
}

impl ConfirmOutcome {
    /// The outcome in one word.
    pub open spec fn word(self) -> Seq<char> {
        match self {
            ConfirmOutcome::Confirmed => "success"@,
            ConfirmOutcome::NotSaved(_) => "error"@,
            ConfirmOutcome::Skipped(_) => "skipped"@,
            ConfirmOutcome::NotFound => "error"@,
        }
    }

    /// The outcome in a sentence.
    pub open spec fn sentence(self) -> Seq<char> {
        match self {
            ConfirmOutcome::Confirmed => "Member confirmed successfully"@,
            ConfirmOutcome::NotSaved(error) => "Failed to save: "@ + error@,
            ConfirmOutcome::Skipped(named) => "Member is in "@ + status_name_spec(named)
                + " status, not Accepted"@,
            ConfirmOutcome::NotFound => "Member not found"@,
        }
    }

    /// The member was to be confirmed and could not be.
    pub open spec fn failed(self) -> bool {
        self is NotSaved || self is NotFound
    }

    /// The outcome in one word.
    pub fn status(&self) -> (text: &'static str)
        ensures
            text@ == self.word(),
    {
        match self {
            ConfirmOutcome::Confirmed => "success",
            ConfirmOutcome::NotSaved(_) => "error",
            ConfirmOutcome::Skipped(_) => "skipped",
            ConfirmOutcome::NotFound => "error",
        }
    }

    /// The outcome in a sentence.
    pub fn message(&self) -> (text: String)
        ensures
            text@ == self.sentence(),
    {
        match self {
            ConfirmOutcome::Confirmed => "Member confirmed successfully".to_owned(),
            ConfirmOutcome::NotSaved(error) => "Failed to save: ".to_owned().concat(error.as_str()),
            ConfirmOutcome::Skipped(named) => "Member is in ".to_owned().concat(
                status_name(*named),
            ).concat(" status, not Accepted"),
            ConfirmOutcome::NotFound => "Member not found".to_owned(),
        }
    }
}

/// What became of the member with this id.
#[derive(Debug)]
pub struct ConfirmResult {
    pub id: String,
    pub outcome: ConfirmOutcome,
}

/// The work that is due for the first member that has no result yet.
#[derive(Clone, Copy, Debug, PartialEq, Eq, Structural)]
pub enum ConfirmPhase {
    Find,
    Save,
    Done,
}

/// What became of the work that was due.
#[derive(Debug)]
pub enum ConfirmEvent {
    MemberFound(Option<MemberState>),
    Saved(Result<(), String>),
}

/// A piece of work for the storage.
#[derive(Debug)]
pub enum ConfirmAction {
    /// Look a member of the organization up.
    FindMember { id: String },
    /// Give the member that was found this status and save it.
    SaveStatus { status: i32 },
    Finish,
}

/// How many members there are of each outcome.
#[derive(Clone, Copy, Debug, PartialEq, Eq, Structural)]
pub struct ConfirmSummary {
    pub total: usize,
    pub confirmed: usize,
    pub failed: usize,
    pub skipped: usize,
}

/// How many results `counts` holds of.
pub open spec fn tally(
    results: Seq<ConfirmResult>,
    counts: spec_fn(ConfirmOutcome) -> bool,
) -> nat
    decreases results.len(),
{
    if results.len() == 0 {
        0
    } else if counts(results.last().outcome) {
        tally(results.drop_last(), counts) + 1
    } else {
        tally(results.drop_last(), counts)
    }
}

/// The outcomes that count as confirmed.
pub open spec fn is_confirmed() -> spec_fn(ConfirmOutcome) -> bool {
    |outcome: ConfirmOutcome| outcome is Confirmed
}

/// The outcomes that count as failed.
pub open spec fn is_failed() -> spec_fn(ConfirmOutcome) -> bool {
    |outcome: ConfirmOutcome| outcome.failed()
}

/// The outcomes that count as skipped.
pub open spec fn is_skipped() -> spec_fn(ConfirmOutcome) -> bool {
    |outcome: ConfirmOutcome| outcome is Skipped
}

/// What a report settles: the outcome for the member at hand, or nothing yet.
pub open spec fn settles(
    codes: RoleCodes,
    phase: ConfirmPhase,
    event: ConfirmEvent,
) -> Option<ConfirmOutcome> {
    match (phase, event) {
        (ConfirmPhase::Find, ConfirmEvent::MemberFound(None)) => Some(ConfirmOutcome::NotFound),
        (ConfirmPhase::Find, ConfirmEvent::MemberFound(Some(member))) => if member.status
            == codes.accepted {
            None
        } else {
            Some(ConfirmOutcome::Skipped(member.named))
        },
        (ConfirmPhase::Save, ConfirmEvent::Saved(Ok(()))) => Some(ConfirmOutcome::Confirmed),
        (ConfirmPhase::Save, ConfirmEvent::Saved(Err(error))) => Some(
            ConfirmOutcome::NotSaved(error),
        ),
        _ => None,
    }
}

/// What is due where `done` of the members have a result.
pub open spec fn due(total: nat, done: nat) -> ConfirmPhase {
    if done < total {
        ConfirmPhase::Find
    } else {
        ConfirmPhase::Done
    }
}

/// A request on its way, as a value.
#[verifier::ext_equal]
pub struct ConfirmState {
    /// The organization that the members belong to.
    pub org_id: String,
    pub codes: RoleCodes,
    pub ids: Seq<String>,
    pub results: Seq<ConfirmResult>,
    pub phase: ConfirmPhase,
}

/// Where a request stands after it was told `event`. An event that does not
/// report on the work that is due changes nothing.
pub open spec fn confirm_next(state: ConfirmState, event: ConfirmEvent) -> ConfirmState {
    match settles(state.codes, state.phase, event) {
        Some(outcome) => ConfirmState {
            results: state.results.push(
                ConfirmResult { id: state.ids[state.results.len() as int], outcome },
            ),
            phase: due(state.ids.len(), state.results.len() + 1),
            ..state
        },
        None => ConfirmState {
            phase: if state.phase is Find && (event matches ConfirmEvent::MemberFound(
                Some(_),
            )) {
                ConfirmPhase::Save
            } else {
                state.phase
            },
            ..state
        },
    }
}

/// A request on its way.
#[derive(Debug)]
pub struct ConfirmRun {
    org_id: String,
    codes: RoleCodes,
    member_ids: Vec<String>,
    results: Vec<ConfirmResult>,
    /// How many of the results are confirmations.
    confirmed: usize,
    /// How many of the results are failures.
    failed: usize,
    phase: ConfirmPhase,
}

impl View for ConfirmRun {
    type V = ConfirmState;

    closed spec fn view(&self) -> ConfirmState {
        ConfirmState {
            org_id: self.org_id,
            codes: self.codes,
            ids: self.member_ids@,
            results: self.results@,
            phase: self.phase,
        }
    }
}

impl ConfirmState {
    /// The results stand for the first members, in order. While there is work due
    /// there is a member without a result.
    pub open spec fn wf(self) -> bool {
        &&& self.results.len() <= self.ids.len()
        &&& self.phase is Done <==> self.results.len() == self.ids.len()
        &&& forall|i: int|
            0 <= i < self.results.len() ==> #[trigger] self.results[i].id == self.ids[i]
    }
}

impl ConfirmRun {
    /// The state is sound, and the counts are those of its results.
    pub closed spec fn wf(self) -> bool {
        &&& self@.wf()
        &&& self.confirmed == tally(self.results@, is_confirmed())
        &&& self.failed == tally(self.results@, is_failed())
    }

    /// The organization that the members belong to.
    pub fn org_id(&self) -> (org_id: &String)
        ensures
            *org_id == self@.org_id,
    {
        &self.org_id
    }

    /// The results so far.
    pub fn results(&self) -> (results: &Vec<ConfirmResult>)
        ensures
            results@ == self@.results,
    {
        &self.results
    }

    /// The work that is due.
    pub fn pending(&self) -> (action: ConfirmAction)
        requires
            self.wf(),
        ensures
            match self@.phase {
                ConfirmPhase::Find => action == (ConfirmAction::FindMember {
                    id: self@.ids[self@.results.len() as int],
                }),
                ConfirmPhase::Save => action == (ConfirmAction::SaveStatus {
                    status: self@.codes.confirmed,
                }),
                ConfirmPhase::Done => action == ConfirmAction::Finish,
            },
    {
        match self.phase {
            ConfirmPhase::Find => ConfirmAction::FindMember {
                id: self.member_ids[self.results.len()].clone(),
            },
            ConfirmPhase::Save => ConfirmAction::SaveStatus { status: self.codes.confirmed },
            ConfirmPhase::Done => ConfirmAction::Finish,
        }
    }

    /// Moves on, now that `event` reports on the work that was due.
    pub fn advance(self, event: ConfirmEvent) -> (run: ConfirmRun)
        requires
            self.wf(),
        ensures
            run.wf(),
            run@.wf(),
            run@ == confirm_next(self@, event),
    {
        let mut run = self;
        match (run.phase, event) {
            (ConfirmPhase::Find, ConfirmEvent::MemberFound(None)) => run.settle(
                ConfirmOutcome::NotFound,
            ),
            (ConfirmPhase::Find, ConfirmEvent::MemberFound(Some(member))) => {
                if member.status == run.codes.accepted {
                    run.phase = ConfirmPhase::Save;
                } else {
                    run.settle(ConfirmOutcome::Skipped(member.named));
                }
            },
            (ConfirmPhase::Save, ConfirmEvent::Saved(Ok(()))) => run.settle(
                ConfirmOutcome::Confirmed,
            ),
            (ConfirmPhase::Save, ConfirmEvent::Saved(Err(error))) => run.settle(
                ConfirmOutcome::NotSaved(error),
            ),
            _ => {},
        }
        run
    }

    /// Notes the outcome for the member at hand and turns to the next one.
    fn settle(&mut self, outcome: ConfirmOutcome)
        requires
            old(self).wf(),
            old(self).results@.len() < old(self).member_ids@.len(),
        ensures
            final(self).wf(),
            final(self)@ == (ConfirmState {
                results: old(self)@.results.push(
                    ConfirmResult { id: old(self)@.ids[old(self)@.results.len() as int], outcome },
                ),
                phase: due(old(self)@.ids.len(), old(self)@.results.len() + 1),
                ..old(self)@
            }),
    {
        let ghost before = self.results@;
        let id = self.member_ids[self.results.len()].clone();
        proof {
            lemma_tallies_add_up(before);
            let all = before.push(ConfirmResult { id, outcome });
            assert(all.drop_last() =~= before);
            assert(all.last() == (ConfirmResult { id, outcome }));
        }
        let total: usize = self.member_ids.len();
        match &outcome {
            ConfirmOutcome::Confirmed => {
                self.confirmed += 1;
            },
            ConfirmOutcome::NotSaved(_) => {
                self.failed += 1;
            },
            ConfirmOutcome::Skipped(_) => {},
            ConfirmOutcome::NotFound => {
                self.failed += 1;
            },
        }
        self.results.push(ConfirmResult { id, outcome });
        self.phase = if self.results.len() < total {
            ConfirmPhase::Find
        } else {
            ConfirmPhase::Done
        };
    }

    /// How many members there are of each outcome.
    pub fn summary(&self) -> (summary: ConfirmSummary)
        requires
            self.wf(),
            self@.phase is Done,
        ensures
            summary.total == self@.ids.len(),
            summary.confirmed == tally(self@.results, is_confirmed()),
            summary.failed == tally(self@.results, is_failed()),
            summary.skipped == tally(self@.results, is_skipped()),
    {
        proof {
            lemma_tallies_add_up(self.results@);
        }
        ConfirmSummary {
            total: self.member_ids.len(),
            confirmed: self.confirmed,
            failed: self.failed,
            skipped: self.member_ids.len() - self.confirmed - self.failed,
        }
    }
}

/// Starts to confirm the members with these ids.
pub fn bulk_confirm_public_members(
    org_id: String,
    member_ids: Vec<String>,
    codes: RoleCodes,
) -> (run: ConfirmRun)
    ensures
        run.wf(),
        run@.wf(),
        run@ == confirm_start(org_id, codes, member_ids@),
        run@.org_id == org_id,
        run@.codes == codes,
        run@.ids == member_ids@,
        run@.results.len() == 0,
        run@.phase is Done <==> member_ids@.len() == 0,
        !(run@.phase is Save),
{
    let phase = if member_ids.len() > 0 {
        ConfirmPhase::Find
    } else {
        ConfirmPhase::Done
    };
    ConfirmRun { org_id, codes, member_ids, results: Vec::new(), confirmed: 0, failed: 0, phase }
}

/// Every result is a confirmation, a failure or a skip, and never two of them.
proof fn lemma_tallies_add_up(results: Seq<ConfirmResult>)
    ensures
        tally(results, is_confirmed()) + tally(results, is_failed()) + tally(results, is_skipped())
            == results.len(),
    decreases results.len(),
{
    if results.len() > 0 {
        lemma_tallies_add_up(results.drop_last());
    }
}

/// When a request has ended, every member has exactly one result, in the order
/// of the request, and the three counts add up to their number.
pub proof fn every_member_gets_one_result(state: ConfirmState)
    requires
        state.wf(),
        state.phase is Done,
    ensures
        state.results.len() == state.ids.len(),
        forall|i: int| 0 <= i < state.ids.len() ==> #[trigger] state.results[i].id == state.ids[i],
        tally(state.results, is_confirmed()) + tally(state.results, is_failed()) + tally(
            state.results,
            is_skipped(),
        ) == state.ids.len(),
{
    lemma_tallies_add_up(state.results);
}

/// A member is saved as confirmed only right after it was found in the accepted
/// status, and counts as confirmed only when that was saved.
pub proof fn only_accepted_members_are_confirmed(state: ConfirmState, event: ConfirmEvent)
    ensures
        confirm_next(state, event).phase is Save && !(state.phase is Save) ==> (event matches
            ConfirmEvent::MemberFound(Some(member)) && member.status == state.codes.accepted),
        settles(state.codes, state.phase, event) == Some(ConfirmOutcome::Confirmed) ==> state.phase is Save
            && (event matches ConfirmEvent::Saved(outcome) && outcome is Ok),
{
}

/// Results that are there stay as they are.
pub proof fn results_only_grow(state: ConfirmState, event: ConfirmEvent)
    ensures
        state.results.is_prefix_of(confirm_next(state, event).results),
        confirm_next(state, event) == (ConfirmState {
            results: confirm_next(state, event).results,
            phase: confirm_next(state, event).phase,
            ..state
        }),
{
}

/// The statuses of an organization's members, by their ids.
pub struct StoredStatuses {
    pub statuses: Map<Seq<char>, i32>,
    /// What a status number stands for.
    pub names: spec_fn(i32) -> Option<MembershipStatus>,
}

/// What the storage answers in a phase where every change is saved, and what it
/// holds then.
pub open spec fn storage_answer(
    store: StoredStatuses,
    state: ConfirmState,
) -> (ConfirmEvent, StoredStatuses) {
    let id = state.ids[state.results.len() as int]@;
    if state.phase is Find {
        (
            ConfirmEvent::MemberFound(
                if store.statuses.contains_key(id) {
                    Some(
                        MemberState {
                            status: store.statuses[id],
                            named: (store.names)(store.statuses[id]),
                        },
                    )
                } else {
                    None
                },
            ),
            store,
        )
    } else {
        (
            ConfirmEvent::Saved(Ok(())),
            StoredStatuses { statuses: store.statuses.insert(id, state.codes.confirmed), ..store },
        )
    }
}

/// Where a request ends with a storage in which every change is saved, and what
/// the storage holds then.
pub open spec fn confirm_all(
    store: StoredStatuses,
    state: ConfirmState,
) -> (ConfirmState, StoredStatuses)
    decreases
            2 * (state.ids.len() - state.results.len()) - (if state.phase is Save {
                1int
            } else {
                0int
            }),
{
    if state.phase is Done || state.results.len() >= state.ids.len() {
        (state, store)
    } else {
        let (event, after) = storage_answer(store, state);
        confirm_all(after, confirm_next(state, event))
    }
}

/// A request at its beginning.
pub open spec fn confirm_start(
    org_id: String,
    codes: RoleCodes,
    ids: Seq<String>,
) -> ConfirmState {
    ConfirmState { org_id, codes, ids, results: Seq::empty(), phase: due(ids.len(), 0) }
}

/// What is known of a request on its way: what its results say of the storage,
/// which started as `before` and is `store` now.
spec fn confirm_tells(
    before: StoredStatuses,
    store: StoredStatuses,
    state: ConfirmState,
) -> bool {
    let codes = state.codes;
    &&& state.results.len() <= state.ids.len()
    &&& state.phase is Done <==> state.results.len() == state.ids.len()
    &&& store.names == before.names
    &&& store.statuses.dom() == before.statuses.dom()
    &&& forall|id: Seq<char>| #[trigger]
        store.statuses.contains_key(id) ==> store.statuses[id] == before.statuses[id]
            || store.statuses[id] == codes.confirmed
    &&& state.phase is Save ==> {
        let id = state.ids[state.results.len() as int]@;
        store.statuses.contains_key(id) && store.statuses[id] == codes.accepted
    }
    &&& forall|i: int|
        0 <= i < state.results.len() ==> {
            let id = state.ids[i]@;
            let outcome = (#[trigger] state.results[i]).outcome;
            &&& outcome.failed() == !before.statuses.contains_key(id)
            &&& store.statuses.contains_key(id) ==> store.statuses[id] != codes.accepted
            &&& outcome is Confirmed ==> before.statuses.contains_key(id) && before.statuses[id]
                == codes.accepted
        }
    &&& (forall|i: int|
        0 <= i < state.results.len() ==> !((#[trigger] state.results[i]).outcome is Confirmed))
        && !(state.phase is Save) ==> store == before
}

proof fn lemma_confirm_tells(
    before: StoredStatuses,
    store: StoredStatuses,
    state: ConfirmState,
)
    requires
        state.codes.accepted != state.codes.confirmed,
        confirm_tells(before, store, state),
    ensures
        ({
            let (end, after) = confirm_all(store, state);
            &&& end.phase is Done
            &&& end.ids == state.ids
            &&& end.codes == state.codes
            &&& confirm_tells(before, after, end)
        }),
    decreases
            2 * (state.ids.len() - state.results.len()) - (if state.phase is Save {
                1int
            } else {
                0int
            }),
{
    if !(state.phase is Done) {
        let (event, after) = storage_answer(store, state);
        let follower = confirm_next(state, event);
        let id = state.ids[state.results.len() as int]@;
        assert(after.statuses.dom() =~= before.statuses.dom());
        assert forall|i: int| 0 <= i < state.results.len() implies #[trigger] follower.results[i]
            == state.results[i] by {}
        if state.phase is Save {
            let k = state.results.len() as int;
            assert(follower.results[k].outcome is Confirmed);
            assert(before.statuses[id] == state.codes.accepted);
        }
        if forall|i: int|
            0 <= i < follower.results.len() ==> !((
            #[trigger] follower.results[i]).outcome is Confirmed) {
            assert forall|i: int| 0 <= i < state.results.len() implies !((
            #[trigger] state.results[i]).outcome is Confirmed) by {
                assert(follower.results[i] == state.results[i]);
            }
        }
        assert(confirm_tells(before, after, follower));
        lemma_confirm_tells(before, after, follower);
    }
}

proof fn lemma_same_tally(
    a: Seq<ConfirmResult>,
    b: Seq<ConfirmResult>,
    counts: spec_fn(ConfirmOutcome) -> bool,
)
    requires
        a.len() == b.len(),
        forall|i: int|
            0 <= i < a.len() ==> counts((#[trigger] a[i]).outcome) == counts(b[i].outcome),
    ensures
        tally(a, counts) == tally(b, counts),
    decreases a.len(),
{
    if a.len() > 0 {
        let last = a.len() - 1;
        assert(counts(a[last].outcome) == counts(b[last].outcome));
        assert forall|i: int| 0 <= i < last implies counts((#[trigger] a.drop_last()[i]).outcome)
            == counts(b.drop_last()[i].outcome) by {
            assert(a.drop_last()[i] == a[i]);
        }
        lemma_same_tally(a.drop_last(), b.drop_last(), counts);
    }
}

proof fn lemma_no_tally(a: Seq<ConfirmResult>, counts: spec_fn(ConfirmOutcome) -> bool)
    requires
        forall|i: int| 0 <= i < a.len() ==> !counts((#[trigger] a[i]).outcome),
    ensures
        tally(a, counts) == 0,
    decreases a.len(),
{
    if a.len() > 0 {
        assert(!counts(a[a.len() - 1].outcome));
        assert forall|i: int| 0 <= i < a.len() - 1 implies !counts(
            (#[trigger] a.drop_last()[i]).outcome,
        ) by {
            assert(a.drop_last()[i] == a[i]);
        }
        lemma_no_tally(a.drop_last(), counts);
    }
}

/// Where every change is saved and nothing changes in between, a second request
/// for the same members confirms nobody, fails for the same number, skips whom
/// the first one confirmed or skipped, and changes nothing.
pub proof fn a_second_confirmation_changes_nothing(
    org_id: String,
    codes: RoleCodes,
    ids: Seq<String>,
    store: StoredStatuses,
)
    requires
        codes.accepted != codes.confirmed,
    ensures
        ({
            let (first, kept) = confirm_all(store, confirm_start(org_id, codes, ids));
            let (second, after) = confirm_all(kept, confirm_start(org_id, codes, ids));
            &&& first.phase is Done && second.phase is Done
            &&& after == kept
            &&& tally(second.results, is_confirmed()) == 0
            &&& tally(second.results, is_failed()) == tally(first.results, is_failed())
            &&& tally(second.results, is_skipped()) == tally(first.results, is_confirmed()) + tally(
                first.results,
                is_skipped(),
            )
        }),
{
    let start = confirm_start(org_id, codes, ids);
    let (first, kept) = confirm_all(store, start);
    let (second, after) = confirm_all(kept, start);
    lemma_confirm_tells(store, store, start);
    lemma_confirm_tells(kept, kept, start);
    assert forall|i: int| 0 <= i < second.results.len() implies !is_confirmed()(
        (#[trigger] second.results[i]).outcome,
    ) by {
        assert(first.results[i].outcome.failed() == !store.statuses.contains_key(ids[i]@));
    }
    assert forall|i: int| 0 <= i < second.results.len() implies is_failed()(
        (#[trigger] second.results[i]).outcome,
    ) == is_failed()(first.results[i].outcome) by {
        assert(first.results[i].outcome.failed() == !store.statuses.contains_key(ids[i]@));
    }
    lemma_no_tally(second.results, is_confirmed());
    lemma_same_tally(second.results, first.results, is_failed());
    lemma_tallies_add_up(first.results);
    lemma_tallies_add_up(second.results);
}

/// A member that is not there, or is in another status than accepted, is settled
/// at once; an accepted one is settled when it has been saved. The result has the
/// id of the member at hand, and the next member is looked up until all have a
/// result. Any other report changes nothing.
pub proof fn reports_settle_the_member_at_hand(state: ConfirmState, event: ConfirmEvent)
    requires
        state.wf(),
    ensures
        ({
            let after = confirm_next(state, event);
            let done = state.results.len() as int;
            let settled = |outcome: ConfirmOutcome|
                {
                    &&& after.results == state.results.push(
                        ConfirmResult { id: state.ids[done], outcome },
                    )
                    &&& after.phase == (if done + 1 < state.ids.len() {
                        ConfirmPhase::Find
                    } else {
                        ConfirmPhase::Done
                    })
                };
            &&& after.wf()
            &&& after.org_id == state.org_id && after.codes == state.codes && after.ids == state.ids
            &&& state.phase is Find ==> (event matches ConfirmEvent::MemberFound(None) ==> settled(
                ConfirmOutcome::NotFound,
            ))
            &&& state.phase is Find ==> (event matches ConfirmEvent::MemberFound(Some(member))
                ==> member.status != state.codes.accepted ==> settled(
                ConfirmOutcome::Skipped(member.named),
            ))
            &&& state.phase is Find ==> (event matches ConfirmEvent::MemberFound(Some(member))
                ==> member.status == state.codes.accepted ==> after.results == state.results
                && after.phase is Save)
            &&& state.phase is Save ==> (event matches ConfirmEvent::Saved(Ok(_)) ==> settled(
                ConfirmOutcome::Confirmed,
            ))
            &&& state.phase is Save ==> (event matches ConfirmEvent::Saved(Err(error)) ==> settled(
                ConfirmOutcome::NotSaved(error),
            ))
            &&& state.phase is Find && event is Saved ==> after == state
            &&& state.phase is Save && event is MemberFound ==> after == state
            &&& state.phase is Done ==> after == state
        }),
{
    if state.phase is Save {
        if let ConfirmEvent::Saved(outcome) = event {
            assert(outcome is Ok ==> outcome == Ok::<(), String>(outcome->Ok_0));
        }
    }
}

/// Ids are all different.
spec fn told_apart(ids: Seq<String>) -> bool {
    forall|i: int, j: int| 0 <= i < j < ids.len() ==> (#[trigger] ids[i])@ != (#[trigger] ids[j])@
}

/// What a request has done so far, where every change is saved.
spec fn confirmed_so_far(before: StoredStatuses, store: StoredStatuses, state: ConfirmState) -> bool {
    &&& state.wf()
    &&& store.names == before.names
    &&& store.statuses.dom() == before.statuses.dom()
    &&& forall|id: Seq<char>|
        #![trigger store.statuses[id]]
        store.statuses.contains_key(id) && (forall|i: int|
            0 <= i < state.results.len() ==> (#[trigger] state.ids[i])@ != id) ==> store.statuses[id]
            == before.statuses[id]
    &&& forall|i: int|
        0 <= i < state.results.len() ==> {
            let id = (#[trigger] state.ids[i])@;
            let outcome = state.results[i].outcome;
            if !before.statuses.contains_key(id) {
                outcome is NotFound
            } else if before.statuses[id] == state.codes.accepted {
                outcome is Confirmed && store.statuses[id] == state.codes.confirmed
            } else {
                outcome == ConfirmOutcome::Skipped((before.names)(before.statuses[id]))
                    && store.statuses[id] == before.statuses[id]
            }
        }
    &&& state.phase is Save ==> {
        let id = state.ids[state.results.len() as int]@;
        before.statuses.contains_key(id) && before.statuses[id] == state.codes.accepted
    }
}

#[verifier::rlimit(40)]
proof fn lemma_confirmed_so_far(before: StoredStatuses, store: StoredStatuses, state: ConfirmState)
    requires
        told_apart(state.ids),
        confirmed_so_far(before, store, state),
    ensures
        ({
            let (end, after) = confirm_all(store, state);
            &&& end.phase is Done
            &&& end.ids == state.ids && end.codes == state.codes
            &&& confirmed_so_far(before, after, end)
        }),
    decreases
            2 * (state.ids.len() - state.results.len()) - (if state.phase is Save {
                1int
            } else {
                0int
            }),
{
    if !(state.phase is Done) {
        let (event, after) = storage_answer(store, state);
        let follower = confirm_next(state, event);
        let k = state.results.len() as int;
        let id = state.ids[k]@;
        reports_settle_the_member_at_hand(state, event);
        assert forall|i: int| 0 <= i < k implies (#[trigger] state.ids[i])@ != id by {}
        assert(store.statuses.contains_key(id) ==> store.statuses[id] == before.statuses[id]);
        assert(after.statuses.dom() =~= before.statuses.dom());
        assert forall|i: int| 0 <= i < follower.results.len() implies ({
            let id = (#[trigger] follower.ids[i])@;
            let outcome = follower.results[i].outcome;
            if !before.statuses.contains_key(id) {
                outcome is NotFound
            } else if before.statuses[id] == state.codes.accepted {
                outcome is Confirmed && after.statuses[id] == state.codes.confirmed
            } else {
                outcome == ConfirmOutcome::Skipped((before.names)(before.statuses[id]))
                    && after.statuses[id] == before.statuses[id]
            }
        }) by {
            if i < k {
                assert(state.ids[i]@ != id);
                assert(follower.results[i] == state.results[i]);
            }
        }
        assert forall|other: Seq<char>|
            #![trigger after.statuses[other]]
            after.statuses.contains_key(other) && (forall|i: int|
                0 <= i < follower.results.len() ==> (#[trigger] follower.ids[i])@ != other) implies after.statuses[other]
            == before.statuses[other] by {
            if state.phase is Save {
                assert(follower.ids[k]@ != other);
            }
            assert forall|i: int| 0 <= i < k implies (#[trigger] state.ids[i])@ != other by {
                assert(follower.ids[i]@ != other);
            }
            assert(store.statuses[other] == before.statuses[other]);
        }
        lemma_confirmed_so_far(before, after, follower);
    }
}

/// Where every change is saved, a request for different members confirms just
/// those who are in the accepted status: their stored status becomes confirmed,
/// and nobody else's changes. Whoever is in another status is skipped, with the
/// name of that status, and whoever is not there is not found. The results stand
/// in the order of the ids.
pub proof fn requests_confirm_the_accepted_members(
    org_id: String,
    codes: RoleCodes,
    ids: Seq<String>,
    store: StoredStatuses,
    i: int,
    other: Seq<char>,
)
    requires
        forall|a: int, b: int|
            0 <= a < b < ids.len() ==> (#[trigger] ids[a])@ != (#[trigger] ids[b])@,
        0 <= i < ids.len(),
        forall|a: int| 0 <= a < ids.len() ==> (#[trigger] ids[a])@ != other,
    ensures
        ({
            let (end, after) = confirm_all(store, confirm_start(org_id, codes, ids));
            let id = ids[i]@;
            let accepted = store.statuses.contains_key(id) && store.statuses[id] == codes.accepted;
            &&& end.phase is Done
            &&& end.results.len() == ids.len()
            &&& end.results[i].id == ids[i]
            &&& end.results[i].outcome is NotFound <==> !store.statuses.contains_key(id)
            &&& end.results[i].outcome is Confirmed <==> accepted
            &&& store.statuses.contains_key(id) && !accepted ==> end.results[i].outcome
                == ConfirmOutcome::Skipped((store.names)(store.statuses[id]))
            &&& after.statuses.dom() == store.statuses.dom()
            &&& accepted ==> after.statuses[id] == codes.confirmed
            &&& store.statuses.contains_key(id) && !accepted ==> after.statuses[id]
                == store.statuses[id]
            &&& store.statuses.contains_key(other) ==> after.statuses[other]
                == store.statuses[other]
        }),
{
    let start = confirm_start(org_id, codes, ids);
    lemma_confirmed_so_far(store, store, start);
    let (end, after) = confirm_all(store, start);
    assert(end.ids[i] == ids[i]);
    assert(end.results[i].id == end.ids[i]);
    assert(after.statuses.contains_key(other) == store.statuses.contains_key(other));
    assert(after.statuses.contains_key(other) ==> after.statuses[other] == store.statuses[other]);
}

/// The counts are how many results are confirmations, failures and skips; not to
/// be found and not to be saved are the failures.
pub proof fn counts_are_of_the_results(results: Seq<ConfirmResult>)
    ensures
        tally(results, is_confirmed()) == results.filter(
            |r: ConfirmResult| r.outcome is Confirmed,
        ).len(),
        tally(results, is_failed()) == results.filter(
            |r: ConfirmResult| r.outcome is NotSaved || r.outcome is NotFound,
        ).len(),
        tally(results, is_skipped()) == results.filter(
            |r: ConfirmResult| r.outcome is Skipped,
        ).len(),
    decreases results.len(),
{
    reveal(Seq::filter);
    if results.len() > 0 {
        counts_are_of_the_results(results.drop_last());
    }
}

/// What is said of each outcome.
pub proof fn outcomes_say_what_became_of_the_member(
    error: String,
    named: Option<MembershipStatus>,
)
    ensures
        ConfirmOutcome::Confirmed.word() == "success"@,
        ConfirmOutcome::NotSaved(error).word() == "error"@,
        ConfirmOutcome::Skipped(named).word() == "skipped"@,
        ConfirmOutcome::NotFound.word() == "error"@,
        ConfirmOutcome::Confirmed.sentence() == "Member confirmed successfully"@,
        ConfirmOutcome::NotSaved(error).sentence() == "Failed to save: "@ + error@,
        ConfirmOutcome::Skipped(named).sentence() == "Member is in "@ + (match named {
            Some(MembershipStatus::Invited) => "Invited"@,
            Some(MembershipStatus::Accepted) => "Accepted"@,
            Some(MembershipStatus::Confirmed) => "Confirmed"@,
            Some(MembershipStatus::Revoked) => "Revoked"@,
            None => "Unknown"@,
        }) + " status, not Accepted"@,
        ConfirmOutcome::NotFound.sentence() == "Member not found"@,
{
}

} // verus!
