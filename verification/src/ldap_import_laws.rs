//! What holds of every import, whatever the directory sends and whatever the
//! storage and the mailer report.
use crate::ldap_import::{
    answers, asks, group_or_after, member_or_after, next, stale, sweep, Action, Event, ImportError, ImportState,
    ImportSettings, ListedMember, OrgImportData, Phase,
};
use vstd::prelude::*;

verus! {

/// The person whom the import is busy with.
pub open spec fn handling(phase: Phase) -> Option<int> {
    match phase {
        Phase::FindMember { i } => Some(i as int),
        Phase::CountBeforeRevoke { i } => Some(i as int),
        Phase::Revoke { i } => Some(i as int),
        Phase::Restore { i } => Some(i as int),
        Phase::SetExternalId { i, .. } => Some(i as int),
        Phase::SaveMember { i } => Some(i as int),
        Phase::FindUser { i } => Some(i as int),
        Phase::CreateUser { i } => Some(i as int),
        Phase::SaveInvitation { i, .. } => Some(i as int),
        Phase::HashMasterKey { i, .. } => Some(i as int),
        Phase::HashMasterPassword { i, .. } => Some(i as int),
        Phase::SetPassword { i, .. } => Some(i as int),
        Phase::SaveUser { i, .. } => Some(i as int),
        Phase::FindOrganization { i, .. } => Some(i as int),
        Phase::CreateMember { i, .. } => Some(i as int),
        Phase::SendInvite { i, .. } => Some(i as int),
        _ => None,
    }
}

/// The import is bound to end with an error.
pub open spec fn failing(phase: Phase) -> bool {
    phase is UndoUser || phase is UndoMember || (phase matches Phase::Done(outcome)
        && outcome is Err)
}

/// The part of the import: people, groups, removals, end.
pub open spec fn stage(phase: Phase) -> nat {
    match phase {
        Phase::FindGroup { .. } => 2,
        Phase::CreateGroup { .. } => 2,
        Phase::ClearGroup { .. } => 2,
        Phase::FindGroupMember { .. } => 2,
        Phase::AddGroupMember { .. } => 2,
        Phase::ListMembers => 2,
        Phase::CountBeforeDelete { .. } => 1,
        Phase::DeleteMember { .. } => 1,
        Phase::Done(_) => 0,
        _ => 3,
    }
}

/// How many people, groups or listed members are left in this part.
pub open spec fn left(data: OrgImportData, phase: Phase) -> int {
    match phase {
        Phase::FindGroup { g } => data.groups@.len() - g,
        Phase::CreateGroup { g } => data.groups@.len() - g,
        Phase::ClearGroup { g } => data.groups@.len() - g,
        Phase::FindGroupMember { g, .. } => data.groups@.len() - g,
        Phase::AddGroupMember { g, .. } => data.groups@.len() - g,
        Phase::CountBeforeDelete { listed, j } => listed@.len() - j,
        Phase::DeleteMember { listed, j } => listed@.len() - j,
        _ => match handling(phase) {
            Some(i) => data.members@.len() - i,
            None => 0,
        },
    }
}

/// How many members the directory gives group `g`.
pub open spec fn group_size(data: OrgImportData, g: usize) -> int {
    data.groups@[g as int].member_external_ids@.len() as int
}

/// How many pieces of work are left, at most, for the person, group or listed
/// member at hand.
pub open spec fn steps(data: OrgImportData, phase: Phase) -> int {
    match phase {
        Phase::FindMember { .. } => 10,
        Phase::CountBeforeRevoke { .. } => 4,
        Phase::Revoke { .. } => 3,
        Phase::Restore { .. } => 3,
        Phase::SetExternalId { .. } => 2,
        Phase::SaveMember { .. } => 1,
        Phase::FindUser { .. } => 9,
        Phase::CreateUser { .. } => 8,
        Phase::SaveInvitation { .. } => 7,
        Phase::HashMasterKey { .. } => 6,
        Phase::HashMasterPassword { .. } => 5,
        Phase::SetPassword { .. } => 4,
        Phase::SaveUser { .. } => 3,
        Phase::FindOrganization { .. } => 2,
        Phase::CreateMember { .. } => 1,
        Phase::SendInvite { .. } => 0,
        Phase::FindGroup { g } => 2 * group_size(data, g) + 4,
        Phase::CreateGroup { g } => 2 * group_size(data, g) + 3,
        Phase::ClearGroup { g } => 2 * group_size(data, g) + 2,
        Phase::FindGroupMember { g, k } => 2 * (group_size(data, g) - k) + 1,
        Phase::AddGroupMember { g, k } => 2 * (group_size(data, g) - k),
        Phase::CountBeforeDelete { .. } => 1,
        _ => 0,
    }
}

/// Where an import stands after a number of reports.
pub open spec fn after(
    data: OrgImportData,
    settings: ImportSettings,
    phase: Phase,
    reports: Seq<Event>,
) -> Phase
    decreases reports.len(),
{
    if reports.len() == 0 {
        phase
    } else {
        after(data, settings, next(data, settings, phase, reports[0]), reports.skip(1))
    }
}

pub(crate) proof fn lemma_sweep_goes_on(
    data: OrgImportData,
    settings: ImportSettings,
    listed: Vec<ListedMember>,
    from: int,
)
    requires
        0 <= from <= listed@.len(),
    ensures
        ({
            let phase = sweep(data, settings, listed, from);
            match phase {
                Phase::CountBeforeDelete { listed: rest, j } => rest == listed && from <= j
                    < listed@.len() && stale(data, listed@[j as int])
                    && settings.codes.confirmed_owner(
                    listed@[j as int].atype,
                    listed@[j as int].status,
                ),
                Phase::DeleteMember { listed: rest, j } => rest == listed && from <= j
                    < listed@.len() && stale(data, listed@[j as int])
                    && !settings.codes.confirmed_owner(
                    listed@[j as int].atype,
                    listed@[j as int].status,
                ),
                _ => phase == Phase::Done(Ok(())),
            }
        }),
    decreases listed@.len() - from,
{
    assert(listed.len() == listed@.len());
    if from < listed@.len() && !stale(data, listed@[from]) {
        lemma_sweep_goes_on(data, settings, listed, from + 1);
    }
}

/// Every report on the work that is due brings the import closer to its end, so
/// an import whose work is always reported on ends.
pub proof fn every_answer_makes_progress(run: ImportState, event: Event)
    requires
        run.wf(),
        answers(run.phase, event),
    ensures
        decreases_to!(
            stage(run.phase), left(run.data, run.phase), steps(run.data, run.phase)
            => stage(next(run.data, run.settings, run.phase, event)),
            left(run.data, next(run.data, run.settings, run.phase, event)),
            steps(run.data, next(run.data, run.settings, run.phase, event))
        ),
{
    assert(run.data.members.len() == run.data.members@.len());
    assert(run.data.groups.len() == run.data.groups@.len());
    match (run.phase, event) {
        (Phase::FindGroupMember { g, k }, _) => {
            let ids = run.data.groups@[g as int].member_external_ids;
            assert(ids.len() == ids@.len());
        },
        (Phase::AddGroupMember { g, k }, _) => {
            let ids = run.data.groups@[g as int].member_external_ids;
            assert(ids.len() == ids@.len());
        },
        (Phase::ListMembers, Event::Listed(listed)) => {
            lemma_sweep_goes_on(run.data, run.settings, listed, 0);
        },
        (Phase::CountBeforeDelete { listed, j }, _) => {
            lemma_sweep_goes_on(run.data, run.settings, listed, j + 1);
        },
        (Phase::DeleteMember { listed, j }, _) => {
            lemma_sweep_goes_on(run.data, run.settings, listed, j + 1);
        },
        _ => {},
    }
}

/// A report on work that is not due changes nothing.
pub proof fn stray_reports_change_nothing(run: ImportState, event: Event)
    requires
        !answers(run.phase, event),
    ensures
        next(run.data, run.settings, run.phase, event) == run.phase,
{
}

/// A member is revoked only if they are not a confirmed owner, or if the
/// organization has just been found to have more than one confirmed owner. The
/// same holds of removing a member. So the last confirmed owner stays.
pub proof fn last_confirmed_owner_stays(run: ImportState, event: Event)
    requires
        run.wf(),
        answers(run.phase, event),
    ensures
        next(run.data, run.settings, run.phase, event) is Revoke ==> {
            ||| event matches Event::MemberFound(Some(member))
                && !run.settings.codes.confirmed_owner(member.atype, member.status)
            ||| event matches Event::Counted(owners) && owners > 1
        },
        next(run.data, run.settings, run.phase, event) matches Phase::DeleteMember { listed, j }
            ==> {
            ||| !run.settings.codes.confirmed_owner(
                listed@[j as int].atype,
                listed@[j as int].status,
            )
            ||| run.phase == (Phase::CountBeforeDelete { listed, j }) && (event matches
                Event::Counted(owners) && owners > 1)
        },
{
    match (run.phase, event) {
        (Phase::ListMembers, Event::Listed(listed)) => {
            lemma_sweep_goes_on(run.data, run.settings, listed, 0);
        },
        (Phase::CountBeforeDelete { listed, j }, _) => {
            lemma_sweep_goes_on(run.data, run.settings, listed, j + 1);
        },
        (Phase::DeleteMember { listed, j }, _) => {
            lemma_sweep_goes_on(run.data, run.settings, listed, j + 1);
        },
        _ => {},
    }
}

/// Nobody is removed unless the directory asked to overwrite, and only members
/// with an external id that the directory does not list.
pub proof fn only_unlisted_members_are_removed(run: ImportState, action: Action)
    requires
        run.wf(),
        asks(run.data, run.settings, run.phase, action),
        action is DeleteListed,
    ensures
        run.data.overwrite_existing,
        run.phase matches Phase::DeleteMember { listed, j } && action == (Action::DeleteListed {
            index: j,
        }) && j < listed@.len() && stale(run.data, listed@[j as int]),
{
}

/// Where groups are disabled, no group is looked up, made, emptied or filled.
pub proof fn disabled_groups_stay_untouched(run: ImportState, action: Action)
    requires
        run.wf(),
        asks(run.data, run.settings, run.phase, action),
        !run.settings.groups_enabled,
    ensures
        !(action is FindGroup),
        !(action is CreateGroup),
        !(action is ClearGroup),
        !(action is FindMemberByExternalId),
        !(action is AddGroupMember),
{
}

/// Whoever joins by an import is an accepted ordinary user without access to
/// everything, so there is no invitation left to accept.
pub proof fn new_members_are_accepted_users(run: ImportState, action: Action)
    requires
        asks(run.data, run.settings, run.phase, action),
    ensures
        action matches Action::CreateMember { access_all, atype, status, .. } ==> !access_all
            && atype == run.settings.codes.user && status == run.settings.codes.accepted,
{
}

/// When a storage operation fails, the import ends with its error.
pub proof fn storage_failures_end_the_import(run: ImportState, error: String)
    requires
        answers(run.phase, Event::Stored(Err(error))),
    ensures
        next(run.data, run.settings, run.phase, Event::Stored(Err(error))) == Phase::Done(
            Err(ImportError::Storage(error)),
        ),
{
}

/// When an invitation cannot be sent, what the import made for it is deleted -
/// the account if it is new, else the membership - and the import ends with
/// the mailer's error.
pub proof fn failed_invites_are_undone(run: ImportState, error: String)
    requires
        run.phase is SendInvite,
    ensures
        ({
            let undo = next(
                run.data,
                run.settings,
                run.phase,
                Event::InviteSent(Err(error)),
            );
            let end = next(run.data, run.settings, undo, Event::Stored(Ok(())));
            &&& undo == (if run.phase->SendInvite_created {
                Phase::UndoUser { error }
            } else {
                Phase::UndoMember { error }
            })
            &&& end == Phase::Done(Err(ImportError::Invite(error)))
        }),
{
}

/// People are handled one after another, in the order in which the directory
/// lists them: from person `i` the import goes on with the same person, with
/// the next one, or to an error.
pub proof fn people_are_handled_in_order(run: ImportState, event: Event)
    requires
        handling(run.phase) is Some,
    ensures
        ({
            let phase = next(run.data, run.settings, run.phase, event);
            let i = handling(run.phase)->0;
            ||| handling(phase) == Some(i)
            ||| phase == member_or_after(run.data, run.settings, i + 1)
            ||| failing(phase)
        }),
{
}

proof fn lemma_failing_stays(
    data: OrgImportData,
    settings: ImportSettings,
    phase: Phase,
    reports: Seq<Event>,
)
    requires
        failing(phase),
    ensures
        failing(after(data, settings, phase, reports)),
    decreases reports.len(),
{
    if reports.len() > 0 {
        lemma_failing_stays(data, settings, next(data, settings, phase, reports[0]), reports.skip(1));
    }
}

proof fn lemma_person_is_reached(
    data: OrgImportData,
    settings: ImportSettings,
    phase: Phase,
    reports: Seq<Event>,
    goal: int,
)
    requires
        handling(phase) matches Some(i) && (i < goal || phase == (Phase::FindMember {
            i: goal as usize,
        })),
        0 <= goal < data.members@.len(),
        after(data, settings, phase, reports) == Phase::Done(Ok(())),
    ensures
        exists|n: int|
            0 <= n <= reports.len() && #[trigger] after(data, settings, phase, reports.take(n)) == (
            Phase::FindMember { i: goal as usize }),
    decreases reports.len(),
{
    assert(data.members.len() == data.members@.len());
    if phase == (Phase::FindMember { i: goal as usize }) {
        assert(after(data, settings, phase, reports.take(0)) == phase);
    } else {
        let follower = next(data, settings, phase, reports[0]);
        let i = handling(phase)->0;
        people_are_handled_in_order(
            ImportState { org_id: arbitrary(), data, settings, phase },
            reports[0],
        );
        if failing(follower) {
            lemma_failing_stays(data, settings, follower, reports.skip(1));
        }
        lemma_person_is_reached(data, settings, follower, reports.skip(1), goal);
        let n = choose|n: int|
            0 <= n <= reports.skip(1).len() && #[trigger] after(
                data,
                settings,
                follower,
                reports.skip(1).take(n),
            ) == (Phase::FindMember { i: goal as usize });
        let prefix = reports.take(n + 1);
        assert(prefix.skip(1) =~= reports.skip(1).take(n));
        assert(prefix[0] == reports[0]);
        assert(after(data, settings, phase, prefix) == (Phase::FindMember { i: goal as usize }));
    }
}

/// An import that ends well has looked up everyone whom the directory lists.
pub proof fn a_good_end_leaves_nobody_out(
    data: OrgImportData,
    settings: ImportSettings,
    reports: Seq<Event>,
    person: int,
)
    requires
        0 <= person < data.members@.len(),
        after(data, settings, member_or_after(data, settings, 0), reports) == Phase::Done(Ok(())),
    ensures
        exists|n: int|
            0 <= n <= reports.len() && #[trigger] after(
                data,
                settings,
                member_or_after(data, settings, 0),
                reports.take(n),
            ) == (Phase::FindMember { i: person as usize }),
{
    lemma_person_is_reached(data, settings, member_or_after(data, settings, 0), reports, person);
}

/// The group that the import is busy with.
pub open spec fn grouping(phase: Phase) -> Option<int> {
    match phase {
        Phase::FindGroup { g } => Some(g as int),
        Phase::CreateGroup { g } => Some(g as int),
        Phase::ClearGroup { g } => Some(g as int),
        Phase::FindGroupMember { g, .. } => Some(g as int),
        Phase::AddGroupMember { g, .. } => Some(g as int),
        _ => None,
    }
}

/// Groups are handled one after another, in the order in which the directory
/// lists them: from group `g` the import goes on with the same group, with the
/// next one, or to an error.
pub proof fn groups_are_handled_in_order(run: ImportState, event: Event)
    requires
        grouping(run.phase) is Some,
    ensures
        ({
            let phase = next(run.data, run.settings, run.phase, event);
            let g = grouping(run.phase)->0;
            ||| grouping(phase) == Some(g)
            ||| phase == group_or_after(run.data, run.settings, g + 1)
            ||| failing(phase)
        }),
{
}

proof fn lemma_group_is_reached(
    data: OrgImportData,
    settings: ImportSettings,
    phase: Phase,
    reports: Seq<Event>,
    goal: int,
)
    requires
        settings.groups_enabled,
        handling(phase) is Some || (grouping(phase) matches Some(g) && (g < goal || phase == (
        Phase::FindGroup { g: goal as usize }))),
        handling(phase) matches Some(i) ==> i < data.members@.len(),
        0 <= goal < data.groups@.len(),
        after(data, settings, phase, reports) == Phase::Done(Ok(())),
    ensures
        exists|n: int|
            0 <= n <= reports.len() && #[trigger] after(data, settings, phase, reports.take(n)) == (
            Phase::FindGroup { g: goal as usize }),
    decreases reports.len(),
{
    assert(data.members.len() == data.members@.len());
    assert(data.groups.len() == data.groups@.len());
    if phase == (Phase::FindGroup { g: goal as usize }) {
        assert(after(data, settings, phase, reports.take(0)) == phase);
    } else {
        let follower = next(data, settings, phase, reports[0]);
        let run = ImportState { org_id: arbitrary(), data, settings, phase };
        if handling(phase) is Some {
            people_are_handled_in_order(run, reports[0]);
        } else {
            groups_are_handled_in_order(run, reports[0]);
        }
        if failing(follower) {
            lemma_failing_stays(data, settings, follower, reports.skip(1));
        }
        lemma_group_is_reached(data, settings, follower, reports.skip(1), goal);
        let n = choose|n: int|
            0 <= n <= reports.skip(1).len() && #[trigger] after(
                data,
                settings,
                follower,
                reports.skip(1).take(n),
            ) == (Phase::FindGroup { g: goal as usize });
        let prefix = reports.take(n + 1);
        assert(prefix.skip(1) =~= reports.skip(1).take(n));
        assert(prefix[0] == reports[0]);
        assert(after(data, settings, phase, prefix) == (Phase::FindGroup { g: goal as usize }));
    }
}

/// Where groups are enabled, an import that ends well has looked up every group
/// that the directory lists.
pub proof fn a_good_end_leaves_no_group_out(
    data: OrgImportData,
    settings: ImportSettings,
    reports: Seq<Event>,
    group: int,
)
    requires
        settings.groups_enabled,
        0 <= group < data.groups@.len(),
        after(data, settings, member_or_after(data, settings, 0), reports) == Phase::Done(Ok(())),
    ensures
        exists|n: int|
            0 <= n <= reports.len() && #[trigger] after(
                data,
                settings,
                member_or_after(data, settings, 0),
                reports.take(n),
            ) == (Phase::FindGroup { g: group as usize }),
{
    lemma_group_is_reached(data, settings, member_or_after(data, settings, 0), reports, group);
}

/// What is due for a stale member of a listing: a confirmed owner goes only
/// after the owners have been counted.
pub open spec fn removal(
    settings: ImportSettings,
    listed: Vec<ListedMember>,
    j: int,
) -> Phase {
    if settings.codes.confirmed_owner(listed@[j].atype, listed@[j].status) {
        Phase::CountBeforeDelete { listed, j: j as usize }
    } else {
        Phase::DeleteMember { listed, j: j as usize }
    }
}

/// The import is busy with the removal of a member before `goal`, or comes to
/// the one at `goal`.
pub open spec fn on_the_way(
    settings: ImportSettings,
    listed: Vec<ListedMember>,
    goal: int,
    phase: Phase,
) -> bool {
    ||| phase == removal(settings, listed, goal)
    ||| phase matches Phase::CountBeforeDelete { listed: rest, j } && rest == listed && j < goal
    ||| phase matches Phase::DeleteMember { listed: rest, j } && rest == listed && j < goal
}

proof fn lemma_sweep_does_not_pass(
    data: OrgImportData,
    settings: ImportSettings,
    listed: Vec<ListedMember>,
    from: int,
    goal: int,
)
    requires
        0 <= from <= goal < listed@.len(),
        stale(data, listed@[goal]),
    ensures
        on_the_way(settings, listed, goal, sweep(data, settings, listed, from)),
    decreases goal - from,
{
    assert(listed.len() == listed@.len());
    if from < goal && !stale(data, listed@[from]) {
        lemma_sweep_does_not_pass(data, settings, listed, from + 1, goal);
    }
}

proof fn lemma_removal_is_reached(
    data: OrgImportData,
    settings: ImportSettings,
    listed: Vec<ListedMember>,
    goal: int,
    phase: Phase,
    reports: Seq<Event>,
)
    requires
        0 <= goal < listed@.len(),
        stale(data, listed@[goal]),
        on_the_way(settings, listed, goal, phase),
        after(data, settings, phase, reports) == Phase::Done(Ok(())),
    ensures
        exists|n: int|
            0 <= n <= reports.len() && #[trigger] after(data, settings, phase, reports.take(n))
                == removal(settings, listed, goal),
    decreases reports.len(),
{
    let target = removal(settings, listed, goal);
    if phase == target {
        assert(after(data, settings, phase, reports.take(0)) == phase);
    } else {
        let follower = next(data, settings, phase, reports[0]);
        match phase {
            Phase::CountBeforeDelete { j, .. } => {
                lemma_sweep_does_not_pass(data, settings, listed, j + 1, goal);
            },
            Phase::DeleteMember { j, .. } => {
                lemma_sweep_does_not_pass(data, settings, listed, j + 1, goal);
            },
            _ => {},
        }
        if failing(follower) {
            lemma_failing_stays(data, settings, follower, reports.skip(1));
        }
        lemma_removal_is_reached(data, settings, listed, goal, follower, reports.skip(1));
        let n = choose|n: int|
            0 <= n <= reports.skip(1).len() && #[trigger] after(
                data,
                settings,
                follower,
                reports.skip(1).take(n),
            ) == target;
        let prefix = reports.take(n + 1);
        assert(prefix.skip(1) =~= reports.skip(1).take(n));
        assert(prefix[0] == reports[0]);
        assert(after(data, settings, phase, prefix) == target);
    }
}

/// Once the members have been listed, an import that ends well has come to every
/// stale one: it asks for their removal, or, for a confirmed owner, counts the
/// owners first.
pub proof fn a_good_end_leaves_no_stale_member_out(
    data: OrgImportData,
    settings: ImportSettings,
    listed: Vec<ListedMember>,
    reports: Seq<Event>,
    member: int,
)
    requires
        0 <= member < listed@.len(),
        stale(data, listed@[member]),
        after(
            data,
            settings,
            next(data, settings, Phase::ListMembers, Event::Listed(listed)),
            reports,
        ) == Phase::Done(Ok(())),
    ensures
        exists|n: int|
            0 <= n <= reports.len() && #[trigger] after(
                data,
                settings,
                next(data, settings, Phase::ListMembers, Event::Listed(listed)),
                reports.take(n),
            ) == removal(settings, listed, member),
{
    lemma_sweep_does_not_pass(data, settings, listed, 0, member);
    lemma_removal_is_reached(
        data,
        settings,
        listed,
        member,
        sweep(data, settings, listed, 0),
        reports,
    );
}

} // verus!
