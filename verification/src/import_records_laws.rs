//! What holds of the records after any import, whether it ends well or not.
use crate::import_records::{
    goes, history, is_owner, just, memberships_of, owners, valid_records, without_member,
    without_members, without_user, works, ImportPoint, MemberRecord, RecordRules, Records,
};
use crate::ldap_import::{
    sweep, Action, Event, ImportSettings, ListedMember, OrgImportData, Phase,
};
use crate::ldap_import_laws::lemma_sweep_goes_on;
use crate::membership::RoleCodes;
use vstd::prelude::*;

verus! {

/// A member that was found is being changed.
spec fn editing(phase: Phase) -> bool {
    ||| phase is CountBeforeRevoke
    ||| phase is Revoke
    ||| phase is Restore
    ||| phase is SetExternalId
    ||| phase is SaveMember
}

/// An account is there for the person at hand; `Some(true)` if it is new.
spec fn account(phase: Phase) -> Option<bool> {
    match phase {
        Phase::SaveInvitation { .. } => Some(true),
        Phase::HashMasterKey { created, .. } => Some(created),
        Phase::HashMasterPassword { created, .. } => Some(created),
        Phase::SetPassword { created, .. } => Some(created),
        Phase::SaveUser { created, .. } => Some(created),
        Phase::FindOrganization { created, .. } => Some(created),
        Phase::CreateMember { created, .. } => Some(created),
        Phase::SendInvite { created, .. } => Some(created),
        Phase::UndoUser { .. } => Some(true),
        Phase::UndoMember { .. } => Some(false),
        _ => None,
    }
}

/// A membership has been made for the person at hand.
spec fn joined(phase: Phase) -> bool {
    phase is SendInvite || phase is UndoUser || phase is UndoMember
}

/// The listing and the place in it, while members are removed.
spec fn removing(phase: Phase) -> Option<(Seq<ListedMember>, int)> {
    match phase {
        Phase::CountBeforeDelete { listed, j } => Some((listed@, j as int)),
        Phase::DeleteMember { listed, j } => Some((listed@, j as int)),
        _ => None,
    }
}

/// A group of the organization is being filled.
spec fn filling(phase: Phase) -> bool {
    phase is ClearGroup || phase is FindGroupMember || phase is AddGroupMember
}

/// What the connection remembers fits the phase.
spec fn in_place(org: Seq<char>, point: ImportPoint) -> bool {
    let stored = point.stored;
    let members = stored.records.members;
    &&& valid_records(stored.records)
    &&& editing(point.phase) ==> {
        &&& members.contains_key(stored.member)
        &&& members[stored.member].org == org
        &&& stored.draft.org == org
        &&& stored.draft.user == members[stored.member].user
        &&& stored.draft.atype == members[stored.member].atype
    }
    &&& account(point.phase) is Some ==> stored.records.users.contains_key(stored.user)
    &&& account(point.phase) == Some(true) ==> forall|id: int| #[trigger]
        members.contains_key(id) && members[id].user == stored.user ==> joined(point.phase) && id
            == stored.created
    &&& joined(point.phase) ==> {
        &&& members.contains_key(stored.created)
        &&& members[stored.created].org == org
    }
    &&& removing(point.phase) matches Some((listed, j)) ==> {
        &&& 0 <= j < listed.len()
        &&& stored.listing.len() == listed.len()
        &&& stored.listing.no_duplicates()
        &&& forall|k: int|
            j <= k < listed.len() ==> {
                let id = #[trigger] stored.listing[k];
                &&& members.contains_key(id)
                &&& members[id].org == org
                &&& members[id].atype == listed[k].atype
                &&& members[id].status == listed[k].status
            }
    }
    &&& filling(point.phase) ==> stored.records.groups.contains_key(stored.group)
        && stored.records.groups[stored.group].org == org
    &&& point.phase is AddGroupMember ==> members.contains_key(stored.found)
        && members[stored.found].org == org
}

/// What is left when memberships go.
proof fn lemma_without_members(records: Records, gone: spec_fn(int) -> bool)
    requires
        records.members.dom().finite(),
    ensures
        ({
            let left = without_members(records, gone);
            &&& left.members.dom().finite()
            &&& forall|id: int| #[trigger]
                left.members.contains_key(id) <==> records.members.contains_key(id) && !gone(id)
            &&& forall|id: int| #[trigger]
                left.members.contains_key(id) ==> left.members[id] == records.members[id]
            &&& forall|pair: (int, int)| #[trigger]
                left.group_members.contains(pair) <==> records.group_members.contains(pair)
                    && !gone(pair.1)
        }),
{
    let left = without_members(records, gone);
    assert(left.members.dom() =~= records.members.dom().filter(|id: int| !gone(id)));
}

/// What is left when a membership goes.
pub(crate) proof fn lemma_without_member(records: Records, member: int)
    requires
        valid_records(records),
    ensures
        ({
            let left = without_member(records, member);
            &&& valid_records(left)
            &&& forall|id: int| #[trigger]
                left.members.contains_key(id) <==> records.members.contains_key(id) && id != member
            &&& forall|id: int| #[trigger]
                left.members.contains_key(id) ==> left.members[id] == records.members[id]
            &&& forall|pair: (int, int)| #[trigger]
                left.group_members.contains(pair) <==> records.group_members.contains(pair)
                    && pair.1 != member
        }),
{
    lemma_without_members(records, just(member));
    let left = without_member(records, member);
    assert forall|pair: (int, int)| #[trigger] left.group_members.contains(pair) implies {
        &&& left.groups.contains_key(pair.0)
        &&& left.members.contains_key(pair.1)
        &&& left.groups[pair.0].org == left.members[pair.1].org
    } by {
        assert(records.group_members.contains(pair));
        assert(left.members.contains_key(pair.1));
    }
}

/// What is left when an account goes.
proof fn lemma_without_user(records: Records, user: int)
    requires
        valid_records(records),
    ensures
        ({
            let left = without_user(records, user);
            &&& valid_records(left)
            &&& forall|id: int| #[trigger]
                left.members.contains_key(id) <==> records.members.contains_key(id)
                    && records.members[id].user != user
            &&& forall|id: int| #[trigger]
                left.members.contains_key(id) ==> left.members[id] == records.members[id]
            &&& forall|pair: (int, int)| #[trigger]
                left.group_members.contains(pair) <==> records.group_members.contains(pair)
                    && records.members[pair.1].user != user
        }),
{
    lemma_without_members(records, memberships_of(records.members, user));
    let left = without_user(records, user);
    assert forall|pair: (int, int)| #[trigger] left.group_members.contains(pair) implies {
        &&& left.groups.contains_key(pair.0)
        &&& left.members.contains_key(pair.1)
        &&& left.groups[pair.0].org == left.members[pair.1].org
    } by {
        assert(records.group_members.contains(pair));
        assert(left.members.contains_key(pair.1));
    }
}

/// What `sweep` gives from a place in a listing.
proof fn lemma_after_sweep(
    data: OrgImportData,
    settings: ImportSettings,
    listed: Vec<ListedMember>,
    from: int,
)
    requires
        0 <= from <= listed@.len(),
    ensures
        ({
            let phase = sweep(data, settings, listed, from);
            &&& phase is CountBeforeDelete || phase is DeleteMember || phase is Done
            &&& removing(phase) matches Some((rest, j)) ==> rest == listed@ && from <= j
                < listed@.len()
            &&& phase matches Phase::DeleteMember { listed: rest, j } ==> rest == listed
                && !settings.codes.confirmed_owner(
                listed@[j as int].atype,
                listed@[j as int].status,
            )
            &&& phase matches Phase::CountBeforeDelete { listed: rest, j } ==> rest == listed
        }),
{
    lemma_sweep_goes_on(data, settings, listed, from);
}

#[verifier::rlimit(60)]
proof fn lemma_in_place_goes_on(
    data: OrgImportData,
    settings: ImportSettings,
    org: Seq<char>,
    rules: RecordRules,
    from: ImportPoint,
    action: Action,
    event: Event,
    to: ImportPoint,
)
    requires
        in_place(org, from),
        works(data, settings, org, rules, from, action, event, to),
    ensures
        in_place(org, to),
{
    match from.phase {
        Phase::UndoUser { .. } => {
            lemma_without_user(from.stored.records, from.stored.user);
        },
        Phase::UndoMember { .. } => {
            lemma_without_member(from.stored.records, from.stored.created);
        },
        Phase::ListMembers => {
            lemma_after_sweep(data, settings, event->Listed_0, 0);
        },
        Phase::CountBeforeDelete { listed, j } => {
            lemma_after_sweep(data, settings, listed, j + 1);
        },
        Phase::DeleteMember { listed, j } => {
            lemma_after_sweep(data, settings, listed, j + 1);
            lemma_without_member(from.stored.records, from.stored.listing[j as int]);
        },
        _ => {},
    }
}

/// The organization has a confirmed owner.
pub open spec fn has_owner(
    codes: RoleCodes,
    org: Seq<char>,
    members: Map<int, MemberRecord>,
) -> bool {
    exists|id: int| is_owner(codes, org, members, id)
}

/// The organization has a confirmed owner besides this member.
spec fn has_other_owner(
    codes: RoleCodes,
    org: Seq<char>,
    members: Map<int, MemberRecord>,
    member: int,
) -> bool {
    exists|id: int| id != member && is_owner(codes, org, members, id)
}

/// The organization has a confirmed owner, and what is under way leaves one.
spec fn guarded(codes: RoleCodes, org: Seq<char>, point: ImportPoint) -> bool {
    let stored = point.stored;
    let members = stored.records.members;
    &&& has_owner(codes, org, members)
    &&& point.phase is CountBeforeRevoke || point.phase is Revoke || point.phase is Restore
        ==> stored.draft == members[stored.member]
    &&& joined(point.phase) ==> has_other_owner(codes, org, members, stored.created)
    &&& point.phase is Revoke && is_owner(codes, org, members, stored.member) ==> has_other_owner(
        codes,
        org,
        members,
        stored.member,
    )
    &&& point.phase is SetExternalId || point.phase is SaveMember ==> has_owner(
        codes,
        org,
        members.insert(stored.member, stored.draft),
    )
    &&& point.phase matches Phase::DeleteMember { j, .. } ==> (is_owner(
        codes,
        org,
        members,
        stored.listing[j as int],
    ) ==> has_other_owner(codes, org, members, stored.listing[j as int]))
}

/// Where more than one confirmed owner is counted, there is another one.
proof fn lemma_count_tells(
    codes: RoleCodes,
    org: Seq<char>,
    members: Map<int, MemberRecord>,
    member: int,
)
    requires
        members.dom().finite(),
        owners(codes, org, members).len() > 1,
    ensures
        has_other_owner(codes, org, members, member),
{
    let all = owners(codes, org, members);
    let rest = all.remove(member);
    assert(all.finite());
    assert(rest.len() > 0);
    let id = rest.choose();
    assert(rest.contains(id));
    assert(is_owner(codes, org, members, id));
}

/// A change of a member that leaves another owner, or is of no owner, leaves an
/// owner.
proof fn lemma_owner_left(
    codes: RoleCodes,
    org: Seq<char>,
    members: Map<int, MemberRecord>,
    member: int,
    changed: Map<int, MemberRecord>,
)
    requires
        has_owner(codes, org, members),
        is_owner(codes, org, members, member) ==> has_other_owner(codes, org, members, member),
        forall|id: int|
            id != member && #[trigger] members.contains_key(id) ==> changed.contains_key(id)
                && changed[id] == members[id],
    ensures
        has_owner(codes, org, changed),
{
    let id = if is_owner(codes, org, members, member) {
        choose|id: int| id != member && is_owner(codes, org, members, id)
    } else {
        choose|id: int| is_owner(codes, org, members, id)
    };
    assert(members.contains_key(id));
    assert(is_owner(codes, org, changed, id));
}

#[verifier::rlimit(60)]
proof fn lemma_guarded_goes_on(
    data: OrgImportData,
    settings: ImportSettings,
    org: Seq<char>,
    rules: RecordRules,
    from: ImportPoint,
    action: Action,
    event: Event,
    to: ImportPoint,
)
    requires
        (rules.restored)(settings.codes.confirmed) == settings.codes.confirmed,
        in_place(org, from),
        guarded(settings.codes, org, from),
        works(data, settings, org, rules, from, action, event, to),
    ensures
        guarded(settings.codes, org, to),
{
    let codes = settings.codes;
    let stored = from.stored;
    let members = stored.records.members;
    let after = to.stored.records.members;
    match from.phase {
        Phase::CountBeforeRevoke { .. } => {
            if event->Counted_0 > 1 {
                lemma_count_tells(codes, org, members, stored.member);
            }
            assert(members.insert(stored.member, stored.draft) =~= members);
        },
        Phase::Revoke { .. } => {
            lemma_owner_left(
                codes,
                org,
                members,
                stored.member,
                members.insert(stored.member, to.stored.draft),
            );
        },
        Phase::Restore { .. } => {
            let id = choose|id: int| is_owner(codes, org, members, id);
            assert(is_owner(codes, org, members.insert(stored.member, to.stored.draft), id));
        },
        Phase::SetExternalId { .. } => {
            let old_rows = members.insert(stored.member, stored.draft);
            let id = choose|id: int| is_owner(codes, org, old_rows, id);
            assert(is_owner(codes, org, members.insert(stored.member, to.stored.draft), id));
        },
        Phase::CreateMember { .. } => {
            let id = choose|id: int| is_owner(codes, org, members, id);
            assert(is_owner(codes, org, after, id));
        },
        Phase::UndoUser { .. } => {
            lemma_without_user(stored.records, stored.user);
            let id = choose|id: int| id != stored.created && is_owner(codes, org, members, id);
            assert(members.contains_key(id));
            assert(is_owner(codes, org, after, id));
        },
        Phase::UndoMember { .. } => {
            lemma_without_member(stored.records, stored.created);
            lemma_owner_left(codes, org, members, stored.created, after);
        },
        Phase::ListMembers => {
            lemma_after_sweep(data, settings, event->Listed_0, 0);
        },
        Phase::CountBeforeDelete { listed, j } => {
            lemma_after_sweep(data, settings, listed, j + 1);
            if event->Counted_0 > 1 {
                lemma_count_tells(codes, org, members, stored.listing[j as int]);
            }
        },
        Phase::DeleteMember { listed, j } => {
            lemma_after_sweep(data, settings, listed, j + 1);
            let gone = stored.listing[j as int];
            if event->Stored_0 is Ok {
                lemma_without_member(stored.records, gone);
                lemma_owner_left(codes, org, members, gone, after);
            }
        },
        _ => {},
    }
}

proof fn lemma_points_in_place(
    data: OrgImportData,
    settings: ImportSettings,
    org: Seq<char>,
    rules: RecordRules,
    points: Seq<ImportPoint>,
    k: int,
)
    requires
        history(data, settings, org, rules, points),
        valid_records(points[0].stored.records),
        0 <= k < points.len(),
    ensures
        in_place(org, points[k]),
    decreases k,
{
    if k > 0 {
        lemma_points_in_place(data, settings, org, rules, points, k - 1);
        let from = points[k - 1];
        let to = points[k];
        assert(goes(data, settings, org, rules, from, to));
        let (action, event) = choose|action: Action, event: Event| #[trigger]
            works(data, settings, org, rules, from, action, event, to);
        lemma_in_place_goes_on(data, settings, org, rules, from, action, event, to);
    }
}

/// Records stay valid.
pub(crate) proof fn lemma_points_valid(
    data: OrgImportData,
    settings: ImportSettings,
    org: Seq<char>,
    rules: RecordRules,
    points: Seq<ImportPoint>,
    k: int,
)
    requires
        history(data, settings, org, rules, points),
        valid_records(points[0].stored.records),
        0 <= k < points.len(),
    ensures
        valid_records(points[k].stored.records),
{
    lemma_points_in_place(data, settings, org, rules, points, k);
}

proof fn lemma_points_guarded(
    data: OrgImportData,
    settings: ImportSettings,
    org: Seq<char>,
    rules: RecordRules,
    points: Seq<ImportPoint>,
    k: int,
)
    requires
        history(data, settings, org, rules, points),
        valid_records(points[0].stored.records),
        has_owner(settings.codes, org, points[0].stored.records.members),
        (rules.restored)(settings.codes.confirmed) == settings.codes.confirmed,
        0 <= k < points.len(),
    ensures
        guarded(settings.codes, org, points[k]),
    decreases k,
{
    if k > 0 {
        lemma_points_guarded(data, settings, org, rules, points, k - 1);
        lemma_points_in_place(data, settings, org, rules, points, k - 1);
        let from = points[k - 1];
        let to = points[k];
        assert(goes(data, settings, org, rules, from, to));
        let (action, event) = choose|action: Action, event: Event| #[trigger]
            works(data, settings, org, rules, from, action, event, to);
        lemma_guarded_goes_on(data, settings, org, rules, from, action, event, to);
    }
}

/// An organization with a confirmed owner has one at every point of an import,
/// and so after it, however it ends, where restoring leaves a confirmed member
/// confirmed.
pub proof fn an_organization_keeps_a_confirmed_owner(
    data: OrgImportData,
    settings: ImportSettings,
    org: Seq<char>,
    rules: RecordRules,
    points: Seq<ImportPoint>,
    k: int,
)
    requires
        history(data, settings, org, rules, points),
        valid_records(points[0].stored.records),
        has_owner(settings.codes, org, points[0].stored.records.members),
        (rules.restored)(settings.codes.confirmed) == settings.codes.confirmed,
        0 <= k < points.len(),
    ensures
        has_owner(settings.codes, org, points[k].stored.records.members),
{
    lemma_points_guarded(data, settings, org, rules, points, k);
}

/// What belongs to other organizations is as it was, and so are the accounts
/// that were there. Groups stay as they are where they are disabled.
pub open spec fn untouched(
    settings: ImportSettings,
    org: Seq<char>,
    before: Records,
    after: Records,
) -> bool {
    &&& forall|id: int| #[trigger]
        before.members.contains_key(id) && before.members[id].org != org
            ==> after.members.contains_key(id) && after.members[id] == before.members[id]
    &&& forall|id: int| #[trigger]
        after.members.contains_key(id) && after.members[id].org != org
            ==> before.members.contains_key(id) && before.members[id] == after.members[id]
    &&& forall|id: int| #[trigger]
        before.users.contains_key(id) ==> after.users.contains_key(id) && after.users[id]
            == before.users[id]
    &&& forall|id: int| #[trigger]
        before.groups.contains_key(id) ==> after.groups.contains_key(id) && after.groups[id]
            == before.groups[id]
    &&& forall|id: int| #[trigger]
        after.groups.contains_key(id) && !before.groups.contains_key(id) ==> after.groups[id].org
            == org
    &&& forall|pair: (int, int)|
        before.groups.contains_key(pair.0) && before.groups[pair.0].org != org ==> (
        #[trigger] after.group_members.contains(pair) <==> before.group_members.contains(pair))
    &&& !settings.groups_enabled ==> after.groups == before.groups
    &&& !settings.groups_enabled ==> forall|pair: (int, int)| #[trigger]
        after.group_members.contains(pair) ==> before.group_members.contains(pair)
}

/// The groups are being handled.
spec fn at_groups(phase: Phase) -> bool {
    phase is FindGroup || phase is CreateGroup || filling(phase)
}

#[verifier::rlimit(100)]
proof fn lemma_untouched_goes_on(
    data: OrgImportData,
    settings: ImportSettings,
    org: Seq<char>,
    rules: RecordRules,
    before: Records,
    from: ImportPoint,
    action: Action,
    event: Event,
    to: ImportPoint,
)
    requires
        valid_records(before),
        in_place(org, from),
        untouched(settings, org, before, from.stored.records),
        account(from.phase) == Some(true) ==> !before.users.contains_key(from.stored.user),
        at_groups(from.phase) ==> settings.groups_enabled,
        works(data, settings, org, rules, from, action, event, to),
    ensures
        untouched(settings, org, before, to.stored.records),
        account(to.phase) == Some(true) ==> !before.users.contains_key(to.stored.user),
        at_groups(to.phase) ==> settings.groups_enabled,
{
    let stored = from.stored;
    match from.phase {
        Phase::UndoUser { .. } => {
            lemma_without_user(stored.records, stored.user);
        },
        Phase::UndoMember { .. } => {
            lemma_without_member(stored.records, stored.created);
        },
        Phase::ListMembers => {
            lemma_after_sweep(data, settings, event->Listed_0, 0);
        },
        Phase::CountBeforeDelete { listed, j } => {
            lemma_after_sweep(data, settings, listed, j + 1);
        },
        Phase::DeleteMember { listed, j } => {
            lemma_after_sweep(data, settings, listed, j + 1);
            lemma_without_member(stored.records, stored.listing[j as int]);
        },
        _ => {},
    }
}

proof fn lemma_points_untouched(
    data: OrgImportData,
    settings: ImportSettings,
    org: Seq<char>,
    rules: RecordRules,
    points: Seq<ImportPoint>,
    k: int,
)
    requires
        history(data, settings, org, rules, points),
        valid_records(points[0].stored.records),
        0 <= k < points.len(),
    ensures
        untouched(settings, org, points[0].stored.records, points[k].stored.records),
        account(points[k].phase) == Some(true) ==> !points[0].stored.records.users.contains_key(
            points[k].stored.user,
        ),
        at_groups(points[k].phase) ==> settings.groups_enabled,
    decreases k,
{
    if k > 0 {
        lemma_points_untouched(data, settings, org, rules, points, k - 1);
        lemma_points_in_place(data, settings, org, rules, points, k - 1);
        let from = points[k - 1];
        let to = points[k];
        assert(goes(data, settings, org, rules, from, to));
        let (action, event) = choose|action: Action, event: Event| #[trigger]
            works(data, settings, org, rules, from, action, event, to);
        lemma_untouched_goes_on(
            data,
            settings,
            org,
            rules,
            points[0].stored.records,
            from,
            action,
            event,
            to,
        );
    }
}

/// An import leaves alone what belongs to other organizations: their
/// memberships, their groups and who is in them. Accounts that were there before
/// are there at every point, and where groups are disabled none is made or
/// changed.
pub proof fn an_import_stays_in_its_organization(
    data: OrgImportData,
    settings: ImportSettings,
    org: Seq<char>,
    rules: RecordRules,
    points: Seq<ImportPoint>,
    k: int,
)
    requires
        history(data, settings, org, rules, points),
        valid_records(points[0].stored.records),
        0 <= k < points.len(),
    ensures
        untouched(settings, org, points[0].stored.records, points[k].stored.records),
{
    lemma_points_untouched(data, settings, org, rules, points, k);
}

} // verus!
