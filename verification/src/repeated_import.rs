//! What holds of an import that is made twice.
use crate::import_groups::{
    before_removals, filled_up_to, finds, groups_at, has_group, is_filled, is_latest, is_meant,
    lemma_groups_go_on, the_group,
};
use crate::import_records::{
    external_candidates, external_found, goes, is_external, is_member, is_user, lists_members,
    valid_records, works, Import, ImportPoint, MemberRecord, Records,
};
use crate::import_records_laws::lemma_points_valid;
use crate::import_removals::{
    is_last_owner, is_stale, lemma_listed_stale, lemma_no_more_owners, lemma_sweep_on,
    lemma_sweeping_goes_on, some_gone, sweeping, swept,
};
use crate::ldap_import::{lists, sweep, Action, Event, ListedMember, OrgImportUserData, Phase};
use crate::ldap_import_laws::{failing, grouping, handling, lemma_sweep_goes_on};
use vstd::prelude::*;

verus! {

impl Import {
    /// The directory lists nobody twice, and the external ids of groups are
    /// stored as they are.
    pub open spec fn plain(self) -> bool {
        &&& forall|i: int, j: int|
            0 <= i < j < self.data.members@.len() ==> (#[trigger] self.person(i)).email@ != (
            #[trigger] self.person(j)).email@
        &&& self.keeps_group_ids()
    }

    /// Revoking and restoring twice is the same as once, revoking confirms
    /// nobody, and accepted members need no restoring. External ids are stored
    /// as they are or not at all. New members are no owners.
    pub open spec fn steady(self) -> bool {
        &&& forall|status: i32| #[trigger]
            (self.rules.revoked)((self.rules.revoked)(status)) == (self.rules.revoked)(status)
        &&& forall|status: i32| #[trigger]
            (self.rules.restored)((self.rules.restored)(status)) == (self.rules.restored)(status)
        &&& forall|status: i32| #[trigger]
            (self.rules.revoked)(status) == self.settings.codes.confirmed ==> status
                == self.settings.codes.confirmed
        &&& (self.rules.restored)(self.settings.codes.accepted) == self.settings.codes.accepted
        &&& forall|external_id: Seq<char>|
            (#[trigger] (self.rules.kept_id)(external_id)) is Some ==> (self.rules.kept_id)(
                external_id,
            ) == Some(external_id)
        &&& self.settings.codes.user != self.settings.codes.owner
    }

    /// The membership belongs to person `i`.
    pub open spec fn is_of(self, records: Records, i: int, id: int) -> bool {
        is_member(records.users, records.members, self.org, self.person(i).email@, id)
    }
}

/// Every email has one account, and every account one membership.
pub open spec fn one_each(org: Seq<char>, records: Records) -> bool {
    &&& forall|a: int, b: int|
        #![trigger records.users.contains_key(a), records.users.contains_key(b)]
        records.users.contains_key(a) && records.users.contains_key(b) && records.users[a]
            == records.users[b] ==> a == b
    &&& forall|a: int, b: int|
        #![trigger records.members.contains_key(a), records.members.contains_key(b)]
        records.members.contains_key(a) && records.members.contains_key(b)
            && records.members[a].org == org && records.members[b].org == org
            && records.members[a].user == records.members[b].user ==> a == b
}

/// Nobody whom the directory wants revoked is an owner.
pub open spec fn revokes_no_owner(im: Import, records: Records) -> bool {
    forall|i: int, id: int|
        0 <= i < im.data.members@.len() && im.person(i).deleted && #[trigger] im.is_of(
            records,
            i,
            id,
        ) ==> records.members[id].atype != im.settings.codes.owner
}

/// Nobody whom the directory wants restored becomes a confirmed owner by that.
pub open spec fn restores_no_owner(im: Import, records: Records) -> bool {
    forall|i: int, id: int|
        0 <= i < im.data.members@.len() && !im.person(i).deleted && #[trigger] im.is_of(
            records,
            i,
            id,
        ) && records.members[id].atype == im.settings.codes.owner && (im.rules.restored)(
            records.members[id].status,
        ) == im.settings.codes.confirmed ==> records.members[id].status
            == im.settings.codes.confirmed
}

/// A confirmed owner whom an overwriting directory does not list shares their
/// external id with no other member.
pub open spec fn unlisted_owners_stand_alone(im: Import, records: Records) -> bool {
    im.data.overwrite_existing ==> forall|a: int, b: int|
        #![trigger im.owns(records.members, a), records.members.contains_key(b)]
        im.owns(records.members, a) && is_stale(im, records.members, a)
            && records.members.contains_key(b) && records.members[b].org == im.org
            && records.members[b].external_id == records.members[a].external_id ==> a == b
}

/// The status needs no change for the person.
spec fn rests(
    im: Import,
    person: OrgImportUserData,
    members: Map<int, MemberRecord>,
    id: int,
) -> bool {
    let status = members[id].status;
    if person.deleted {
        (im.rules.revoked)(status) == status || is_last_owner(im, members, id)
    } else {
        (im.rules.restored)(status) == status
    }
}

/// The records say of the person what the directory says.
spec fn at_rest(
    im: Import,
    users: Map<int, Seq<char>>,
    members: Map<int, MemberRecord>,
    person: OrgImportUserData,
) -> bool {
    &&& forall|id: int| #[trigger]
        is_member(users, members, im.org, person.email@, id) ==> {
            &&& members[id].external_id == (im.rules.kept_id)(person.external_id@)
            &&& rests(im, person, members, id)
        }
    &&& !person.deleted ==> exists|id: int| is_member(users, members, im.org, person.email@, id)
}

/// How many people have been handled.
spec fn handled(im: Import, phase: Phase) -> int {
    match handling(phase) {
        Some(i) => i,
        None => im.data.members@.len() as int,
    }
}

/// The person has no membership.
spec fn no_member(im: Import, records: Records, i: int) -> bool {
    forall|id: int| !#[trigger] is_member(records.users, records.members, im.org, im.person(i).email@, id)
}

/// The status that the membership gets for person `i`.
spec fn due_status(im: Import, members: Map<int, MemberRecord>, i: int, id: int) -> i32 {
    let status = members[id].status;
    if !im.person(i).deleted {
        (im.rules.restored)(status)
    } else if is_last_owner(im, members, id) {
        status
    } else {
        (im.rules.revoked)(status)
    }
}

/// What is known of the person at hand in a first import.
spec fn person_at_hand(im: Import, point: ImportPoint) -> bool {
    let stored = point.stored;
    let records = stored.records;
    let row = records.members[stored.member];
    let n = im.data.members@.len();
    match point.phase {
        Phase::FindMember { i } => i < n,
        Phase::CountBeforeRevoke { i } => {
            &&& i < n
            &&& im.person(i as int).deleted
            &&& is_member(records.users, records.members, im.org, im.person(i as int).email@, stored.member)
            &&& stored.draft == row
            &&& im.owns(records.members, stored.member)
        },
        Phase::Revoke { i } => {
            &&& i < n
            &&& im.person(i as int).deleted
            &&& is_member(records.users, records.members, im.org, im.person(i as int).email@, stored.member)
            &&& stored.draft == row
            &&& !is_last_owner(im, records.members, stored.member)
        },
        Phase::Restore { i } => {
            &&& i < n
            &&& !im.person(i as int).deleted
            &&& is_member(records.users, records.members, im.org, im.person(i as int).email@, stored.member)
            &&& stored.draft == row
        },
        Phase::SetExternalId { i, changed } => {
            &&& i < n
            &&& is_member(records.users, records.members, im.org, im.person(i as int).email@, stored.member)
            &&& stored.draft == (MemberRecord {
                status: due_status(im, records.members, i as int, stored.member),
                ..row
            })
            &&& changed == (stored.draft.status != row.status)
        },
        Phase::SaveMember { i } => {
            &&& i < n
            &&& is_member(records.users, records.members, im.org, im.person(i as int).email@, stored.member)
            &&& stored.draft == (MemberRecord {
                status: due_status(im, records.members, i as int, stored.member),
                external_id: (im.rules.kept_id)(im.person(i as int).external_id@),
                ..row
            })
        },
        Phase::FindUser { i } => i < n && !im.person(i as int).deleted && no_member(
            im,
            records,
            i as int,
        ),
        Phase::CreateUser { i } => i < n && !im.person(i as int).deleted && no_member(
            im,
            records,
            i as int,
        ) && forall|id: int| !#[trigger] is_user(records.users, im.person(i as int).email@, id),
        Phase::CountBeforeDelete { .. } => false,
        Phase::DeleteMember { .. } => false,
        Phase::SendInvite { i, .. } => i < n && at_rest(
            im,
            records.users,
            records.members,
            im.person(i as int),
        ),
        _ => match handling(point.phase) {
            Some(i) => i < n && !im.person(i).deleted && no_member(im, records, i) && is_user(
                records.users,
                im.person(i).email@,
                stored.user,
            ),
            None => true,
        },
    }
}

/// What is known at a point of a first import that has not failed, before members
/// are removed.
spec fn first_time(im: Import, point: ImportPoint) -> bool {
    let records = point.stored.records;
    &&& one_each(im.org, records)
    &&& revokes_no_owner(im, records) || restores_no_owner(im, records)
    &&& unlisted_owners_stand_alone(im, records)
    &&& forall|p: int|
        0 <= p < handled(im, point.phase) && p < im.data.members@.len() ==> at_rest(
            im,
            records.users,
            records.members,
            #[trigger] im.person(p),
        )
    &&& person_at_hand(im, point)
}

/// A person for whom the same memberships are there is at rest as before, unless
/// they stay as the last confirmed owner and there are more now.
proof fn lemma_rest_kept(
    im: Import,
    users: Map<int, Seq<char>>,
    members: Map<int, MemberRecord>,
    new_users: Map<int, Seq<char>>,
    new_members: Map<int, MemberRecord>,
    person: OrgImportUserData,
)
    requires
        at_rest(im, users, members, person),
        forall|id: int| #[trigger]
            is_member(new_users, new_members, im.org, person.email@, id) <==> is_member(
                users,
                members,
                im.org,
                person.email@,
                id,
            ),
        forall|id: int| #[trigger]
            is_member(new_users, new_members, im.org, person.email@, id) ==> new_members[id]
                == members[id],
        person.deleted ==> im.owner_count(new_members) <= im.owner_count(members) || forall|id: int|
         #[trigger]
            is_member(users, members, im.org, person.email@, id) ==> members[id].atype
                != im.settings.codes.owner,
    ensures
        at_rest(im, new_users, new_members, person),
{
    if !person.deleted {
        let id = choose|id: int| is_member(users, members, im.org, person.email@, id);
        assert(is_member(new_users, new_members, im.org, person.email@, id));
    }
}

/// Those who were handled stay at rest while another person is handled.
proof fn lemma_others_at_rest(im: Import, records: Records, after: Records, i: int)
    requires
        records.members.dom().finite(),
        0 <= i <= im.data.members@.len(),
        forall|p: int|
            0 <= p < i ==> at_rest(im, records.users, records.members, #[trigger] im.person(p)),
        forall|p: int, id: int|
            0 <= p < i ==> (#[trigger] im.is_of(after, p, id) <==> im.is_of(records, p, id)),
        forall|p: int, id: int|
            0 <= p < i && #[trigger] im.is_of(after, p, id) ==> after.members[id]
                == records.members[id],
        revokes_no_owner(im, records) || forall|id: int| #[trigger]
            im.owns(after.members, id) ==> im.owns(records.members, id),
    ensures
        forall|p: int|
            0 <= p < i ==> at_rest(im, after.users, after.members, #[trigger] im.person(p)),
{
    if !revokes_no_owner(im, records) {
        lemma_no_more_owners(im, records.members, after.members);
    }
    assert forall|p: int| 0 <= p < i implies at_rest(
        im,
        after.users,
        after.members,
        #[trigger] im.person(p),
    ) by {
        let person = im.person(p);
        assert forall|id: int| #[trigger]
            is_member(after.users, after.members, im.org, person.email@, id) <==> is_member(
                records.users,
                records.members,
                im.org,
                person.email@,
                id,
            ) by {
            assert(im.is_of(after, p, id) <==> im.is_of(records, p, id));
        }
        assert forall|id: int| #[trigger]
            is_member(after.users, after.members, im.org, person.email@, id) implies after.members[id]
            == records.members[id] by {
            assert(im.is_of(after, p, id));
        }
        if revokes_no_owner(im, records) && person.deleted {
            assert forall|id: int| #[trigger]
                is_member(records.users, records.members, im.org, person.email@, id) implies records.members[id].atype
                != im.settings.codes.owner by {
                assert(im.is_of(records, p, id));
            }
        }
        lemma_rest_kept(im, records.users, records.members, after.users, after.members, person);
    }
}

/// An external id that is stored for a person is one that the directory lists.
proof fn lemma_kept_is_listed(im: Import, i: int)
    requires
        im.steady(),
        0 <= i < im.data.members@.len(),
    ensures
        (im.rules.kept_id)(im.person(i).external_id@) matches Some(kept) ==> lists(im.data, kept),
{
    assert(im.data.members@[i].external_id@ == im.person(i).external_id@);
}

/// Saving the membership of the person at hand.
#[verifier::rlimit(60)]
proof fn lemma_save_member(
    im: Import,
    from: ImportPoint,
    action: Action,
    event: Event,
    to: ImportPoint,
)
    requires
        im.plain(),
        im.steady(),
        valid_records(from.stored.records),
        first_time(im, from),
        im.works(from, action, event, to),
        from.phase is SaveMember,
        !failing(to.phase),
    ensures
        first_time(im, to),
{
    let i = from.phase->SaveMember_i as int;
    let records = from.stored.records;
    let after = to.stored.records;
    let member = from.stored.member;
    let row = records.members[member];
    let draft = from.stored.draft;
    assert(im.data.members.len() == im.data.members@.len());
    assert(after.members == records.members.insert(member, draft));
    assert forall|p: int, id: int| #[trigger] im.is_of(after, p, id) <==> im.is_of(
        records,
        p,
        id,
    ) by {}
    assert(im.is_of(records, i, member));
    assert forall|p: int|
        0 <= p < im.data.members@.len() && p != i implies !#[trigger] im.is_of(records, p, member) by {
        if p < i {
            assert(im.person(p).email@ != im.person(i).email@);
        } else {
            assert(im.person(i).email@ != im.person(p).email@);
        }
    }
    assert forall|id: int| #[trigger] im.is_of(records, i, id) implies id == member by {
        assert(records.members.contains_key(id) && records.members.contains_key(member));
    }
    assert(revokes_no_owner(im, records) ==> revokes_no_owner(im, after));
    if restores_no_owner(im, records) {
        assert forall|p: int, id: int|
            0 <= p < im.data.members@.len() && !im.person(p).deleted && #[trigger] im.is_of(
                after,
                p,
                id,
            ) && after.members[id].atype == im.settings.codes.owner && (im.rules.restored)(
                after.members[id].status,
            ) == im.settings.codes.confirmed implies after.members[id].status
            == im.settings.codes.confirmed by {
            assert(im.is_of(records, p, id));
        }
        assert forall|id: int| #[trigger] im.owns(after.members, id) implies im.owns(
            records.members,
            id,
        ) by {}
        lemma_no_more_owners(im, records.members, after.members);
    }
    lemma_others_at_rest(im, records, after, i);
    lemma_kept_is_listed(im, i);
    assert(unlisted_owners_stand_alone(im, after)) by {
        assert(!is_stale(im, after.members, member));
        assert forall|a: int, b: int|
            #![trigger im.owns(after.members, a), after.members.contains_key(b)]
            im.data.overwrite_existing && im.owns(after.members, a) && is_stale(
                im,
                after.members,
                a,
            ) && after.members.contains_key(b) && after.members[b].org == im.org
                && after.members[b].external_id == after.members[a].external_id implies a == b by {
            assert(a != member && b != member);
            assert(im.owns(records.members, a) && records.members.contains_key(b));
        }
    }
    assert forall|id: int| #[trigger]
        is_member(after.users, after.members, im.org, im.person(i).email@, id) implies {
        &&& after.members[id].external_id == (im.rules.kept_id)(im.person(i).external_id@)
        &&& rests(im, im.person(i), after.members, id)
    } by {
        assert(im.is_of(after, i, id));
        assert(id == member);
        if im.person(i).deleted && is_last_owner(im, records.members, member) {
            assert(!revokes_no_owner(im, records));
            assert(im.owns(after.members, member));
        }
    }
    assert(is_member(after.users, after.members, im.org, im.person(i).email@, member));
    assert(at_rest(im, after.users, after.members, im.person(i)));
}

/// Making a membership for the person at hand.
#[verifier::rlimit(60)]
proof fn lemma_create_member(
    im: Import,
    from: ImportPoint,
    action: Action,
    event: Event,
    to: ImportPoint,
)
    requires
        im.plain(),
        im.steady(),
        valid_records(from.stored.records),
        first_time(im, from),
        im.works(from, action, event, to),
        from.phase is CreateMember,
        !failing(to.phase),
    ensures
        first_time(im, to),
{
    let i = from.phase->CreateMember_i as int;
    let records = from.stored.records;
    let after = to.stored.records;
    let created = to.stored.created;
    let email = im.person(i).email@;
    assert(im.data.members.len() == im.data.members@.len());
    assert(action->CreateMember_external_id == im.person(i).external_id);
    let made = MemberRecord {
        org: im.org,
        user: from.stored.user,
        external_id: (im.rules.kept_id)(im.person(i).external_id@),
        atype: im.settings.codes.user,
        status: im.settings.codes.accepted,
    };
    assert(after.members == records.members.insert(created, made));
    assert forall|e: Seq<char>, id: int| #[trigger]
        is_member(after.users, after.members, im.org, e, id) <==> (is_member(
            records.users,
            records.members,
            im.org,
            e,
            id,
        ) || (id == created && e == email)) by {}
    assert forall|p: int, id: int| 0 <= p < i implies (#[trigger] im.is_of(after, p, id) <==> im.is_of(
        records,
        p,
        id,
    )) by {
        assert(im.person(p).email@ != im.person(i).email@);
    }
    assert forall|id: int| #[trigger] im.owns(after.members, id) implies im.owns(
        records.members,
        id,
    ) by {}
    lemma_others_at_rest(im, records, after, i);
    lemma_kept_is_listed(im, i);
    if revokes_no_owner(im, records) {
        assert forall|p: int, id: int|
            0 <= p < im.data.members@.len() && im.person(p).deleted && #[trigger] im.is_of(
                after,
                p,
                id,
            ) implies after.members[id].atype != im.settings.codes.owner by {
            if id != created {
                assert(im.is_of(records, p, id));
            }
        }
    } else {
        assert forall|p: int, id: int|
            0 <= p < im.data.members@.len() && !im.person(p).deleted && #[trigger] im.is_of(
                after,
                p,
                id,
            ) && after.members[id].atype == im.settings.codes.owner && (im.rules.restored)(
                after.members[id].status,
            ) == im.settings.codes.confirmed implies after.members[id].status
            == im.settings.codes.confirmed by {
            assert(im.is_of(records, p, id));
        }
    }
    assert(unlisted_owners_stand_alone(im, after)) by {
        assert(!is_stale(im, after.members, created));
        assert forall|a: int, b: int|
            #![trigger im.owns(after.members, a), after.members.contains_key(b)]
            im.data.overwrite_existing && im.owns(after.members, a) && is_stale(
                im,
                after.members,
                a,
            ) && after.members.contains_key(b) && after.members[b].org == im.org
                && after.members[b].external_id == after.members[a].external_id implies a == b by {
            assert(a != created && b != created);
            assert(im.owns(records.members, a) && records.members.contains_key(b));
        }
    }
    assert(is_member(after.users, after.members, im.org, email, created));
    assert(at_rest(im, after.users, after.members, im.person(i)));
    assert forall|id: int| #[trigger]
        records.members.contains_key(id) && records.members[id].org == im.org implies
        records.members[id].user != from.stored.user by {
        assert(!is_member(records.users, records.members, im.org, email, id));
    }
    assert(one_each(im.org, after));
}

/// Making an account for the person at hand.
#[verifier::rlimit(60)]
proof fn lemma_create_user(
    im: Import,
    from: ImportPoint,
    action: Action,
    event: Event,
    to: ImportPoint,
)
    requires
        im.plain(),
        im.steady(),
        valid_records(from.stored.records),
        first_time(im, from),
        im.works(from, action, event, to),
        from.phase is CreateUser,
        !failing(to.phase),
    ensures
        first_time(im, to),
{
    let i = from.phase->CreateUser_i as int;
    let records = from.stored.records;
    let after = to.stored.records;
    let user = to.stored.user;
    let email = im.person(i).email@;
    assert(im.data.members.len() == im.data.members@.len());
    assert(after.members == records.members);
    assert forall|e: Seq<char>, id: int| #[trigger]
        is_member(after.users, after.members, im.org, e, id) <==> is_member(
            records.users,
            records.members,
            im.org,
            e,
            id,
        ) by {
        if records.members.contains_key(id) {
            assert(records.users.contains_key(records.members[id].user));
        }
    }
    assert forall|p: int, id: int| #[trigger] im.is_of(after, p, id) <==> im.is_of(
        records,
        p,
        id,
    ) by {}
    lemma_others_at_rest(im, records, after, i);
    assert(revokes_no_owner(im, records) ==> revokes_no_owner(im, after));
    assert(restores_no_owner(im, records) ==> restores_no_owner(im, after));
    assert(unlisted_owners_stand_alone(im, after));
    assert forall|a: int| #[trigger] records.users.contains_key(a) implies records.users[a]
        != email by {
        assert(!is_user(records.users, email, a));
    }
    assert(one_each(im.org, after));
    assert(is_user(after.users, email, user));
    assert(no_member(im, after, i));
}

#[verifier::rlimit(100)]
proof fn lemma_first_time_goes_on(
    im: Import,
    from: ImportPoint,
    action: Action,
    event: Event,
    to: ImportPoint,
)
    requires
        im.plain(),
        im.steady(),
        valid_records(from.stored.records),
        first_time(im, from),
        im.works(from, action, event, to),
        !(from.phase is ListMembers),
        !failing(from.phase),
        !failing(to.phase),
    ensures
        first_time(im, to),
{
    let records = from.stored.records;
    let after = to.stored.records;
    assert(im.data.members.len() == im.data.members@.len());
    assert(im.data.groups.len() == im.data.groups@.len());
    if let Some(i) = handling(from.phase) {
        assert(im.person(i) == im.data.members@[i]);
    }
    if from.phase is SaveMember {
        lemma_save_member(im, from, action, event, to);
    } else if from.phase is CreateMember {
        lemma_create_member(im, from, action, event, to);
    } else if from.phase is CreateUser {
        lemma_create_user(im, from, action, event, to);
    } else {
        assert(after.users == records.users);
        assert(after.members == records.members);
        assert forall|p: int, id: int| #[trigger] im.is_of(after, p, id) <==> im.is_of(
            records,
            p,
            id,
        ) by {}
        assert(revokes_no_owner(im, records) ==> revokes_no_owner(im, after));
        assert(restores_no_owner(im, records) ==> restores_no_owner(im, after));
        assert(unlisted_owners_stand_alone(im, after));
        match from.phase {
            Phase::FindMember { i, .. } => {
                assert(action->FindMember_email == im.person(i as int).email);
                if let Event::MemberFound(Some(_)) = event {
                    assert(is_member(
                        records.users,
                        records.members,
                        im.org,
                        im.person(i as int).email@,
                        to.stored.member,
                    ));
                } else {
                    assert(event == Event::MemberFound(None));
                    assert(no_member(im, records, i as int));
                    if im.person(i as int).deleted {
                        assert(at_rest(im, records.users, records.members, im.person(i as int)));
                    }
                }
            },
            Phase::SetExternalId { i, .. } => {
                assert(action->SetExternalId_external_id == im.person(i as int).external_id);
                if !(to.phase is SaveMember) {
                    let member = from.stored.member;
                    assert forall|id: int| #[trigger]
                        is_member(
                            records.users,
                            records.members,
                            im.org,
                            im.person(i as int).email@,
                            id,
                        ) implies id == member by {
                        assert(records.members.contains_key(id) && records.members.contains_key(
                            member,
                        ));
                    }
                    assert(at_rest(im, records.users, records.members, im.person(i as int)));
                }
            },
            Phase::FindUser { i, .. } => {
                assert(action->FindUser_email == im.person(i as int).email);
                if let Event::UserFound(Some(_)) = event {
                    assert(is_user(records.users, im.person(i as int).email@, to.stored.user));
                } else {
                    assert(event == Event::UserFound(None));
                    assert(forall|id: int|
                        !#[trigger] is_user(records.users, im.person(i as int).email@, id));
                }
            },
            _ => {},
        }
    }
}

/// Everybody is as the directory says, and every group is there.
spec fn settled_down(im: Import, records: Records) -> bool {
    &&& one_each(im.org, records)
    &&& forall|p: int|
        0 <= p < im.data.members@.len() ==> at_rest(
            im,
            records.users,
            records.members,
            #[trigger] im.person(p),
        )
    &&& im.settings.groups_enabled ==> forall|h: int|
        0 <= h < im.data.groups@.len() && is_latest(im, h, im.data.groups@.len() as int)
            ==> #[trigger] is_filled(im, records, h)
}

/// The same memberships are found by an external id, unless none is left.
proof fn lemma_same_found(im: Import, pre: Records, records: Records, external_id: Seq<char>)
    requires
        im.data.overwrite_existing,
        unlisted_owners_stand_alone(im, pre),
        some_gone(im, pre, records),
        swept(im, records.members),
        exists|id: int| is_external(records.members, im.org, external_id, id),
    ensures
        external_found(records.members, im.org, external_id) == external_found(
            pre.members,
            im.org,
            external_id,
        ),
{
    let left = choose|id: int| is_external(records.members, im.org, external_id, id);
    assert(records.members.contains_key(left));
    assert forall|id: int| is_external(pre.members, im.org, external_id, id) implies #[trigger] is_external(
        records.members,
        im.org,
        external_id,
        id,
    ) by {
        if !records.members.contains_key(id) {
            assert(is_stale(im, pre.members, id));
            assert(is_stale(im, records.members, left));
            assert(im.owns(records.members, left));
            assert(im.owns(pre.members, left));
            assert(left == id);
        }
    }
    assert forall|id: int| #[trigger] is_external(records.members, im.org, external_id, id) implies is_external(
        pre.members,
        im.org,
        external_id,
        id,
    ) by {
        assert(records.members.contains_key(id));
    }
    assert(external_candidates(records.members, im.org, external_id) =~= external_candidates(
        pre.members,
        im.org,
        external_id,
    ));
}

/// After the removals, a lookup finds whom it found before, if they are left.
proof fn lemma_same_meant(im: Import, pre: Records, records: Records, g: int, k: int, member: int)
    requires
        im.data.overwrite_existing,
        unlisted_owners_stand_alone(im, pre),
        some_gone(im, pre, records),
        swept(im, records.members),
    ensures
        is_meant(im, records.members, g, k, member) <==> is_meant(im, pre.members, g, k, member)
            && records.members.contains_key(member),
{
    if is_meant(im, records.members, g, k, member) {
        let j = choose|j: int| 0 <= j < k && #[trigger] finds(im, records.members, g, j, member);
        let external_id = im.group_ids(g)[j]@;
        let id = choose|id: int| is_external(records.members, im.org, external_id, id);
        assert(records.members.contains_key(id));
        assert(is_external(pre.members, im.org, external_id, id));
        lemma_same_found(im, pre, records, external_id);
        let candidates = external_candidates(records.members, im.org, external_id);
        assert(candidates.contains(id));
        assert(candidates.contains(candidates.choose()));
        assert(finds(im, pre.members, g, j, member));
    }
    if is_meant(im, pre.members, g, k, member) && records.members.contains_key(member) {
        let j = choose|j: int| 0 <= j < k && #[trigger] finds(im, pre.members, g, j, member);
        let external_id = im.group_ids(g)[j]@;
        let id = choose|id: int| is_external(pre.members, im.org, external_id, id);
        let candidates = external_candidates(pre.members, im.org, external_id);
        assert(candidates.contains(id));
        assert(candidates.contains(candidates.choose()));
        assert(is_external(records.members, im.org, external_id, member));
        lemma_same_found(im, pre, records, external_id);
        assert(finds(im, records.members, g, j, member));
    }
}

/// What had settled down is so after the removals.
#[verifier::rlimit(60)]
proof fn lemma_settled_after_removals(im: Import, pre: Records, records: Records)
    requires
        im.steady(),
        im.data.overwrite_existing,
        pre.members.dom().finite(),
        settled_down(im, pre),
        unlisted_owners_stand_alone(im, pre),
        some_gone(im, pre, records),
        swept(im, records.members),
    ensures
        settled_down(im, records),
{
    assert forall|id: int| #[trigger] im.owns(records.members, id) implies im.owns(
        pre.members,
        id,
    ) by {
        assert(records.members.contains_key(id));
    }
    lemma_no_more_owners(im, pre.members, records.members);
    assert forall|p: int| 0 <= p < im.data.members@.len() implies at_rest(
        im,
        records.users,
        records.members,
        #[trigger] im.person(p),
    ) by {
        let person = im.person(p);
        assert(at_rest(im, pre.users, pre.members, person));
        lemma_kept_is_listed(im, p);
        assert forall|id: int|
            is_member(pre.users, pre.members, im.org, person.email@, id) <==> #[trigger] is_member(
                records.users,
                records.members,
                im.org,
                person.email@,
                id,
            ) by {
            if is_member(pre.users, pre.members, im.org, person.email@, id) {
                assert(!is_stale(im, pre.members, id));
            }
            if records.members.contains_key(id) {
                assert(pre.members.contains_key(id));
            }
        }
        assert forall|id: int| #[trigger]
            is_member(records.users, records.members, im.org, person.email@, id) implies records.members[id]
            == pre.members[id] by {
            assert(records.members.contains_key(id));
        }
        lemma_rest_kept(im, pre.users, pre.members, records.users, records.members, person);
    }
    let total = im.data.groups@.len() as int;
    if im.settings.groups_enabled {
        assert forall|h: int| 0 <= h < total && is_latest(im, h, total) implies #[trigger] is_filled(
            im,
            records,
            h,
        ) by {
            assert(is_filled(im, pre, h));
            let group = the_group(im, records.groups, h);
            let count = im.group_ids(h).len() as int;
            assert forall|member: int| #[trigger]
                records.group_members.contains((group, member)) <==> is_meant(
                    im,
                    records.members,
                    h,
                    count,
                    member,
                ) by {
                lemma_same_meant(im, pre, records, h, count, member);
                assert(pre.group_members.contains((group, member)) <==> is_meant(
                    im,
                    pre.members,
                    h,
                    count,
                    member,
                ));
            }
        }
    }
    assert(one_each(im.org, records)) by {
        assert forall|a: int, b: int|
            #![trigger records.members.contains_key(a), records.members.contains_key(b)]
            records.members.contains_key(a) && records.members.contains_key(b)
                && records.members[a].org == im.org && records.members[b].org == im.org
                && records.members[a].user == records.members[b].user implies a == b by {
            assert(pre.members.contains_key(a) && pre.members.contains_key(b));
        }
    }
}

/// The group is found for one that the directory lists.
spec fn names_group(im: Import, records: Records, group: int) -> bool {
    exists|h: int|
        0 <= h < im.data.groups@.len() && has_group(im, records.groups, h) && group
            == #[trigger] the_group(im, records.groups, h)
}

/// What a first import left: all has settled down, and nobody is to be removed.
spec fn left_at_rest(im: Import, start: Records) -> bool {
    &&& settled_down(im, start)
    &&& im.data.overwrite_existing ==> swept(im, start.members)
}

/// The member that was found is that of person `i`, as it was at the start.
spec fn found_again(im: Import, start: Records, point: ImportPoint, i: int) -> bool {
    &&& 0 <= i < im.data.members@.len()
    &&& is_member(start.users, start.members, im.org, im.person(i).email@, point.stored.member)
    &&& point.stored.draft == start.members[point.stored.member]
}

/// What is known at a point of a second import.
spec fn second_time(im: Import, start: Records, point: ImportPoint) -> bool {
    let stored = point.stored;
    let records = stored.records;
    &&& records == (Records { group_members: records.group_members, ..start })
    &&& handling(point.phase) is Some ==> records.group_members == start.group_members
    &&& !im.settings.groups_enabled ==> records.group_members == start.group_members
    &&& forall|pair: (int, int)|
        !names_group(im, start, pair.0) ==> (#[trigger] records.group_members.contains(pair)
            <==> start.group_members.contains(pair))
    &&& match point.phase {
        Phase::FindMember { i } => i < im.data.members@.len(),
        Phase::CountBeforeRevoke { i } => {
            &&& found_again(im, start, point, i as int)
            &&& im.person(i as int).deleted
        },
        Phase::Revoke { i } => {
            &&& found_again(im, start, point, i as int)
            &&& (im.rules.revoked)(stored.draft.status) == stored.draft.status
        },
        Phase::Restore { i } => {
            &&& found_again(im, start, point, i as int)
            &&& !im.person(i as int).deleted
        },
        Phase::SetExternalId { i, changed } => {
            &&& found_again(im, start, point, i as int)
            &&& !changed
        },
        Phase::FindGroup { .. } => true,
        Phase::ClearGroup { .. } => true,
        Phase::FindGroupMember { .. } => true,
        Phase::AddGroupMember { .. } => true,
        Phase::ListMembers => im.data.overwrite_existing,
        Phase::CountBeforeDelete { listed, j } => {
            &&& im.data.overwrite_existing
            &&& records == start
            &&& lists_members(start.members, im.org, stored.listing, listed@)
            &&& j < listed@.len()
            &&& is_stale(im, start.members, stored.listing[j as int])
        },
        Phase::Done(outcome) => {
            &&& outcome is Ok
            &&& im.data.overwrite_existing ==> records == start
        },
        _ => false,
    }
}

/// Every external id has a latest group.
proof fn lemma_latest(im: Import, g: int, end: int) -> (latest: int)
    requires
        0 <= g < end,
    ensures
        g <= latest < end,
        im.group_id(latest) == im.group_id(g),
        is_latest(im, latest, end),
    decreases end - g,
{
    if is_latest(im, g, end) {
        g
    } else {
        let h = choose|h: int| g < h < end && #[trigger] im.group_id(h) == im.group_id(g);
        lemma_latest(im, h, end)
    }
}

/// A second import removes nobody.
proof fn lemma_second_sweep(
    im: Import,
    start: Records,
    point: ImportPoint,
    listed: Vec<ListedMember>,
    from: int,
)
    requires
        im.data.overwrite_existing,
        swept(im, start.members),
        point.stored.records == start,
        lists_members(start.members, im.org, point.stored.listing, listed@),
        0 <= from <= listed@.len(),
        point.phase == sweep(im.data, im.settings, listed, from),
    ensures
        second_time(im, start, point),
        !before_removals(im, point.phase),
{
    lemma_sweep_goes_on(im.data, im.settings, listed, from);
    match point.phase {
        Phase::CountBeforeDelete { j, .. } => {
            lemma_listed_stale(im, start.members, point.stored.listing, listed@, j as int);
        },
        Phase::DeleteMember { j, .. } => {
            lemma_listed_stale(im, start.members, point.stored.listing, listed@, j as int);
            assert(is_last_owner(im, start.members, point.stored.listing[j as int]));
        },
        _ => {},
    }
}

#[verifier::rlimit(100)]
proof fn lemma_second_time_goes_on(
    im: Import,
    start: Records,
    from: ImportPoint,
    action: Action,
    event: Event,
    to: ImportPoint,
)
    requires
        im.plain(),
        left_at_rest(im, start),
        second_time(im, start, from),
        before_removals(im, from.phase) ==> groups_at(im, from),
        from.phase is ListMembers ==> from.stored.records == start,
        im.works(from, action, event, to),
        is_success(event),
    ensures
        second_time(im, start, to),
        from.phase is ListMembers || from.phase is CountBeforeDelete ==> !before_removals(
            im,
            to.phase,
        ),
{
    let records = from.stored.records;
    assert(im.data.groups.len() == im.data.groups@.len());
    assert(im.data.members.len() == im.data.members@.len());
    if let Some(i) = handling(from.phase) {
        assert(im.person(i) == im.data.members@[i]);
        assert(at_rest(im, start.users, start.members, im.person(i)));
    }
    if let Some(g) = grouping(from.phase) {
        let ids = im.data.groups@[g].member_external_ids;
        assert(ids.len() == ids@.len());
        assert(im.group_id(g) == im.data.groups@[g].external_id@);
    }
    match from.phase {
        Phase::FindMember { i } => {
            assert(action->FindMember_email == im.person(i as int).email);
            if let Event::MemberFound(Some(_)) = event {
                assert(is_member(
                    start.users,
                    start.members,
                    im.org,
                    im.person(i as int).email@,
                    to.stored.member,
                ));
            } else {
                assert(event == Event::MemberFound(None));
            }
        },
        Phase::CountBeforeRevoke { i } => {
            assert(event->Counted_0 == im.owner_count(start.members));
        },
        Phase::SetExternalId { i, .. } => {
            assert(action->SetExternalId_external_id == im.person(i as int).external_id);
        },
        Phase::FindGroup { g } => {
            let latest = lemma_latest(im, g as int, im.data.groups@.len() as int);
            assert(is_filled(im, start, latest));
            assert(has_group(im, start.groups, g as int));
            assert(action->FindGroup_external_id == im.data.groups@[g as int].external_id);
        },
        Phase::ClearGroup { g } => {
            assert(names_group(im, start, from.stored.group));
        },
        Phase::AddGroupMember { g, .. } => {
            assert(names_group(im, start, from.stored.group));
        },
        Phase::ListMembers => {
            lemma_second_sweep(im, start, to, event->Listed_0, 0);
        },
        Phase::CountBeforeDelete { listed, j } => {
            assert(is_last_owner(im, start.members, from.stored.listing[j as int]));
            assert(event->Counted_0 == im.owner_count(start.members));
            lemma_second_sweep(im, start, to, listed, j + 1);
        },
        _ => {},
    }
}

/// The report is of work that could be done.
pub open spec fn is_success(event: Event) -> bool {
    match event {
        Event::Stored(outcome) => outcome is Ok,
        Event::UserCreated(outcome) => outcome is Ok,
        Event::InviteSent(outcome) => outcome is Ok,
        Event::OrganizationFound(organization) => organization is Some,
        _ => true,
    }
}

impl Import {
    /// The points of such an import all of whose work could be done.
    pub open spec fn smooth_history(self, points: Seq<ImportPoint>) -> bool {
        &&& self.history(points)
        &&& forall|k: int, n: int|
            0 <= k && n == k + 1 && n < points.len() ==> self.goes_smoothly(
                #[trigger] points[k],
                #[trigger] points[n],
            )
    }

    /// The import goes from one point to the next by work that could be done.
    pub open spec fn goes_smoothly(self, from: ImportPoint, to: ImportPoint) -> bool {
        exists|action: Action, event: Event| #[trigger]
            self.works(from, action, event, to) && is_success(event)
    }
}

/// What is stored before members are removed: all has settled down.
spec fn ready_for_removals(im: Import, pre: Records) -> bool {
    &&& im.data.overwrite_existing
    &&& pre.members.dom().finite()
    &&& settled_down(im, pre)
    &&& unlisted_owners_stand_alone(im, pre)
}

/// Once all people and groups are handled, all has settled down.
proof fn lemma_all_handled(im: Import, point: ImportPoint)
    requires
        first_time(im, point),
        groups_at(im, point),
        point.phase is Done || point.phase is ListMembers,
    ensures
        settled_down(im, point.stored.records),
{
    assert(handled(im, point.phase) == im.data.members@.len());
    assert(im.settings.groups_enabled ==> filled_up_to(im, point.phase) == im.data.groups@.len());
}

proof fn lemma_first_points(im: Import, points: Seq<ImportPoint>, k: int)
    requires
        im.plain(),
        im.steady(),
        im.history(points),
        valid_records(points[0].stored.records),
        one_each(im.org, points[0].stored.records),
        revokes_no_owner(im, points[0].stored.records) || restores_no_owner(
            im,
            points[0].stored.records,
        ),
        unlisted_owners_stand_alone(im, points[0].stored.records),
        0 <= k < points.len(),
    ensures
        ({
            ||| failing(points[k].phase)
            ||| first_time(im, points[k]) && groups_at(im, points[k]) && before_removals(
                im,
                points[k].phase,
            )
            ||| exists|pre: Records| #[trigger]
                ready_for_removals(im, pre) && sweeping(im, pre, points[k])
        }),
    decreases k,
{
    if k == 0 {
        assert(im.data.members.len() == im.data.members@.len());
        assert(im.data.groups.len() == im.data.groups@.len());
    } else {
        lemma_first_points(im, points, k - 1);
        let from = points[k - 1];
        let to = points[k];
        assert(goes(im.data, im.settings, im.org, im.rules, from, to));
        let (action, event) = choose|action: Action, event: Event| #[trigger]
            works(im.data, im.settings, im.org, im.rules, from, action, event, to);
        assert(im.works(from, action, event, to));
        lemma_points_valid(im.data, im.settings, im.org, im.rules, points, k - 1);
        if failing(from.phase) || failing(to.phase) {
        } else if from.phase is ListMembers {
            let pre = from.stored.records;
            lemma_all_handled(im, from);
            assert(ready_for_removals(im, pre));
            lemma_sweep_on(im, pre, to, event->Listed_0, 0);
        } else if before_removals(im, from.phase) {
            lemma_first_time_goes_on(im, from, action, event, to);
            lemma_groups_go_on(im, from, action, event, to);
        } else {
            let pre = choose|pre: Records| #[trigger]
                ready_for_removals(im, pre) && sweeping(im, pre, from);
            lemma_sweeping_goes_on(im, pre, from, action, event, to);
        }
    }
}

/// Where the same is known of the groups, the same members are in them.
proof fn lemma_same_groups(im: Import, start: Records, now: Records)
    requires
        now.members == start.members,
        now.groups == start.groups,
        forall|h: int|
            0 <= h < im.data.groups@.len() && is_latest(im, h, im.data.groups@.len() as int)
                ==> #[trigger] is_filled(im, start, h),
        forall|h: int|
            0 <= h < im.data.groups@.len() && is_latest(im, h, im.data.groups@.len() as int)
                ==> #[trigger] is_filled(im, now, h),
        forall|pair: (int, int)|
            !names_group(im, start, pair.0) ==> (#[trigger] now.group_members.contains(pair)
                <==> start.group_members.contains(pair)),
    ensures
        now.group_members == start.group_members,
{
    let total = im.data.groups@.len() as int;
    assert forall|pair: (int, int)| #[trigger]
        now.group_members.contains(pair) <==> start.group_members.contains(pair) by {
        let group = pair.0;
        if names_group(im, start, group) {
            let h = choose|h: int|
                0 <= h < total && has_group(im, start.groups, h) && group == #[trigger] the_group(
                    im,
                    start.groups,
                    h,
                );
            let latest = lemma_latest(im, h, total);
            assert(is_filled(im, start, latest));
            assert(is_filled(im, now, latest));
            assert(start.group_members.contains((group, pair.1)) <==> is_meant(
                im,
                start.members,
                latest,
                im.group_ids(latest).len() as int,
                pair.1,
            ));
            assert((group, pair.1) == pair);
        }
    }
    assert(now.group_members =~= start.group_members);
}

/// Once the groups are handled again, all is as at the start.
proof fn lemma_same_again(im: Import, start: Records, point: ImportPoint)
    requires
        left_at_rest(im, start),
        second_time(im, start, point),
        groups_at(im, point),
        point.phase is Done || point.phase is ListMembers,
    ensures
        point.stored.records == start,
{
    if im.settings.groups_enabled {
        assert(filled_up_to(im, point.phase) == im.data.groups@.len());
        lemma_same_groups(im, start, point.stored.records);
    }
}

proof fn lemma_second_points(im: Import, start: Records, points: Seq<ImportPoint>, k: int)
    requires
        im.plain(),
        im.steady(),
        left_at_rest(im, start),
        im.smooth_history(points),
        points[0].stored.records == start,
        0 <= k < points.len(),
    ensures
        second_time(im, start, points[k]),
        before_removals(im, points[k].phase) ==> groups_at(im, points[k]),
    decreases k,
{
    if k == 0 {
        assert(im.data.members.len() == im.data.members@.len());
        assert(im.data.groups.len() == im.data.groups@.len());
    } else {
        lemma_second_points(im, start, points, k - 1);
        let from = points[k - 1];
        let to = points[k];
        assert(im.goes_smoothly(from, to));
        let (action, event) = choose|action: Action, event: Event| #[trigger]
            im.works(from, action, event, to) && is_success(event);
        if from.phase is ListMembers {
            lemma_same_again(im, start, from);
        }
        lemma_second_time_goes_on(im, start, from, action, event, to);
        if before_removals(im, from.phase) && !(from.phase is ListMembers) {
            lemma_groups_go_on(im, from, action, event, to);
        }
    }
}

proof fn lemma_first_ends(im: Import, points: Seq<ImportPoint>)
    requires
        im.plain(),
        im.steady(),
        im.history(points),
        valid_records(points[0].stored.records),
        one_each(im.org, points[0].stored.records),
        revokes_no_owner(im, points[0].stored.records) || restores_no_owner(
            im,
            points[0].stored.records,
        ),
        unlisted_owners_stand_alone(im, points[0].stored.records),
        points.last().phase matches Phase::Done(outcome) && outcome is Ok,
    ensures
        left_at_rest(im, points.last().stored.records),
{
    let point = points.last();
    lemma_first_points(im, points, points.len() - 1);
    if before_removals(im, point.phase) {
        lemma_all_handled(im, point);
    } else {
        let pre = choose|pre: Records| #[trigger]
            ready_for_removals(im, pre) && sweeping(im, pre, point);
        lemma_settled_after_removals(im, pre, point.stored.records);
    }
}

/// An import that has just ended well and is made again, with nothing changed in
/// between and all work done, makes no account, invitation, membership or group,
/// saves no member, removes nobody and sends no mail. It ends well, and all
/// records are as before, with the same members in every group.
///
/// It is left out that the directory wants an owner revoked and another restored:
/// whoever stayed as the last confirmed owner may then go the second time. Left
/// out as well is that an overwriting directory does not list a confirmed owner
/// who shares their external id with another member: the owner may then take the
/// place of that member in a group.
pub proof fn a_second_import_changes_nothing(
    im: Import,
    first: Seq<ImportPoint>,
    second: Seq<ImportPoint>,
    k: int,
)
    requires
        im.plain(),
        im.steady(),
        im.history(first),
        valid_records(first[0].stored.records),
        one_each(im.org, first[0].stored.records),
        revokes_no_owner(im, first[0].stored.records) || restores_no_owner(
            im,
            first[0].stored.records,
        ),
        unlisted_owners_stand_alone(im, first[0].stored.records),
        first.last().phase matches Phase::Done(outcome) && outcome is Ok,
        im.smooth_history(second),
        second[0].stored.records == first.last().stored.records,
        0 <= k < second.len(),
    ensures
        !(second[k].phase is CreateUser),
        !(second[k].phase is SaveInvitation),
        !(second[k].phase is CreateMember),
        !(second[k].phase is CreateGroup),
        !(second[k].phase is SaveMember),
        !(second[k].phase is DeleteMember),
        !(second[k].phase is SendInvite),
        second[k].stored.records == (Records {
            group_members: second[k].stored.records.group_members,
            ..first.last().stored.records
        }),
        second[k].phase matches Phase::Done(outcome) ==> outcome is Ok
            && second[k].stored.records == first.last().stored.records,
{
    let start = first.last().stored.records;
    lemma_first_ends(im, first);
    lemma_second_points(im, start, second, k);
    if second[k].phase is Done && !im.data.overwrite_existing {
        lemma_same_again(im, start, second[k]);
    }
}

} // verus!
