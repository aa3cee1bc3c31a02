//! What an import does to what is stored.
//!
//! The storage is modelled by its records and by what a connection to it
//! remembers. [`serves`] says how it may answer each piece of work of an import,
//! and a [`history`] is an import whose work such a storage does.
use crate::ldap_import::{
    answers, asks, member_or_after, next, Action, Event, ImportSettings, ListedMember,
    OrgImportData, OrgImportUserData, Phase,
};
use crate::membership::RoleCodes;
use vstd::prelude::*;

verus! {

/// A stored membership.
pub struct MemberRecord {
    pub org: Seq<char>,
    /// The account of the member.
    pub user: int,
    pub external_id: Option<Seq<char>>,
    pub atype: i32,
    pub status: i32,
}

/// A stored group.
pub struct GroupRecord {
    pub org: Seq<char>,
    pub name: Seq<char>,
    pub external_id: Option<Seq<char>>,
}

/// What is stored.
pub struct Records {
    /// The emails of the accounts.
    pub users: Map<int, Seq<char>>,
    pub members: Map<int, MemberRecord>,
    pub groups: Map<int, GroupRecord>,
    /// Which member is in which group.
    pub group_members: Set<(int, int)>,
    pub invitations: Set<Seq<char>>,
}

/// How records change when they are told to.
pub struct RecordRules {
    /// The status of a member who is revoked.
    pub revoked: spec_fn(i32) -> i32,
    /// The status of a member who is restored.
    pub restored: spec_fn(i32) -> i32,
    /// The external id that is stored for one that is given.
    pub kept_id: spec_fn(Seq<char>) -> Option<Seq<char>>,
}

/// The records, and what the last lookups and creations gave.
pub struct Stored {
    pub records: Records,
    /// The member that was found, and the record as it is to be saved.
    pub member: int,
    pub draft: MemberRecord,
    pub user: int,
    /// The member that was made.
    pub created: int,
    pub group: int,
    /// The member that was found for the group.
    pub found: int,
    pub listing: Seq<int>,
}

/// The membership belongs to the organization and to the account with this
/// email.
pub open spec fn is_member(
    users: Map<int, Seq<char>>,
    members: Map<int, MemberRecord>,
    org: Seq<char>,
    email: Seq<char>,
    id: int,
) -> bool {
    &&& members.contains_key(id)
    &&& members[id].org == org
    &&& is_user(users, email, members[id].user)
}

/// The account has this email.
pub open spec fn is_user(users: Map<int, Seq<char>>, email: Seq<char>, id: int) -> bool {
    users.contains_key(id) && users[id] == email
}

/// The group belongs to the organization and has this external id.
pub open spec fn is_group(
    groups: Map<int, GroupRecord>,
    org: Seq<char>,
    external_id: Seq<char>,
    id: int,
) -> bool {
    &&& groups.contains_key(id)
    &&& groups[id].org == org
    &&& groups[id].external_id == Some(external_id)
}

/// The membership belongs to the organization and has this external id.
pub open spec fn is_external(
    members: Map<int, MemberRecord>,
    org: Seq<char>,
    external_id: Seq<char>,
    id: int,
) -> bool {
    &&& members.contains_key(id)
    &&& members[id].org == org
    &&& members[id].external_id == Some(external_id)
}

/// The membership is that of a confirmed owner of the organization.
pub open spec fn is_owner(
    codes: RoleCodes,
    org: Seq<char>,
    members: Map<int, MemberRecord>,
    id: int,
) -> bool {
    &&& members.contains_key(id)
    &&& members[id].org == org
    &&& codes.confirmed_owner(members[id].atype, members[id].status)
}

/// The confirmed owners of the organization.
pub open spec fn owners(
    codes: RoleCodes,
    org: Seq<char>,
    members: Map<int, MemberRecord>,
) -> Set<int> {
    members.dom().filter(|id: int| is_owner(codes, org, members, id))
}

/// The records without the memberships that `gone` holds of, and without their
/// places in groups.
pub open spec fn without_members(records: Records, gone: spec_fn(int) -> bool) -> Records {
    Records {
        members: records.members.remove_keys(records.members.dom().filter(gone)),
        group_members: records.group_members.filter(|pair: (int, int)| !gone(pair.1)),
        ..records
    }
}

/// This membership.
pub open spec fn just(member: int) -> spec_fn(int) -> bool {
    |id: int| id == member
}

/// The memberships of an account.
pub open spec fn memberships_of(members: Map<int, MemberRecord>, user: int) -> spec_fn(int) -> bool {
    |id: int| members.contains_key(id) && members[id].user == user
}

/// The records without a membership.
pub open spec fn without_member(records: Records, member: int) -> Records {
    without_members(records, just(member))
}

/// The records without an account and its memberships.
pub open spec fn without_user(records: Records, user: int) -> Records {
    Records {
        users: records.users.remove(user),
        ..without_members(records, memberships_of(records.members, user))
    }
}

/// A change was made and gave `after`, or it failed and nothing changed.
pub open spec fn settled(event: Event, before: Stored, changed: bool, after: Stored) -> bool {
    match event {
        Event::Stored(Ok(_)) => changed,
        Event::Stored(Err(_)) => after == before,
        _ => false,
    }
}

/// A membership was made under a new id.
pub open spec fn makes_member(before: Stored, record: MemberRecord, after: Stored) -> bool {
    &&& !before.records.members.contains_key(after.created)
    &&& after == (Stored {
        records: Records {
            members: before.records.members.insert(after.created, record),
            ..before.records
        },
        created: after.created,
        ..before
    })
}

/// A group was made under a new id.
pub open spec fn makes_group(before: Stored, record: GroupRecord, after: Stored) -> bool {
    &&& !before.records.groups.contains_key(after.group)
    &&& after == (Stored {
        records: Records {
            groups: before.records.groups.insert(after.group, record),
            ..before.records
        },
        group: after.group,
        ..before
    })
}

/// The groups of the organization with this external id.
pub open spec fn group_candidates(
    groups: Map<int, GroupRecord>,
    org: Seq<char>,
    external_id: Seq<char>,
) -> Set<int> {
    Set::new(|id: int| is_group(groups, org, external_id, id))
}

/// The group that a lookup finds; which of several is fixed by which there are.
pub open spec fn group_found(
    groups: Map<int, GroupRecord>,
    org: Seq<char>,
    external_id: Seq<char>,
) -> int {
    group_candidates(groups, org, external_id).choose()
}

/// The memberships of the organization with this external id.
pub open spec fn external_candidates(
    members: Map<int, MemberRecord>,
    org: Seq<char>,
    external_id: Seq<char>,
) -> Set<int> {
    Set::new(|id: int| is_external(members, org, external_id, id))
}

/// The membership that a lookup by external id finds; which of several is fixed
/// by which there are.
pub open spec fn external_found(
    members: Map<int, MemberRecord>,
    org: Seq<char>,
    external_id: Seq<char>,
) -> int {
    external_candidates(members, org, external_id).choose()
}

/// The storage may answer the work by the event and be as `after` then.
pub open spec fn serves(
    rules: RecordRules,
    codes: RoleCodes,
    org: Seq<char>,
    before: Stored,
    action: Action,
    event: Event,
    after: Stored,
) -> bool {
    let records = before.records;
    match action {
        Action::FindMember { email } => match event {
            Event::MemberFound(None) => after == before && forall|id: int|
                !#[trigger] is_member(records.users, records.members, org, email@, id),
            Event::MemberFound(Some(found)) => {
                &&& is_member(records.users, records.members, org, email@, after.member)
                &&& found.atype == records.members[after.member].atype
                &&& found.status == records.members[after.member].status
                &&& after == (Stored {
                    member: after.member,
                    draft: records.members[after.member],
                    ..before
                })
            },
            _ => false,
        },
        Action::CountConfirmedOwners => {
            &&& after == before
            &&& event matches Event::Counted(count)
            &&& count == owners(codes, org, records.members).len()
        },
        Action::RevokeMember => {
            let status = (rules.revoked)(before.draft.status);
            &&& event == Event::Changed(status != before.draft.status)
            &&& after == (Stored { draft: MemberRecord { status, ..before.draft }, ..before })
        },
        Action::RestoreMember => {
            let status = (rules.restored)(before.draft.status);
            &&& event == Event::Changed(status != before.draft.status)
            &&& after == (Stored { draft: MemberRecord { status, ..before.draft }, ..before })
        },
        Action::SetExternalId { external_id } => {
            let kept = (rules.kept_id)(external_id@);
            &&& event == Event::Changed(kept != before.draft.external_id)
            &&& after == (Stored {
                draft: MemberRecord { external_id: kept, ..before.draft },
                ..before
            })
        },
        Action::SaveMember => settled(
            event,
            before,
            after == (Stored {
                records: Records {
                    members: records.members.insert(before.member, before.draft),
                    ..records
                },
                ..before
            }),
            after,
        ),
        Action::FindUser { email } => match event {
            Event::UserFound(None) => after == before && forall|id: int|
                !#[trigger] is_user(records.users, email@, id),
            Event::UserFound(Some(found)) => {
                &&& is_user(records.users, email@, after.user)
                &&& found.email@ == email@
                &&& after == (Stored { user: after.user, ..before })
            },
            _ => false,
        },
        Action::CreateUser { email } => match event {
            Event::UserCreated(Ok(made)) => {
                &&& !records.users.contains_key(after.user)
                &&& made.email@ == email@
                &&& after == (Stored {
                    records: Records { users: records.users.insert(after.user, email@), ..records },
                    user: after.user,
                    ..before
                })
            },
            Event::UserCreated(Err(_)) => after == before,
            _ => false,
        },
        Action::SaveInvitation { email } => settled(
            event,
            before,
            after == (Stored {
                records: Records {
                    invitations: records.invitations.insert(email@),
                    ..records
                },
                ..before
            }),
            after,
        ),
        Action::CreateMember { external_id, atype, status, .. } => settled(
            event,
            before,
            makes_member(
                before,
                MemberRecord {
                    org,
                    user: before.user,
                    external_id: (rules.kept_id)(external_id@),
                    atype,
                    status,
                },
                after,
            ),
            after,
        ),
        Action::DeleteUser => settled(
            event,
            before,
            after == (Stored {
                records: without_user(records, before.user),
                ..before
            }),
            after,
        ),
        Action::DeleteNewMember => settled(
            event,
            before,
            after == (Stored {
                records: without_member(records, before.created),
                ..before
            }),
            after,
        ),
        Action::FindGroup { external_id } => match event {
            Event::GroupFound(true) => {
                &&& is_group(records.groups, org, external_id@, after.group)
                &&& after.group == group_found(records.groups, org, external_id@)
                &&& after == (Stored { group: after.group, ..before })
            },
            Event::GroupFound(false) => after == before && forall|id: int|
                !#[trigger] is_group(records.groups, org, external_id@, id),
            _ => false,
        },
        Action::CreateGroup { name, external_id, .. } => settled(
            event,
            before,
            makes_group(
                before,
                GroupRecord { org, name: name@, external_id: (rules.kept_id)(external_id@) },
                after,
            ),
            after,
        ),
        Action::ClearGroup => settled(
            event,
            before,
            after == (Stored {
                records: Records {
                    group_members: records.group_members.filter(
                        |pair: (int, int)| pair.0 != before.group,
                    ),
                    ..records
                },
                ..before
            }),
            after,
        ),
        Action::FindMemberByExternalId { external_id } => match event {
            Event::GroupMemberFound(true) => {
                &&& is_external(records.members, org, external_id@, after.found)
                &&& after.found == external_found(records.members, org, external_id@)
                &&& after == (Stored { found: after.found, ..before })
            },
            Event::GroupMemberFound(false) => after == before && forall|id: int|
                !#[trigger] is_external(records.members, org, external_id@, id),
            _ => false,
        },
        Action::AddGroupMember => settled(
            event,
            before,
            after == (Stored {
                records: Records {
                    group_members: records.group_members.insert((before.group, before.found)),
                    ..records
                },
                ..before
            }),
            after,
        ),
        Action::ListMembers => {
            &&& event matches Event::Listed(listed)
            &&& after == (Stored { listing: after.listing, ..before })
            &&& lists_members(records.members, org, after.listing, listed@)
        },
        Action::DeleteListed { index } => settled(
            event,
            before,
            after == (Stored {
                records: without_member(records, before.listing[index as int]),
                ..before
            }),
            after,
        ),
        Action::Finish(_) => false,
        // The rest changes nothing of what is modelled.
        _ => after == before,
    }
}

/// The listing shows every member of the organization once.
pub open spec fn lists_members(
    members: Map<int, MemberRecord>,
    org: Seq<char>,
    ids: Seq<int>,
    listed: Seq<ListedMember>,
) -> bool {
    &&& ids.len() == listed.len()
    &&& ids.no_duplicates()
    &&& forall|id: int|
        ids.contains(id) <==> #[trigger] members.contains_key(id) && members[id].org == org
    &&& forall|k: int|
        0 <= k < ids.len() ==> {
            let record = members[#[trigger] ids[k]];
            &&& members.contains_key(ids[k])
            &&& record.org == org
            &&& listed[k].atype == record.atype
            &&& listed[k].status == record.status
            &&& record.external_id == (match listed[k].external_id {
                Some(text) => Some(text@),
                None => None,
            })
        }
}

/// An import at some point, with what is stored then.
pub struct ImportPoint {
    pub phase: Phase,
    pub stored: Stored,
}

/// The import goes from one point to the next by one piece of work.
pub open spec fn goes(
    data: OrgImportData,
    settings: ImportSettings,
    org: Seq<char>,
    rules: RecordRules,
    from: ImportPoint,
    to: ImportPoint,
) -> bool {
    exists|action: Action, event: Event| #[trigger]
        works(data, settings, org, rules, from, action, event, to)
}

/// The import goes from one point to the next by this piece of work and this
/// report on it.
pub open spec fn works(
    data: OrgImportData,
    settings: ImportSettings,
    org: Seq<char>,
    rules: RecordRules,
    from: ImportPoint,
    action: Action,
    event: Event,
    to: ImportPoint,
) -> bool {
    &&& asks(data, settings, from.phase, action)
    &&& answers(from.phase, event)
    &&& serves(rules, settings.codes, org, from.stored, action, event, to.stored)
    &&& to.phase == next(data, settings, from.phase, event)
}

/// The points of an import, from its start.
pub open spec fn history(
    data: OrgImportData,
    settings: ImportSettings,
    org: Seq<char>,
    rules: RecordRules,
    points: Seq<ImportPoint>,
) -> bool {
    &&& points.len() > 0
    &&& points[0].phase == member_or_after(data, settings, 0)
    &&& forall|k: int, n: int|
        0 <= k && n == k + 1 && n < points.len() ==> goes(
            data,
            settings,
            org,
            rules,
            #[trigger] points[k],
            #[trigger] points[n],
        )
}

/// Memberships have accounts, and members are in groups of their own
/// organization.
pub open spec fn valid_records(records: Records) -> bool {
    &&& records.members.dom().finite()
    &&& forall|id: int| #[trigger]
        records.members.contains_key(id) ==> records.users.contains_key(records.members[id].user)
    &&& forall|pair: (int, int)| #[trigger]
        records.group_members.contains(pair) ==> records.groups.contains_key(pair.0)
            && records.members.contains_key(pair.1) && records.groups[pair.0].org
            == records.members[pair.1].org
}

/// An import: what the directory sends, the settings, the organization, and how
/// records change.
pub struct Import {
    pub data: OrgImportData,
    pub settings: ImportSettings,
    pub org: Seq<char>,
    pub rules: RecordRules,
}

impl Import {
    /// The points of such an import, from its start.
    pub open spec fn history(self, points: Seq<ImportPoint>) -> bool {
        history(self.data, self.settings, self.org, self.rules, points)
    }

    /// The import goes from one point to the next by this piece of work.
    pub open spec fn works(
        self,
        from: ImportPoint,
        action: Action,
        event: Event,
        to: ImportPoint,
    ) -> bool {
        works(self.data, self.settings, self.org, self.rules, from, action, event, to)
    }

    /// The person `i` of the directory.
    pub open spec fn person(self, i: int) -> OrgImportUserData {
        self.data.members@[i]
    }

    /// The external id of group `g`.
    pub open spec fn group_id(self, g: int) -> Seq<char> {
        self.data.groups@[g].external_id@
    }

    /// The external ids of the members of group `g`.
    pub open spec fn group_ids(self, g: int) -> Seq<String> {
        self.data.groups@[g].member_external_ids@
    }

    /// How many confirmed owners the organization has.
    pub open spec fn owner_count(self, members: Map<int, MemberRecord>) -> nat {
        owners(self.settings.codes, self.org, members).len()
    }

    /// The membership is that of a confirmed owner of the organization.
    pub open spec fn owns(self, members: Map<int, MemberRecord>, id: int) -> bool {
        is_owner(self.settings.codes, self.org, members, id)
    }
}

} // verus!
