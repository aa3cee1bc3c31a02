//! The course of an import: which work follows which report, from person to
//! person, group to group and listed member to listed member.
use crate::base64::base64;
use crate::ldap_import::{
    answers, asks, member_or_after, next, sweep, Action, Event, FoundUser, ImportError,
    ImportSettings, ListedMember, OrgImportData, OrgImportUserData, Phase,
};
use crate::ldap_import_laws::{failing, lemma_sweep_goes_on};
use crate::text::{lowercased, trim_spec};
use vstd::prelude::*;
use vstd::utf8::encode_utf8;

verus! {

/// An import from its start: where it stood, and what it was told each time.
pub open spec fn course(
    data: OrgImportData,
    settings: ImportSettings,
    phases: Seq<Phase>,
    reports: Seq<Event>,
) -> bool {
    &&& phases.len() == reports.len() + 1
    &&& phases[0] == member_or_after(data, settings, 0)
    &&& forall|k: int, n: int|
        0 <= k < reports.len() && n == k + 1 ==> answers(#[trigger] phases[k], reports[k])
            && #[trigger] phases[n] == next(data, settings, phases[k], reports[k])
}

/// An import that ends well.
pub open spec fn good_course(
    data: OrgImportData,
    settings: ImportSettings,
    phases: Seq<Phase>,
    reports: Seq<Event>,
) -> bool {
    course(data, settings, phases, reports) && (phases.last() matches Phase::Done(outcome)
        && outcome is Ok)
}

/// The work that is due in this phase is just this.
pub open spec fn only_asks(
    data: OrgImportData,
    settings: ImportSettings,
    phase: Phase,
    action: Action,
) -> bool {
    asks(data, settings, phase, action) && forall|other: Action| #[trigger]
        asks(data, settings, phase, other) ==> other == action
}

/// The import comes to group `g`, or, when all groups are done or groups are
/// disabled, to the listing of the members if the directory overwrites, and to a
/// good end if not.
pub open spec fn comes_to_group(
    data: OrgImportData,
    settings: ImportSettings,
    g: int,
    phase: Phase,
) -> bool {
    if settings.groups_enabled && g < data.groups@.len() {
        phase == (Phase::FindGroup { g: g as usize }) && only_asks(
            data,
            settings,
            phase,
            Action::FindGroup { external_id: data.groups@[g].external_id },
        )
    } else if data.overwrite_existing {
        phase is ListMembers && only_asks(data, settings, phase, Action::ListMembers)
    } else {
        phase matches Phase::Done(outcome) && outcome is Ok
    }
}

/// The import comes to person `i`, or to the groups when all people are done.
pub open spec fn comes_to_person(
    data: OrgImportData,
    settings: ImportSettings,
    i: int,
    phase: Phase,
) -> bool {
    if i < data.members@.len() {
        phase == (Phase::FindMember { i: i as usize }) && only_asks(
            data,
            settings,
            phase,
            Action::FindMember { email: data.members@[i].email },
        )
    } else {
        comes_to_group(data, settings, 0, phase)
    }
}

/// An import starts with the first person of the directory.
pub proof fn imports_start_with_the_first_person(data: OrgImportData, settings: ImportSettings)
    ensures
        comes_to_person(data, settings, 0, member_or_after(data, settings, 0)),
{
}

proof fn lemma_step(
    data: OrgImportData,
    settings: ImportSettings,
    phases: Seq<Phase>,
    reports: Seq<Event>,
    x: int,
)
    requires
        course(data, settings, phases, reports),
        0 <= x < phases.len(),
    ensures
        x < reports.len() ==> answers(phases[x], reports[x]) && phases[x + 1] == next(
            data,
            settings,
            phases[x],
            reports[x],
        ) && x + 1 < phases.len(),
        phases[x] is Done ==> x == reports.len(),
{
    if x < reports.len() {
        assert(answers(phases[x], reports[x]) && phases[x + 1] == next(
            data,
            settings,
            phases[x],
            reports[x],
        ));
    }
}

/// An import that ends well goes on while there is work, and never fails.
proof fn lemma_good_step(
    data: OrgImportData,
    settings: ImportSettings,
    phases: Seq<Phase>,
    reports: Seq<Event>,
    x: int,
)
    requires
        good_course(data, settings, phases, reports),
        0 <= x < phases.len(),
    ensures
        !failing(phases[x]),
        !(phases[x] is Done) ==> x < reports.len() && answers(phases[x], reports[x]) && phases[x + 1]
            == next(data, settings, phases[x], reports[x]) && x + 1 < phases.len()
            && !failing(phases[x + 1]),
    decreases phases.len() - x,
{
    lemma_step(data, settings, phases, reports, x);
    if x == reports.len() {
        assert(phases[x] == phases.last());
    } else {
        lemma_good_step(data, settings, phases, reports, x + 1);
    }
}

/// Both a password and a key are given, and neither is empty.
pub open spec fn comes_with_password(person: OrgImportUserData) -> bool {
    &&& person.password matches Some(password) && password@.len() > 0
    &&& person.key matches Some(key) && key@.len() > 0
}

/// The account that the reports gave for the person who was looked up at `k`: the
/// one that was found, or else the one that was made.
pub open spec fn account_at(reports: Seq<Event>, k: int) -> FoundUser {
    match reports[k + 1] {
        Event::UserFound(Some(user)) => user,
        _ => reports[k + 2]->UserCreated_0->Ok_0,
    }
}

/// A person who is not deleted and not a member yet gets an account if there is
/// none - with an invitation where no mail is sent -, and then a membership: their
/// account is looked up by the email and made with it, and in the end a membership
/// is made with the person's external id. Where the person comes with a password
/// and a key, the account gets both and is saved first, whether it was found or
/// just made. Where mail is sent, the person is invited with the name and the
/// address of the organization. The next person follows.
#[verifier::rlimit(60)]
pub proof fn new_people_get_account_password_and_membership(
    data: OrgImportData,
    settings: ImportSettings,
    phases: Seq<Phase>,
    reports: Seq<Event>,
    k: int,
    i: int,
)
    requires
        good_course(data, settings, phases, reports),
        0 <= k < reports.len(),
        0 <= i < data.members@.len(),
        phases[k] == (Phase::FindMember { i: i as usize }),
        !data.members@[i].deleted,
        reports[k] == Event::MemberFound(None),
    ensures
        ({
            let person = data.members@[i];
            let found = reports[k + 1] matches Event::UserFound(Some(_));
            let made: int = if found {
                0
            } else if settings.mail_enabled {
                1
            } else {
                2
            };
            let h = k + 2 + made;
            let org = if comes_with_password(person) {
                h + 4
            } else {
                h
            };
            let user = account_at(reports, k);
            let end = if settings.mail_enabled {
                org + 3
            } else {
                org + 2
            };
            &&& end < phases.len()
            &&& only_asks(data, settings, phases[k + 1], Action::FindUser { email: person.email })
            &&& !found ==> reports[k + 1] == Event::UserFound(None) && only_asks(
                data,
                settings,
                phases[k + 2],
                Action::CreateUser { email: person.email },
            ) && reports[k + 2] == Event::UserCreated(Ok(user))
            &&& !found && !settings.mail_enabled ==> only_asks(
                data,
                settings,
                phases[k + 3],
                Action::SaveInvitation { email: user.email },
            )
            &&& comes_with_password(person) ==> {
                &&& reports[h] is Hashed && reports[h + 1] is Hashed
                &&& forall|action: Action| #[trigger]
                    asks(data, settings, phases[h], action) ==> (action matches Action::HashPassword {
                        secret,
                        salt,
                        iterations,
                    } && secret@ == encode_utf8(person.password->0@) && salt@ == encode_utf8(
                        lowercased(trim_spec(user.email@)),
                    ) && iterations == user.client_kdf_iter as u32)
                &&& forall|action: Action| #[trigger]
                    asks(data, settings, phases[h + 1], action) ==> (action matches
                        Action::HashPassword { secret, salt, iterations } && secret@
                        == reports[h]->Hashed_0@ && salt@ == encode_utf8(person.password->0@)
                        && iterations == 1)
                &&& forall|action: Action| #[trigger]
                    asks(data, settings, phases[h + 2], action) ==> (action matches
                        Action::SetPassword { hash, key } && hash@ == base64(
                        reports[h + 1]->Hashed_0@,
                    ) && key == person.key->0)
                &&& only_asks(data, settings, phases[h + 3], Action::SaveUser)
            }
            &&& only_asks(data, settings, phases[org], Action::FindOrganization)
            &&& reports[org] matches Event::OrganizationFound(Some(organization))
            &&& only_asks(
                data,
                settings,
                phases[org + 1],
                Action::CreateMember {
                    invited_by_email: organization.billing_email,
                    external_id: person.external_id,
                    access_all: false,
                    atype: settings.codes.user,
                    status: settings.codes.accepted,
                },
            )
            &&& settings.mail_enabled ==> only_asks(
                data,
                settings,
                phases[org + 2],
                Action::SendInvite {
                    organization_name: organization.name,
                    organization_email: organization.billing_email,
                },
            )
            &&& comes_to_person(data, settings, i + 1, phases[end])
        }),
{
    let person = data.members@[i];
    assert(data.members.len() == data.members@.len());
    lemma_good_step(data, settings, phases, reports, k);
    lemma_good_step(data, settings, phases, reports, k + 1);
    lemma_good_step(data, settings, phases, reports, k + 2);
    let found = reports[k + 1] matches Event::UserFound(Some(_));
    let user = account_at(reports, k);
    if !found {
        assert(reports[k + 1] == Event::UserFound(None));
        assert(reports[k + 2]->UserCreated_0 is Ok);
        lemma_good_step(data, settings, phases, reports, k + 3);
    }
    let made: int = if found {
        0
    } else if settings.mail_enabled {
        1
    } else {
        2
    };
    let h = k + 2 + made;
    lemma_good_step(data, settings, phases, reports, h);
    if comes_with_password(person) {
        assert(phases[h] matches Phase::HashMasterKey { i: at, user: whose, .. } && at == i && whose
            == user);
        lemma_good_step(data, settings, phases, reports, h + 1);
        lemma_good_step(data, settings, phases, reports, h + 2);
        lemma_good_step(data, settings, phases, reports, h + 3);
        lemma_good_step(data, settings, phases, reports, h + 4);
    }
    let org = if comes_with_password(person) {
        h + 4
    } else {
        h
    };
    assert(phases[org] is FindOrganization);
    lemma_good_step(data, settings, phases, reports, org);
    lemma_good_step(data, settings, phases, reports, org + 1);
    lemma_good_step(data, settings, phases, reports, org + 2);
}

/// A person who is a member already is revoked if the directory says that they are
/// deleted, and restored if not; but a confirmed owner is revoked only where more
/// than one is counted. Their external id is set in any case, and the membership
/// is saved if and only if that, the revoking or the restoring changed it. The
/// next person follows.
#[verifier::rlimit(60)]
pub proof fn members_are_revoked_or_restored(
    data: OrgImportData,
    settings: ImportSettings,
    phases: Seq<Phase>,
    reports: Seq<Event>,
    k: int,
    i: int,
)
    requires
        good_course(data, settings, phases, reports),
        0 <= k < reports.len(),
        0 <= i < data.members@.len(),
        phases[k] == (Phase::FindMember { i: i as usize }),
        reports[k] matches Event::MemberFound(Some(_)),
    ensures
        ({
            let person = data.members@[i];
            let member = reports[k]->MemberFound_0->0;
            let owner = member.atype == settings.codes.owner && member.status
                == settings.codes.confirmed;
            let counted = person.deleted && owner;
            let last = counted && reports[k + 1]->Counted_0 <= 1;
            let c = if counted {
                k + 2
            } else {
                k + 1
            };
            let s = if last {
                c
            } else {
                c + 1
            };
            let changed = (!last && reports[c] == Event::Changed(true)) || reports[s]
                == Event::Changed(true);
            let end = if changed {
                s + 2
            } else {
                s + 1
            };
            &&& end < phases.len()
            &&& counted ==> only_asks(
                data,
                settings,
                phases[k + 1],
                Action::CountConfirmedOwners,
            ) && reports[k + 1] is Counted
            &&& !last && person.deleted ==> only_asks(
                data,
                settings,
                phases[c],
                Action::RevokeMember,
            )
            &&& !person.deleted ==> only_asks(data, settings, phases[c], Action::RestoreMember)
            &&& !last ==> reports[c] is Changed
            &&& only_asks(
                data,
                settings,
                phases[s],
                Action::SetExternalId { external_id: person.external_id },
            )
            &&& reports[s] is Changed
            &&& changed ==> only_asks(data, settings, phases[s + 1], Action::SaveMember)
            &&& comes_to_person(data, settings, i + 1, phases[end])
        }),
{
    let person = data.members@[i];
    assert(data.members.len() == data.members@.len());
    let member = reports[k]->MemberFound_0->0;
    let owner = member.atype == settings.codes.owner && member.status == settings.codes.confirmed;
    let counted = person.deleted && owner;
    lemma_good_step(data, settings, phases, reports, k);
    lemma_good_step(data, settings, phases, reports, k + 1);
    lemma_good_step(data, settings, phases, reports, k + 2);
    let last = counted && reports[k + 1]->Counted_0 <= 1;
    if counted {
        lemma_good_step(data, settings, phases, reports, k + 3);
    }
    let c = if counted {
        k + 2
    } else {
        k + 1
    };
    let s = if last {
        c
    } else {
        c + 1
    };
    assert(phases[s] is SetExternalId);
    lemma_good_step(data, settings, phases, reports, s);
    lemma_good_step(data, settings, phases, reports, s + 1);
}

/// Nothing is done about a deleted person who is no member.
pub proof fn deleted_people_are_not_taken_in(
    data: OrgImportData,
    settings: ImportSettings,
    phases: Seq<Phase>,
    reports: Seq<Event>,
    k: int,
    i: int,
)
    requires
        course(data, settings, phases, reports),
        0 <= k < reports.len(),
        0 <= i < data.members@.len(),
        phases[k] == (Phase::FindMember { i: i as usize }),
        data.members@[i].deleted,
        reports[k] == Event::MemberFound(None),
    ensures
        comes_to_person(data, settings, i + 1, phases[k + 1]),
{
    assert(data.members.len() == data.members@.len());
    lemma_step(data, settings, phases, reports, k);
}

/// The lookups for group `g` come to its member `j`, or to the next group when
/// all are done.
pub open spec fn comes_to_group_member(
    data: OrgImportData,
    settings: ImportSettings,
    g: int,
    j: int,
    phase: Phase,
) -> bool {
    if j < data.groups@[g].member_external_ids@.len() {
        phase == (Phase::FindGroupMember { g: g as usize, k: j as usize }) && only_asks(
            data,
            settings,
            phase,
            Action::FindMemberByExternalId {
                external_id: data.groups@[g].member_external_ids@[j],
            },
        )
    } else {
        comes_to_group(data, settings, g + 1, phase)
    }
}

/// A group that is not there is made, with the name and the external id that the
/// directory gives it and without access to everything. Then it is emptied, and
/// its members are looked up one after another.
pub proof fn groups_are_made_and_emptied(
    data: OrgImportData,
    settings: ImportSettings,
    phases: Seq<Phase>,
    reports: Seq<Event>,
    k: int,
    g: int,
)
    requires
        good_course(data, settings, phases, reports),
        0 <= k < reports.len(),
        0 <= g < data.groups@.len(),
        phases[k] == (Phase::FindGroup { g: g as usize }),
    ensures
        ({
            let there = reports[k] == Event::GroupFound(true);
            let c = if there {
                k + 1
            } else {
                k + 2
            };
            &&& c + 1 < phases.len()
            &&& !there ==> only_asks(
                data,
                settings,
                phases[k + 1],
                Action::CreateGroup {
                    name: data.groups@[g].name,
                    access_all: false,
                    external_id: data.groups@[g].external_id,
                },
            )
            &&& only_asks(data, settings, phases[c], Action::ClearGroup)
            &&& comes_to_group_member(data, settings, g, 0, phases[c + 1])
        }),
{
    assert(data.groups.len() == data.groups@.len());
    lemma_good_step(data, settings, phases, reports, k);
    lemma_good_step(data, settings, phases, reports, k + 1);
    if reports[k] != Event::GroupFound(true) {
        lemma_good_step(data, settings, phases, reports, k + 2);
    }
}

/// A member of a group who is found by the external id is put into the group, and
/// the next one is looked up.
pub proof fn found_members_are_put_into_the_group(
    data: OrgImportData,
    settings: ImportSettings,
    phases: Seq<Phase>,
    reports: Seq<Event>,
    k: int,
    g: int,
    j: int,
)
    requires
        good_course(data, settings, phases, reports),
        0 <= k < reports.len(),
        0 <= g < data.groups@.len(),
        0 <= j < data.groups@[g].member_external_ids@.len(),
        phases[k] == (Phase::FindGroupMember { g: g as usize, k: j as usize }),
    ensures
        ({
            let there = reports[k] == Event::GroupMemberFound(true);
            let end = if there {
                k + 2
            } else {
                k + 1
            };
            &&& end < phases.len()
            &&& there ==> only_asks(data, settings, phases[k + 1], Action::AddGroupMember)
            &&& comes_to_group_member(data, settings, g, j + 1, phases[end])
        }),
{
    let ids = data.groups@[g].member_external_ids;
    assert(data.groups.len() == data.groups@.len());
    assert(ids.len() == ids@.len());
    lemma_good_step(data, settings, phases, reports, k);
    lemma_good_step(data, settings, phases, reports, k + 1);
}

/// A listed member has an external id that no person of the directory has.
pub open spec fn unlisted(data: OrgImportData, member: ListedMember) -> bool {
    member.external_id matches Some(external_id) && forall|i: int|
        0 <= i < data.members@.len() ==> (#[trigger] data.members@[i]).external_id@ != external_id@
}

/// The removals come to the first member from place `from` of the listing on who
/// has an external id that nobody in the directory has: a confirmed owner only
/// after the owners are counted, others at once. Where there is none, the import
/// ends well.
pub open spec fn comes_to_unlisted(
    data: OrgImportData,
    settings: ImportSettings,
    listed: Vec<ListedMember>,
    from: int,
    phase: Phase,
) -> bool {
    ||| (phase matches Phase::Done(outcome) && outcome is Ok) && forall|k: int|
        from <= k < listed@.len() ==> !unlisted(data, #[trigger] listed@[k])
    ||| exists|j: int|
        {
            &&& from <= j < listed@.len()
            &&& unlisted(data, #[trigger] listed@[j])
            &&& forall|k: int| from <= k < j ==> !unlisted(data, #[trigger] listed@[k])
            &&& if listed@[j].atype == settings.codes.owner && listed@[j].status
                == settings.codes.confirmed {
                phase == (Phase::CountBeforeDelete { listed, j: j as usize }) && only_asks(
                    data,
                    settings,
                    phase,
                    Action::CountConfirmedOwners,
                )
            } else {
                phase == (Phase::DeleteMember { listed, j: j as usize }) && only_asks(
                    data,
                    settings,
                    phase,
                    Action::DeleteListed { index: j as usize },
                )
            }
        }
}

proof fn lemma_sweep_comes_to_unlisted(
    data: OrgImportData,
    settings: ImportSettings,
    listed: Vec<ListedMember>,
    from: int,
)
    requires
        0 <= from <= listed@.len(),
    ensures
        comes_to_unlisted(data, settings, listed, from, sweep(data, settings, listed, from)),
    decreases listed@.len() - from,
{
    assert(listed.len() == listed@.len());
    let phase = sweep(data, settings, listed, from);
    lemma_sweep_goes_on(data, settings, listed, from);
    if from < listed@.len() {
        if unlisted(data, listed@[from]) {
            assert(phase is CountBeforeDelete || phase is DeleteMember);
        } else {
            lemma_sweep_comes_to_unlisted(data, settings, listed, from + 1);
            if !(phase is Done) {
                let j = choose|j: int|
                    {
                        &&& from + 1 <= j < listed@.len()
                        &&& unlisted(data, #[trigger] listed@[j])
                        &&& forall|k: int|
                            from + 1 <= k < j ==> !unlisted(data, #[trigger] listed@[k])
                        &&& if listed@[j].atype == settings.codes.owner && listed@[j].status
                            == settings.codes.confirmed {
                            phase == (Phase::CountBeforeDelete { listed, j: j as usize })
                                && only_asks(data, settings, phase, Action::CountConfirmedOwners)
                        } else {
                            phase == (Phase::DeleteMember { listed, j: j as usize }) && only_asks(
                                data,
                                settings,
                                phase,
                                Action::DeleteListed { index: j as usize },
                            )
                        }
                    };
                assert(unlisted(data, listed@[j]));
            }
        }
    }
}

/// Where the directory overwrites, the listed members who are not in it are
/// removed, from first to last; a confirmed owner goes only where more than one is
/// counted.
pub proof fn unlisted_members_are_removed_in_turn(
    data: OrgImportData,
    settings: ImportSettings,
    phases: Seq<Phase>,
    reports: Seq<Event>,
    k: int,
)
    requires
        good_course(data, settings, phases, reports),
        0 <= k < reports.len(),
    ensures
        phases[k] is ListMembers ==> (reports[k] matches Event::Listed(listed) && comes_to_unlisted(
            data,
            settings,
            listed,
            0,
            phases[k + 1],
        )),
        phases[k] matches Phase::CountBeforeDelete { listed, j } ==> j < listed@.len() ==> (
        reports[k] matches Event::Counted(owners) && if owners > 1 {
            phases[k + 1] == (Phase::DeleteMember { listed, j }) && only_asks(
                data,
                settings,
                phases[k + 1],
                Action::DeleteListed { index: j },
            )
        } else {
            comes_to_unlisted(data, settings, listed, j + 1, phases[k + 1])
        }),
        phases[k] matches Phase::DeleteMember { listed, j } ==> j < listed@.len()
            ==> comes_to_unlisted(data, settings, listed, j + 1, phases[k + 1]),
{
    lemma_good_step(data, settings, phases, reports, k);
    match phases[k] {
        Phase::ListMembers => {
            lemma_sweep_comes_to_unlisted(data, settings, reports[k]->Listed_0, 0);
        },
        Phase::CountBeforeDelete { listed, j } => {
            if j < listed@.len() {
                lemma_sweep_comes_to_unlisted(data, settings, listed, j + 1);
            }
        },
        Phase::DeleteMember { listed, j } => {
            if j < listed@.len() {
                lemma_sweep_comes_to_unlisted(data, settings, listed, j + 1);
            }
        },
        _ => {},
    }
}

/// What stops an import, and with which error: an account, an invitation, a
/// membership or a group that cannot be stored, an organization that is not
/// there, an invitation that cannot be sent. In the last case what was made for
/// the person goes first: the account if it is new, else the membership.
pub proof fn failures_stop_the_import(
    data: OrgImportData,
    settings: ImportSettings,
    phase: Phase,
    event: Event,
    action: Action,
)
    requires
        answers(phase, event),
    ensures
        ({
            let after = next(data, settings, phase, event);
            &&& event matches Event::Stored(Err(error)) ==> after == Phase::Done(
                Err(ImportError::Storage(error)),
            )
            &&& event matches Event::UserCreated(Err(error)) ==> after == Phase::Done(
                Err(ImportError::Storage(error)),
            )
            &&& event matches Event::OrganizationFound(None) ==> after == Phase::Done(
                Err(ImportError::NoOrganization),
            )
            &&& event matches Event::InviteSent(Err(_)) ==> (asks(data, settings, after, action)
                ==> if phase->SendInvite_created {
                action is DeleteUser
            } else {
                action is DeleteNewMember
            })
            &&& phase matches Phase::UndoUser { error } ==> (event matches Event::Stored(Ok(_))
                ==> after == Phase::Done(Err(ImportError::Invite(error))))
            &&& phase matches Phase::UndoMember { error } ==> (event matches Event::Stored(Ok(_))
                ==> after == Phase::Done(Err(ImportError::Invite(error))))
            &&& event matches Event::InviteSent(Err(error)) ==> (after == (Phase::UndoUser { error })
                || after == (Phase::UndoMember { error }))
        }),
{
}

/// Whether the account is new is remembered from its making to the invitation.
pub proof fn new_accounts_are_remembered(
    data: OrgImportData,
    settings: ImportSettings,
    phase: Phase,
    event: Event,
)
    requires
        answers(phase, event),
    ensures
        ({
            let after = next(data, settings, phase, event);
            let told = |p: Phase|
                match p {
                    Phase::HashMasterKey { created, .. } => Some(created),
                    Phase::HashMasterPassword { created, .. } => Some(created),
                    Phase::SetPassword { created, .. } => Some(created),
                    Phase::SaveUser { created, .. } => Some(created),
                    Phase::FindOrganization { created, .. } => Some(created),
                    Phase::CreateMember { created, .. } => Some(created),
                    Phase::SendInvite { created, .. } => Some(created),
                    _ => None,
                };
            &&& phase is FindUser ==> (told(after) matches Some(created) ==> !created)
            &&& phase is CreateUser ==> (told(after) matches Some(created) ==> created)
            &&& phase is SaveInvitation ==> (told(after) matches Some(created) ==> created)
            &&& told(phase) is Some && told(after) is Some ==> told(after) == told(phase)
        }),
{
}

/// An import that has ended tells just how, and stays there whatever it is told.
pub proof fn imports_tell_how_they_ended(
    data: OrgImportData,
    settings: ImportSettings,
    outcome: Result<(), ImportError>,
    event: Event,
)
    ensures
        only_asks(data, settings, Phase::Done(outcome), Action::Finish(outcome)),
        next(data, settings, Phase::Done(outcome), event) == Phase::Done(outcome),
{
}

/// What a caller is told of an import that stopped.
pub proof fn import_errors_say_what_went_wrong(error: String)
    ensures
        ImportError::Storage(error).text() == error@,
        ImportError::NoOrganization.text() == "Error looking up organization"@,
        ImportError::Invite(error).text() == "Error sending invite: "@ + error@ + " "@,
{
}

/// Each phase waits for the report on its own work.
pub proof fn phases_wait_for_their_report(
    data: OrgImportData,
    settings: ImportSettings,
    phase: Phase,
    event: Event,
    action: Action,
)
    requires
        asks(data, settings, phase, action),
    ensures
        answers(phase, event) == (match action {
            Action::FindMember { .. } => event is MemberFound,
            Action::CountConfirmedOwners => event is Counted,
            Action::RevokeMember => event is Changed,
            Action::RestoreMember => event is Changed,
            Action::SetExternalId { .. } => event is Changed,
            Action::FindUser { .. } => event is UserFound,
            Action::CreateUser { .. } => event is UserCreated,
            Action::HashPassword { .. } => event is Hashed,
            Action::SetPassword { .. } => event is PasswordSet,
            Action::FindOrganization => event is OrganizationFound,
            Action::SendInvite { .. } => event is InviteSent,
            Action::FindGroup { .. } => event is GroupFound,
            Action::FindMemberByExternalId { .. } => event is GroupMemberFound,
            Action::ListMembers => event is Listed,
            Action::Finish(_) => false,
            _ => event is Stored,
        }),
        !answers(phase, event) ==> next(data, settings, phase, event) == phase,
{
}

} // verus!
