//! Importing members and groups from a directory into an organization.
//!
//! An import alternates between storage, mail and key-derivation work and
//! decisions on what came back. The decisions stand here: an [`ImportRun`] says
//! which piece of work is due, and moves on when it is told the outcome. The
//! member, user, group and organization that the work is about are those that
//! the last lookups found or that the last creations made.
use crate::base64;
use crate::membership::RoleCodes;
use crate::text;
use vstd::prelude::*;
use vstd::slice::slice_to_vec;
use vstd::utf8::encode_utf8;

verus! {

/// A group as the directory knows it.
pub struct OrgImportGroupData {
    pub name: String,
    pub external_id: String,
    pub member_external_ids: Vec<String>,
}

/// A person as the directory knows them.
pub struct OrgImportUserData {
    pub email: String,
    pub external_id: String,
    pub deleted: bool,
    pub password: Option<String>,
    pub key: Option<String>,
}

/// What the directory sends.
pub struct OrgImportData {
    pub groups: Vec<OrgImportGroupData>,
    pub members: Vec<OrgImportUserData>,
    /// Members with an external id that `members` does not list are removed.
    pub overwrite_existing: bool,
}

/// What the server is set up to do.
#[derive(Clone, Copy, Debug, PartialEq, Eq, Structural)]
pub struct ImportSettings {
    pub mail_enabled: bool,
    pub groups_enabled: bool,
    pub codes: RoleCodes,
}

/// A member of the organization that a lookup found.
#[derive(Clone, Copy, Debug, PartialEq, Eq, Structural)]
pub struct FoundMember {
    pub atype: i32,
    pub status: i32,
}

/// An account that a lookup found or that was just created.
#[derive(Debug)]
pub struct FoundUser {
    pub email: String,
    pub client_kdf_iter: i32,
}

/// The organization that the import is for.
#[derive(Debug)]
pub struct FoundOrganization {
    pub name: String,
    pub billing_email: String,
}

/// A member in the organization's full listing.
#[derive(Debug)]
pub struct ListedMember {
    pub external_id: Option<String>,
    pub atype: i32,
    pub status: i32,
}

/// Why an import stopped.
#[derive(Debug)]
pub enum ImportError {
    /// A storage operation failed.
    Storage(String),
    /// The organization could not be found.
    NoOrganization,
    /// The invitation could not be sent.
    Invite(String),
}

/// What became of the work that was due.
#[derive(Debug)]
pub enum Event {
    MemberFound(Option<FoundMember>),
    /// The number of confirmed owners.
    Counted(i64),
    /// Whether the member record differs from what it was.
    Changed(bool),
    Stored(Result<(), String>),
    UserFound(Option<FoundUser>),
    UserCreated(Result<FoundUser, String>),
    Hashed(Vec<u8>),
    PasswordSet,
    OrganizationFound(Option<FoundOrganization>),
    InviteSent(Result<(), String>),
    GroupFound(bool),
    GroupMemberFound(bool),
    Listed(Vec<ListedMember>),
}

/// How far an import has come: the work that is due, with what is needed to go
/// on from it. `i` is the member of the directory that is being handled, `g`
/// the group and `k` the member of that group.
#[derive(Debug)]
pub enum Phase {
    FindMember { i: usize },
    CountBeforeRevoke { i: usize },
    Revoke { i: usize },
    Restore { i: usize },
    SetExternalId { i: usize, changed: bool },
    SaveMember { i: usize },
    FindUser { i: usize },
    CreateUser { i: usize },
    SaveInvitation { i: usize, user: FoundUser },
    HashMasterKey { i: usize, user: FoundUser, created: bool },
    /// The hash is derived from the master key, with the password as salt.
    HashMasterPassword { i: usize, created: bool, master_key: Vec<u8> },
    SetPassword { i: usize, created: bool, hash: Vec<u8> },
    SaveUser { i: usize, created: bool },
    FindOrganization { i: usize, created: bool },
    CreateMember { i: usize, created: bool, organization: FoundOrganization },
    SendInvite { i: usize, created: bool, organization: FoundOrganization },
    UndoUser { error: String },
    UndoMember { error: String },
    FindGroup { g: usize },
    CreateGroup { g: usize },
    ClearGroup { g: usize },
    FindGroupMember { g: usize, k: usize },
    AddGroupMember { g: usize, k: usize },
    ListMembers,
    CountBeforeDelete { listed: Vec<ListedMember>, j: usize },
    DeleteMember { listed: Vec<ListedMember>, j: usize },
    Done(Result<(), ImportError>),
}

/// A piece of work for the storage, the mailer or the key derivation.
#[derive(Debug)]
pub enum Action {
    /// Look a member of the organization up by email.
    FindMember { email: String },
    /// Count the confirmed owners of the organization.
    CountConfirmedOwners,
    RevokeMember,
    RestoreMember,
    SetExternalId { external_id: String },
    SaveMember,
    /// Look an account up by email.
    FindUser { email: String },
    /// Make and save an account.
    CreateUser { email: String },
    SaveInvitation { email: String },
    /// Derive a key from `secret`.
    HashPassword { secret: Vec<u8>, salt: Vec<u8>, iterations: u32 },
    /// Give the account a master password hash and a key.
    SetPassword { hash: String, key: String },
    SaveUser,
    FindOrganization,
    /// Make and save a membership of the account in the organization.
    CreateMember {
        invited_by_email: String,
        external_id: String,
        access_all: bool,
        atype: i32,
        status: i32,
    },
    SendInvite { organization_name: String, organization_email: String },
    DeleteUser,
    DeleteNewMember,
    FindGroup { external_id: String },
    /// Make and save a group.
    CreateGroup { name: String, access_all: bool, external_id: String },
    /// Take everyone out of the group.
    ClearGroup,
    FindMemberByExternalId { external_id: String },
    AddGroupMember,
    ListMembers,
    /// Delete the member at `index` of the listing.
    DeleteListed { index: usize },
    Finish(Result<(), ImportError>),
}

/// Both a master password and a key are given, and neither is empty.
pub open spec fn password_given(person: OrgImportUserData) -> bool {
    &&& person.password is Some
    &&& person.key is Some
    &&& person.password->0@.len() > 0
    &&& person.key->0@.len() > 0
}

/// The directory lists a person under this external id.
pub open spec fn lists(data: OrgImportData, external_id: Seq<char>) -> bool {
    exists|i: int|
        0 <= i < data.members@.len() && #[trigger] data.members@[i].external_id@ == external_id
}

/// The member came from a directory that no longer lists them.
pub open spec fn stale(data: OrgImportData, member: ListedMember) -> bool {
    member.external_id is Some && !lists(data, member.external_id->0@)
}

/// Where the import goes from the end of the groups.
pub open spec fn after_groups(data: OrgImportData) -> Phase {
    if data.overwrite_existing {
        Phase::ListMembers
    } else {
        Phase::Done(Ok(()))
    }
}

/// The group `g`, or what comes after the last one.
pub open spec fn group_or_after(
    data: OrgImportData,
    settings: ImportSettings,
    g: int,
) -> Phase {
    if settings.groups_enabled && g < data.groups@.len() {
        Phase::FindGroup { g: g as usize }
    } else {
        after_groups(data)
    }
}

/// The person `i`, or what comes after the last one.
pub open spec fn member_or_after(
    data: OrgImportData,
    settings: ImportSettings,
    i: int,
) -> Phase {
    if i < data.members@.len() {
        Phase::FindMember { i: i as usize }
    } else {
        group_or_after(data, settings, 0)
    }
}

/// The member `k` of group `g`, or what comes after the last one.
pub open spec fn group_member_or_after(
    data: OrgImportData,
    settings: ImportSettings,
    g: int,
    k: int,
) -> Phase {
    if k < data.groups@[g].member_external_ids@.len() {
        Phase::FindGroupMember { g: g as usize, k: k as usize }
    } else {
        group_or_after(data, settings, g + 1)
    }
}

/// The first stale member of the listing from `j` on, or the end.
pub open spec fn sweep(
    data: OrgImportData,
    settings: ImportSettings,
    listed: Vec<ListedMember>,
    j: int,
) -> Phase
    decreases listed@.len() - j,
{
    if j >= listed@.len() {
        Phase::Done(Ok(()))
    } else if !stale(data, listed@[j]) {
        sweep(data, settings, listed, j + 1)
    } else if settings.codes.confirmed_owner(listed@[j].atype, listed@[j].status) {
        Phase::CountBeforeDelete { listed, j: j as usize }
    } else {
        Phase::DeleteMember { listed, j: j as usize }
    }
}

/// What follows once the account of person `i` is there.
pub open spec fn with_user(
    data: OrgImportData,
    i: usize,
    user: FoundUser,
    created: bool,
) -> Phase {
    if password_given(data.members@[i as int]) {
        Phase::HashMasterKey { i, user, created }
    } else {
        Phase::FindOrganization { i, created }
    }
}

/// What a storage operation leads to: `then` if it worked, the end if not.
pub open spec fn stored(outcome: Result<(), String>, then: Phase) -> Phase {
    match outcome {
        Ok(()) => then,
        Err(error) => Phase::Done(Err(ImportError::Storage(error))),
    }
}

/// The event reports on the work that is due.
pub open spec fn answers(phase: Phase, event: Event) -> bool {
    match phase {
        Phase::FindMember { .. } => event is MemberFound,
        Phase::CountBeforeRevoke { .. } => event is Counted,
        Phase::Revoke { .. } => event is Changed,
        Phase::Restore { .. } => event is Changed,
        Phase::SetExternalId { .. } => event is Changed,
        Phase::SaveMember { .. } => event is Stored,
        Phase::FindUser { .. } => event is UserFound,
        Phase::CreateUser { .. } => event is UserCreated,
        Phase::SaveInvitation { .. } => event is Stored,
        Phase::HashMasterKey { .. } => event is Hashed,
        Phase::HashMasterPassword { .. } => event is Hashed,
        Phase::SetPassword { .. } => event is PasswordSet,
        Phase::SaveUser { .. } => event is Stored,
        Phase::FindOrganization { .. } => event is OrganizationFound,
        Phase::CreateMember { .. } => event is Stored,
        Phase::SendInvite { .. } => event is InviteSent,
        Phase::UndoUser { .. } => event is Stored,
        Phase::UndoMember { .. } => event is Stored,
        Phase::FindGroup { .. } => event is GroupFound,
        Phase::CreateGroup { .. } => event is Stored,
        Phase::ClearGroup { .. } => event is Stored,
        Phase::FindGroupMember { .. } => event is GroupMemberFound,
        Phase::AddGroupMember { .. } => event is Stored,
        Phase::ListMembers => event is Listed,
        Phase::CountBeforeDelete { .. } => event is Counted,
        Phase::DeleteMember { .. } => event is Stored,
        Phase::Done(_) => false,
    }
}

/// Where an import stands after it was told `event`. An event that does not
/// report on the work that is due changes nothing.
pub open spec fn next(
    data: OrgImportData,
    settings: ImportSettings,
    phase: Phase,
    event: Event,
) -> Phase {
    match (phase, event) {
        (Phase::FindMember { i }, Event::MemberFound(found)) => match (
            data.members@[i as int].deleted,
            found,
        ) {
            (true, Some(member)) => if settings.codes.confirmed_owner(
                member.atype,
                member.status,
            ) {
                Phase::CountBeforeRevoke { i }
            } else {
                Phase::Revoke { i }
            },
            (true, None) => member_or_after(data, settings, i + 1),
            (false, Some(_)) => Phase::Restore { i },
            (false, None) => Phase::FindUser { i },
        },
        (Phase::CountBeforeRevoke { i }, Event::Counted(owners)) => if owners <= 1 {
            Phase::SetExternalId { i, changed: false }
        } else {
            Phase::Revoke { i }
        },
        (Phase::Revoke { i }, Event::Changed(changed)) => Phase::SetExternalId { i, changed },
        (Phase::Restore { i }, Event::Changed(changed)) => Phase::SetExternalId { i, changed },
        (Phase::SetExternalId { i, changed }, Event::Changed(renamed)) => if changed || renamed {
            Phase::SaveMember { i }
        } else {
            member_or_after(data, settings, i + 1)
        },
        (Phase::SaveMember { i }, Event::Stored(outcome)) => stored(
            outcome,
            member_or_after(data, settings, i + 1),
        ),
        (Phase::FindUser { i }, Event::UserFound(Some(user))) => with_user(data, i, user, false),
        (Phase::FindUser { i }, Event::UserFound(None)) => Phase::CreateUser { i },
        (Phase::CreateUser { i }, Event::UserCreated(Ok(user))) => if settings.mail_enabled {
            with_user(data, i, user, true)
        } else {
            Phase::SaveInvitation { i, user }
        },
        (Phase::CreateUser { i }, Event::UserCreated(Err(error))) => Phase::Done(
            Err(ImportError::Storage(error)),
        ),
        (Phase::SaveInvitation { i, user }, Event::Stored(outcome)) => stored(
            outcome,
            with_user(data, i, user, true),
        ),
        (
            Phase::HashMasterKey { i, user, created },
            Event::Hashed(master_key),
        ) => Phase::HashMasterPassword { i, created, master_key },
        (
            Phase::HashMasterPassword { i, created, master_key },
            Event::Hashed(hash),
        ) => Phase::SetPassword { i, created, hash },
        (Phase::SetPassword { i, created, hash }, Event::PasswordSet) => Phase::SaveUser {
            i,
            created,
        },
        (Phase::SaveUser { i, created }, Event::Stored(outcome)) => stored(
            outcome,
            Phase::FindOrganization { i, created },
        ),
        (
            Phase::FindOrganization { i, created },
            Event::OrganizationFound(Some(organization)),
        ) => Phase::CreateMember { i, created, organization },
        (Phase::FindOrganization { i, created }, Event::OrganizationFound(None)) => Phase::Done(
            Err(ImportError::NoOrganization),
        ),
        (Phase::CreateMember { i, created, organization }, Event::Stored(outcome)) => stored(
            outcome,
            if settings.mail_enabled {
                Phase::SendInvite { i, created, organization }
            } else {
                member_or_after(data, settings, i + 1)
            },
        ),
        (Phase::SendInvite { i, created, organization }, Event::InviteSent(Ok(()))) =>
            member_or_after(data, settings, i + 1),
        (Phase::SendInvite { i, created, organization }, Event::InviteSent(Err(error))) =>
            if created {
            Phase::UndoUser { error }
        } else {
            Phase::UndoMember { error }
        },
        (Phase::UndoUser { error }, Event::Stored(outcome)) => stored(
            outcome,
            Phase::Done(Err(ImportError::Invite(error))),
        ),
        (Phase::UndoMember { error }, Event::Stored(outcome)) => stored(
            outcome,
            Phase::Done(Err(ImportError::Invite(error))),
        ),
        (Phase::FindGroup { g }, Event::GroupFound(found)) => if found {
            Phase::ClearGroup { g }
        } else {
            Phase::CreateGroup { g }
        },
        (Phase::CreateGroup { g }, Event::Stored(outcome)) => stored(
            outcome,
            Phase::ClearGroup { g },
        ),
        (Phase::ClearGroup { g }, Event::Stored(outcome)) => stored(
            outcome,
            group_member_or_after(data, settings, g as int, 0),
        ),
        (Phase::FindGroupMember { g, k }, Event::GroupMemberFound(found)) => if found {
            Phase::AddGroupMember { g, k }
        } else {
            group_member_or_after(data, settings, g as int, k + 1)
        },
        (Phase::AddGroupMember { g, k }, Event::Stored(outcome)) => stored(
            outcome,
            group_member_or_after(data, settings, g as int, k + 1),
        ),
        (Phase::ListMembers, Event::Listed(listed)) => sweep(data, settings, listed, 0),
        (Phase::CountBeforeDelete { listed, j }, Event::Counted(owners)) => if owners <= 1 {
            sweep(data, settings, listed, j + 1)
        } else {
            Phase::DeleteMember { listed, j }
        },
        (Phase::DeleteMember { listed, j }, Event::Stored(outcome)) => stored(
            outcome,
            sweep(data, settings, listed, j + 1),
        ),
        _ => phase,
    }
}

/// `action` is the work that is due.
pub open spec fn asks(
    data: OrgImportData,
    settings: ImportSettings,
    phase: Phase,
    action: Action,
) -> bool {
    match phase {
        Phase::FindMember { i } => action == (Action::FindMember {
            email: data.members@[i as int].email,
        }),
        Phase::CountBeforeRevoke { .. } => action == Action::CountConfirmedOwners,
        Phase::Revoke { .. } => action == Action::RevokeMember,
        Phase::Restore { .. } => action == Action::RestoreMember,
        Phase::SetExternalId { i, .. } => action == (Action::SetExternalId {
            external_id: data.members@[i as int].external_id,
        }),
        Phase::SaveMember { .. } => action == Action::SaveMember,
        Phase::FindUser { i } => action == (Action::FindUser {
            email: data.members@[i as int].email,
        }),
        Phase::CreateUser { i } => action == (Action::CreateUser {
            email: data.members@[i as int].email,
        }),
        Phase::SaveInvitation { user, .. } => action == (Action::SaveInvitation {
            email: user.email,
        }),
        Phase::HashMasterKey { i, user, .. } => {
            &&& action matches Action::HashPassword { secret, salt, iterations }
            &&& secret@ == encode_utf8(data.members@[i as int].password->0@)
            &&& salt@ == encode_utf8(text::lowercased(text::trim_spec(user.email@)))
            &&& iterations == user.client_kdf_iter as u32
        },
        Phase::HashMasterPassword { i, master_key, .. } => {
            &&& action matches Action::HashPassword { secret, salt, iterations }
            &&& secret@ == master_key@
            &&& salt@ == encode_utf8(data.members@[i as int].password->0@)
            &&& iterations == 1
        },
        Phase::SetPassword { i, hash, .. } => {
            &&& action matches Action::SetPassword { hash: encoded, key }
            &&& encoded@ == base64::base64(hash@)
            &&& key == data.members@[i as int].key->0
        },
        Phase::SaveUser { .. } => action == Action::SaveUser,
        Phase::FindOrganization { .. } => action == Action::FindOrganization,
        Phase::CreateMember { i, organization, .. } => action == (Action::CreateMember {
            invited_by_email: organization.billing_email,
            external_id: data.members@[i as int].external_id,
            access_all: false,
            atype: settings.codes.user,
            status: settings.codes.accepted,
        }),
        Phase::SendInvite { organization, .. } => action == (Action::SendInvite {
            organization_name: organization.name,
            organization_email: organization.billing_email,
        }),
        Phase::UndoUser { .. } => action == Action::DeleteUser,
        Phase::UndoMember { .. } => action == Action::DeleteNewMember,
        Phase::FindGroup { g } => action == (Action::FindGroup {
            external_id: data.groups@[g as int].external_id,
        }),
        Phase::CreateGroup { g } => action == (Action::CreateGroup {
            name: data.groups@[g as int].name,
            access_all: false,
            external_id: data.groups@[g as int].external_id,
        }),
        Phase::ClearGroup { .. } => action == Action::ClearGroup,
        Phase::FindGroupMember { g, k } => action == (Action::FindMemberByExternalId {
            external_id: data.groups@[g as int].member_external_ids@[k as int],
        }),
        Phase::AddGroupMember { .. } => action == Action::AddGroupMember,
        Phase::ListMembers => action == Action::ListMembers,
        Phase::CountBeforeDelete { .. } => action == Action::CountConfirmedOwners,
        Phase::DeleteMember { j, .. } => action == (Action::DeleteListed { index: j }),
        Phase::Done(outcome) => action == Action::Finish(outcome),
    }
}

/// The phase fits the data: what it points at is there, groups are touched
/// only where they are enabled, and members are removed only where the
/// directory asked for that and no longer lists them.
pub open spec fn fits(data: OrgImportData, settings: ImportSettings, phase: Phase) -> bool {
    let members = data.members@;
    let groups = data.groups@;
    match phase {
        Phase::FindMember { i } => i < members.len(),
        Phase::CountBeforeRevoke { i } => i < members.len() && members[i as int].deleted,
        Phase::Revoke { i } => i < members.len() && members[i as int].deleted,
        Phase::Restore { i } => i < members.len() && !members[i as int].deleted,
        Phase::SetExternalId { i, .. } => i < members.len(),
        Phase::SaveMember { i } => i < members.len(),
        Phase::FindUser { i } => i < members.len() && !members[i as int].deleted,
        Phase::CreateUser { i } => i < members.len() && !members[i as int].deleted,
        Phase::SaveInvitation { i, .. } => i < members.len() && !members[i as int].deleted
            && !settings.mail_enabled,
        Phase::HashMasterKey { i, .. } => i < members.len() && !members[i as int].deleted
            && password_given(members[i as int]),
        Phase::HashMasterPassword { i, .. } => i < members.len() && !members[i as int].deleted
            && password_given(members[i as int]),
        Phase::SetPassword { i, hash, .. } => i < members.len() && !members[i as int].deleted
            && password_given(members[i as int]) && hash@.len() <= usize::MAX / 512,
        Phase::SaveUser { i, .. } => i < members.len() && !members[i as int].deleted
            && password_given(members[i as int]),
        Phase::FindOrganization { i, .. } => i < members.len() && !members[i as int].deleted,
        Phase::CreateMember { i, .. } => i < members.len() && !members[i as int].deleted,
        Phase::SendInvite { i, .. } => i < members.len() && !members[i as int].deleted
            && settings.mail_enabled,
        Phase::UndoUser { .. } => settings.mail_enabled,
        Phase::UndoMember { .. } => settings.mail_enabled,
        Phase::FindGroup { g } => settings.groups_enabled && g < groups.len(),
        Phase::CreateGroup { g } => settings.groups_enabled && g < groups.len(),
        Phase::ClearGroup { g } => settings.groups_enabled && g < groups.len(),
        Phase::FindGroupMember { g, k } => settings.groups_enabled && g < groups.len()
            && k < groups[g as int].member_external_ids@.len(),
        Phase::AddGroupMember { g, k } => settings.groups_enabled && g < groups.len()
            && k < groups[g as int].member_external_ids@.len(),
        Phase::ListMembers => data.overwrite_existing,
        Phase::CountBeforeDelete { listed, j } => {
            &&& data.overwrite_existing
            &&& j < listed@.len()
            &&& stale(data, listed@[j as int])
            &&& settings.codes.confirmed_owner(
                listed@[j as int].atype,
                listed@[j as int].status,
            )
        },
        Phase::DeleteMember { listed, j } => {
            &&& data.overwrite_existing
            &&& j < listed@.len()
            &&& stale(data, listed@[j as int])
        },
        Phase::Done(_) => true,
    }
}

/// An import, as a value.
pub struct ImportState {
    /// The organization that the import is for.
    pub org_id: String,
    pub data: OrgImportData,
    pub settings: ImportSettings,
    pub phase: Phase,
}

impl ImportState {
    /// The phase fits the data and the settings.
    pub open spec fn wf(self) -> bool {
        fits(self.data, self.settings, self.phase)
    }
}

/// An import on its way.
pub struct ImportRun {
    org_id: String,
    data: OrgImportData,
    settings: ImportSettings,
    phase: Phase,
}

impl View for ImportRun {
    type V = ImportState;

    closed spec fn view(&self) -> ImportState {
        ImportState {
            org_id: self.org_id,
            data: self.data,
            settings: self.settings,
            phase: self.phase,
        }
    }
}

impl ImportRun {
    /// The organization that the import is for.
    pub fn org_id(&self) -> (org_id: &String)
        ensures
            *org_id == self@.org_id,
    {
        &self.org_id
    }

    /// How far the import has come.
    pub fn phase(&self) -> (phase: &Phase)
        ensures
            *phase == self@.phase,
    {
        &self.phase
    }

    /// The work that is due.
    pub fn pending(&self) -> (action: Action)
        requires
            self@.wf(),
        ensures
            asks(self@.data, self@.settings, self@.phase, action),
    {
        match &self.phase {
            Phase::FindMember { i } => Action::FindMember {
                email: self.data.members[*i].email.clone(),
            },
            Phase::CountBeforeRevoke { .. } => Action::CountConfirmedOwners,
            Phase::Revoke { .. } => Action::RevokeMember,
            Phase::Restore { .. } => Action::RestoreMember,
            Phase::SetExternalId { i, .. } => Action::SetExternalId {
                external_id: self.data.members[*i].external_id.clone(),
            },
            Phase::SaveMember { .. } => Action::SaveMember,
            Phase::FindUser { i } => Action::FindUser {
                email: self.data.members[*i].email.clone(),
            },
            Phase::CreateUser { i } => Action::CreateUser {
                email: self.data.members[*i].email.clone(),
            },
            Phase::SaveInvitation { user, .. } => Action::SaveInvitation {
                email: user.email.clone(),
            },
            Phase::HashMasterKey { i, user, .. } => {
                let salt = text::lowercase(text::trim(user.email.as_str()));
                Action::HashPassword {
                    secret: password_bytes(&self.data.members[*i]),
                    salt: salt.as_str().as_bytes_vec(),
                    iterations: #[verifier::truncate]
                    (user.client_kdf_iter as u32),
                }
            },
            Phase::HashMasterPassword { i, master_key, .. } => Action::HashPassword {
                secret: slice_to_vec(master_key.as_slice()),
                salt: password_bytes(&self.data.members[*i]),
                iterations: 1,
            },
            Phase::SetPassword { i, hash, .. } => {
                let key = match &self.data.members[*i].key {
                    Some(key) => key.clone(),
                    None => String::new(),
                };
                Action::SetPassword { hash: base64::encode(hash.as_slice()), key }
            },
            Phase::SaveUser { .. } => Action::SaveUser,
            Phase::FindOrganization { .. } => Action::FindOrganization,
            Phase::CreateMember { i, organization, .. } => Action::CreateMember {
                invited_by_email: organization.billing_email.clone(),
                external_id: self.data.members[*i].external_id.clone(),
                access_all: false,
                atype: self.settings.codes.user,
                status: self.settings.codes.accepted,
            },
            Phase::SendInvite { organization, .. } => Action::SendInvite {
                organization_name: organization.name.clone(),
                organization_email: organization.billing_email.clone(),
            },
            Phase::UndoUser { .. } => Action::DeleteUser,
            Phase::UndoMember { .. } => Action::DeleteNewMember,
            Phase::FindGroup { g } => Action::FindGroup {
                external_id: self.data.groups[*g].external_id.clone(),
            },
            Phase::CreateGroup { g } => Action::CreateGroup {
                name: self.data.groups[*g].name.clone(),
                access_all: false,
                external_id: self.data.groups[*g].external_id.clone(),
            },
            Phase::ClearGroup { .. } => Action::ClearGroup,
            Phase::FindGroupMember { g, k } => Action::FindMemberByExternalId {
                external_id: self.data.groups[*g].member_external_ids[*k].clone(),
            },
            Phase::AddGroupMember { .. } => Action::AddGroupMember,
            Phase::ListMembers => Action::ListMembers,
            Phase::CountBeforeDelete { .. } => Action::CountConfirmedOwners,
            Phase::DeleteMember { j, .. } => Action::DeleteListed { index: *j },
            Phase::Done(outcome) => {
                match outcome {
                    Ok(done) => Action::Finish(Ok(*done)),
                    Err(error) => Action::Finish(Err(error.clone())),
                }
            },
        }
    }

    /// Moves on, now that `event` reports on the work that was due.
    pub fn advance(self, event: Event) -> (run: ImportRun)
        requires
            self@.wf(),
            event matches Event::Hashed(hash) ==> hash@.len() <= usize::MAX / 512,
        ensures
            run@.wf(),
            run@ == (ImportState {
                phase: next(self@.data, self@.settings, self@.phase, event),
                ..self@
            }),
    {
        let ImportRun { org_id, data, settings, phase } = self;
        let next_phase = advance_phase(&data, &settings, phase, event);
        ImportRun { org_id, data, settings, phase: next_phase }
    }
}

impl ImportError {
    /// What the caller is told.
    pub open spec fn text(self) -> Seq<char> {
        match self {
            ImportError::Storage(error) => error@,
            ImportError::NoOrganization => "Error looking up organization"@,
            ImportError::Invite(error) => "Error sending invite: "@ + error@ + " "@,
        }
    }

    /// What the caller is told.
    pub fn message(&self) -> (text: String)
        ensures
            text@ == self.text(),
    {
        match self {
            ImportError::Storage(error) => error.clone(),
            ImportError::NoOrganization => "Error looking up organization".to_owned(),
            ImportError::Invite(error) => "Error sending invite: ".to_owned().concat(
                error.as_str(),
            ).concat(" "),
        }
    }
}

impl Clone for ImportError {
    fn clone(&self) -> (res: Self)
        ensures
            res == *self,
    {
        match self {
            ImportError::Storage(text) => ImportError::Storage(text.clone()),
            ImportError::NoOrganization => ImportError::NoOrganization,
            ImportError::Invite(text) => ImportError::Invite(text.clone()),
        }
    }
}

/// Starts an import into the organization.
pub fn ldap_import(org_id: String, data: OrgImportData, settings: ImportSettings) -> (run: ImportRun)
    ensures
        run@.wf(),
        run@ == (ImportState {
            org_id,
            data,
            settings,
            phase: member_or_after(data, settings, 0),
        }),
{
    let phase = start_member(&data, &settings, 0);
    ImportRun { org_id, data, settings, phase }
}

/// The UTF-8 bytes of the person's master password.
fn password_bytes(person: &OrgImportUserData) -> (bytes: Vec<u8>)
    requires
        person.password is Some,
    ensures
        bytes@ == encode_utf8(person.password->0@),
{
    match &person.password {
        Some(password) => password.as_str().as_bytes_vec(),
        None => Vec::new(),
    }
}

/// Whether both a master password and a key are given and neither is empty.
fn has_password(person: &OrgImportUserData) -> (res: bool)
    ensures
        res == password_given(*person),
{
    match (&person.password, &person.key) {
        (Some(password), Some(key)) => !password.as_str().is_empty() && !key.as_str().is_empty(),
        _ => false,
    }
}

/// Whether the directory lists a person under this external id.
fn has_listed(data: &OrgImportData, external_id: &String) -> (res: bool)
    ensures
        res == lists(*data, external_id@),
{
    let mut i: usize = 0;
    while i < data.members.len()
        invariant
            i <= data.members@.len(),
            forall|k: int|
                0 <= k < i ==> #[trigger] data.members@[k].external_id@ != external_id@,
        decreases data.members@.len() - i,
    {
        if data.members[i].external_id == *external_id {
            assert(data.members@[i as int].external_id@ == external_id@);
            return true;
        }
        i += 1;
    }
    false
}

/// Whether the member came from a directory that no longer lists them.
fn is_stale(data: &OrgImportData, member: &ListedMember) -> (res: bool)
    ensures
        res == stale(*data, *member),
{
    match &member.external_id {
        Some(external_id) => !has_listed(data, external_id),
        None => false,
    }
}

fn start_sweep_or_end(data: &OrgImportData) -> (phase: Phase)
    ensures
        phase == after_groups(*data),
{
    if data.overwrite_existing {
        Phase::ListMembers
    } else {
        Phase::Done(Ok(()))
    }
}

fn start_group(data: &OrgImportData, settings: &ImportSettings, g: usize) -> (phase: Phase)
    ensures
        phase == group_or_after(*data, *settings, g as int),
{
    if settings.groups_enabled && g < data.groups.len() {
        Phase::FindGroup { g }
    } else {
        start_sweep_or_end(data)
    }
}

fn start_member(data: &OrgImportData, settings: &ImportSettings, i: usize) -> (phase: Phase)
    ensures
        phase == member_or_after(*data, *settings, i as int),
{
    if i < data.members.len() {
        Phase::FindMember { i }
    } else {
        start_group(data, settings, 0)
    }
}

fn start_group_member(
    data: &OrgImportData,
    settings: &ImportSettings,
    g: usize,
    k: usize,
) -> (phase: Phase)
    requires
        g < data.groups@.len(),
    ensures
        phase == group_member_or_after(*data, *settings, g as int, k as int),
{
    if k < data.groups[g].member_external_ids.len() {
        Phase::FindGroupMember { g, k }
    } else {
        let count: usize = data.groups.len();
        start_group(data, settings, g + 1)
    }
}

fn start_user(data: &OrgImportData, i: usize, user: FoundUser, created: bool) -> (phase: Phase)
    requires
        i < data.members@.len(),
    ensures
        phase == with_user(*data, i, user, created),
{
    if has_password(&data.members[i]) {
        Phase::HashMasterKey { i, user, created }
    } else {
        Phase::FindOrganization { i, created }
    }
}

fn resume_sweep(
    data: &OrgImportData,
    settings: &ImportSettings,
    listed: Vec<ListedMember>,
    from: usize,
) -> (phase: Phase)
    requires
        from <= listed@.len(),
    ensures
        phase == sweep(*data, *settings, listed, from as int),
        data.overwrite_existing ==> fits(*data, *settings, phase),
{
    let mut j: usize = from;
    while j < listed.len()
        invariant
            j <= listed@.len(),
            sweep(*data, *settings, listed, from as int) == sweep(
                *data,
                *settings,
                listed,
                j as int,
            ),
        decreases listed@.len() - j,
    {
        if is_stale(data, &listed[j]) {
            return if settings.codes.is_confirmed_owner(listed[j].atype, listed[j].status) {
                Phase::CountBeforeDelete { listed, j }
            } else {
                Phase::DeleteMember { listed, j }
            };
        }
        j += 1;
    }
    Phase::Done(Ok(()))
}

fn settle(outcome: Result<(), String>, then: Phase) -> (phase: Phase)
    ensures
        phase == stored(outcome, then),
{
    match outcome {
        Ok(()) => then,
        Err(error) => Phase::Done(Err(ImportError::Storage(error))),
    }
}

/// Where the import goes on from `phase`; see [`next`].
fn advance_phase(
    data: &OrgImportData,
    settings: &ImportSettings,
    phase: Phase,
    event: Event,
) -> (after: Phase)
    requires
        fits(*data, *settings, phase),
        event matches Event::Hashed(hash) ==> hash@.len() <= usize::MAX / 512,
    ensures
        fits(*data, *settings, after),
        after == next(*data, *settings, phase, event),
{
    let member_count: usize = data.members.len();
    match (phase, event) {
        (Phase::FindMember { i }, Event::MemberFound(found)) => {
            match (data.members[i].deleted, found) {
                (true, Some(member)) => {
                    if settings.codes.is_confirmed_owner(member.atype, member.status) {
                        Phase::CountBeforeRevoke { i }
                    } else {
                        Phase::Revoke { i }
                    }
                },
                (true, None) => start_member(data, settings, i + 1),
                (false, Some(_)) => Phase::Restore { i },
                (false, None) => Phase::FindUser { i },
            }
        },
        (Phase::CountBeforeRevoke { i }, Event::Counted(owners)) => {
            if owners <= 1 {
                Phase::SetExternalId { i, changed: false }
            } else {
                Phase::Revoke { i }
            }
        },
        (Phase::Revoke { i }, Event::Changed(changed)) => Phase::SetExternalId { i, changed },
        (Phase::Restore { i }, Event::Changed(changed)) => Phase::SetExternalId { i, changed },
        (Phase::SetExternalId { i, changed }, Event::Changed(renamed)) => {
            if changed || renamed {
                Phase::SaveMember { i }
            } else {
                start_member(data, settings, i + 1)
            }
        },
        (Phase::SaveMember { i }, Event::Stored(outcome)) => settle(
            outcome,
            start_member(data, settings, i + 1),
        ),
        (Phase::FindUser { i }, Event::UserFound(Some(user))) => start_user(data, i, user, false),
        (Phase::FindUser { i }, Event::UserFound(None)) => Phase::CreateUser { i },
        (Phase::CreateUser { i }, Event::UserCreated(Ok(user))) => {
            if settings.mail_enabled {
                start_user(data, i, user, true)
            } else {
                Phase::SaveInvitation { i, user }
            }
        },
        (Phase::CreateUser { .. }, Event::UserCreated(Err(error))) => Phase::Done(
            Err(ImportError::Storage(error)),
        ),
        (Phase::SaveInvitation { i, user }, Event::Stored(outcome)) => settle(
            outcome,
            start_user(data, i, user, true),
        ),
        (Phase::HashMasterKey { i, created, .. }, Event::Hashed(master_key)) => {
            Phase::HashMasterPassword { i, created, master_key }
        },
        (Phase::HashMasterPassword { i, created, .. }, Event::Hashed(hash)) => {
            Phase::SetPassword { i, created, hash }
        },
        (Phase::SetPassword { i, created, .. }, Event::PasswordSet) => Phase::SaveUser {
            i,
            created,
        },
        (Phase::SaveUser { i, created }, Event::Stored(outcome)) => settle(
            outcome,
            Phase::FindOrganization { i, created },
        ),
        (
            Phase::FindOrganization { i, created },
            Event::OrganizationFound(Some(organization)),
        ) => Phase::CreateMember { i, created, organization },
        (Phase::FindOrganization { .. }, Event::OrganizationFound(None)) => Phase::Done(
            Err(ImportError::NoOrganization),
        ),
        (Phase::CreateMember { i, created, organization }, Event::Stored(outcome)) => {
            if settings.mail_enabled {
                settle(outcome, Phase::SendInvite { i, created, organization })
            } else {
                settle(outcome, start_member(data, settings, i + 1))
            }
        },
        (Phase::SendInvite { i, .. }, Event::InviteSent(Ok(()))) => start_member(
            data,
            settings,
            i + 1,
        ),
        (Phase::SendInvite { created, .. }, Event::InviteSent(Err(error))) => {
            if created {
                Phase::UndoUser { error }
            } else {
                Phase::UndoMember { error }
            }
        },
        (Phase::UndoUser { error }, Event::Stored(outcome)) => settle(
            outcome,
            Phase::Done(Err(ImportError::Invite(error))),
        ),
        (Phase::UndoMember { error }, Event::Stored(outcome)) => settle(
            outcome,
            Phase::Done(Err(ImportError::Invite(error))),
        ),
        (Phase::FindGroup { g }, Event::GroupFound(found)) => {
            if found {
                Phase::ClearGroup { g }
            } else {
                Phase::CreateGroup { g }
            }
        },
        (Phase::CreateGroup { g }, Event::Stored(outcome)) => settle(
            outcome,
            Phase::ClearGroup { g },
        ),
        (Phase::ClearGroup { g }, Event::Stored(outcome)) => settle(
            outcome,
            start_group_member(data, settings, g, 0),
        ),
        (Phase::FindGroupMember { g, k }, Event::GroupMemberFound(found)) => {
            let member_count: usize = data.groups[g].member_external_ids.len();
            if found {
                Phase::AddGroupMember { g, k }
            } else {
                start_group_member(data, settings, g, k + 1)
            }
        },
        (Phase::AddGroupMember { g, k }, Event::Stored(outcome)) => {
            let member_count: usize = data.groups[g].member_external_ids.len();
            settle(outcome, start_group_member(data, settings, g, k + 1))
        },
        (Phase::ListMembers, Event::Listed(listed)) => resume_sweep(data, settings, listed, 0),
        (Phase::CountBeforeDelete { listed, j }, Event::Counted(owners)) => {
            let listed_count: usize = listed.len();
            if owners <= 1 {
                resume_sweep(data, settings, listed, j + 1)
            } else {
                Phase::DeleteMember { listed, j }
            }
        },
        (Phase::DeleteMember { listed, j }, Event::Stored(outcome)) => {
            let listed_count: usize = listed.len();
            settle(outcome, resume_sweep(data, settings, listed, j + 1))
        },
        (phase, _) => phase,
    }
}

} // verus!
