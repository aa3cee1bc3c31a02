use org_bridge::ldap_import::{
    ldap_import, Action, Event, FoundMember, FoundOrganization, FoundUser, ImportSettings,
    ListedMember, OrgImportData, OrgImportGroupData, OrgImportUserData,
};
use org_bridge::membership::RoleCodes;

const ACCEPTED: i32 = 1;
const CONFIRMED: i32 = 2;
const REVOKED: i32 = -126;
const OWNER: i32 = 0;
const USER: i32 = 7;

#[derive(Clone, Debug, PartialEq)]
struct Member {
    id: usize,
    org: String,
    email: String,
    external_id: Option<String>,
    atype: i32,
    status: i32,
}

#[derive(Clone, Debug, PartialEq)]
struct Group {
    external_id: String,
    members: Vec<usize>,
}

#[derive(Clone, Debug, Default, PartialEq)]
struct Records {
    users: Vec<String>,
    members: Vec<Member>,
    groups: Vec<Group>,
}

/// A storage in memory, with what its last lookups gave.
#[derive(Default)]
struct Store {
    records: Records,
    draft: Option<Member>,
    user: String,
    created: usize,
    group: usize,
    found: usize,
    listing: Vec<usize>,
    mails: usize,
    saves: usize,
    mail_fails: bool,
}

impl Store {
    fn add(&mut self, org: &str, email: &str, external_id: Option<&str>, atype: i32, status: i32) -> usize {
        if !self.records.users.contains(&email.to_owned()) {
            self.records.users.push(email.to_owned());
        }
        let id = self.records.members.iter().map(|member| member.id + 1).max().unwrap_or(0);
        self.records.members.push(Member {
            id,
            org: org.to_owned(),
            email: email.to_owned(),
            external_id: external_id.map(str::to_owned),
            atype,
            status,
        });
        id
    }

    fn remove(&mut self, id: usize) {
        self.records.members.retain(|member| member.id != id);
        for group in &mut self.records.groups {
            group.members.retain(|member| *member != id);
        }
    }

    fn draft(&mut self) -> &mut Member {
        self.draft.as_mut().unwrap()
    }

    fn perform(&mut self, org: &str, action: Action) -> Event {
        match action {
            Action::FindMember { email } => {
                self.draft = self
                    .records
                    .members
                    .iter()
                    .find(|member| member.org == org && member.email == email)
                    .cloned();
                Event::MemberFound(self.draft.as_ref().map(|member| FoundMember {
                    atype: member.atype,
                    status: member.status,
                }))
            }
            Action::CountConfirmedOwners => Event::Counted(self.owners(org) as i64),
            Action::RevokeMember => {
                let changed = self.draft().status != REVOKED;
                self.draft().status = REVOKED;
                Event::Changed(changed)
            }
            Action::RestoreMember => {
                let changed = self.draft().status == REVOKED;
                if changed {
                    self.draft().status = CONFIRMED;
                }
                Event::Changed(changed)
            }
            Action::SetExternalId { external_id } => {
                let kept = Some(external_id);
                let changed = self.draft().external_id != kept;
                self.draft().external_id = kept;
                Event::Changed(changed)
            }
            Action::SaveMember => {
                self.saves += 1;
                let draft = self.draft().clone();
                for member in &mut self.records.members {
                    if member.id == draft.id {
                        *member = draft.clone();
                    }
                }
                Event::Stored(Ok(()))
            }
            Action::FindUser { email } => {
                let found = self.records.users.contains(&email);
                self.user = email.clone();
                Event::UserFound(if found { Some(FoundUser { email, client_kdf_iter: 1 }) } else { None })
            }
            Action::CreateUser { email } => {
                self.records.users.push(email.clone());
                self.user = email.clone();
                Event::UserCreated(Ok(FoundUser { email, client_kdf_iter: 1 }))
            }
            Action::SaveInvitation { .. } | Action::SaveUser => Event::Stored(Ok(())),
            Action::HashPassword { secret, .. } => Event::Hashed(secret),
            Action::SetPassword { .. } => Event::PasswordSet,
            Action::FindOrganization => Event::OrganizationFound(Some(FoundOrganization {
                name: "Acme".to_owned(),
                billing_email: "pay@acme.example".to_owned(),
            })),
            Action::CreateMember { external_id, atype, status, .. } => {
                let user = self.user.clone();
                self.created = self.add(org, &user, Some(&external_id), atype, status);
                Event::Stored(Ok(()))
            }
            Action::SendInvite { .. } => {
                self.mails += 1;
                Event::InviteSent(if self.mail_fails { Err("down".to_owned()) } else { Ok(()) })
            }
            Action::DeleteUser => {
                let user = self.user.clone();
                self.records.users.retain(|email| *email != user);
                self.records.members.retain(|member| member.email != user);
                Event::Stored(Ok(()))
            }
            Action::DeleteNewMember => {
                self.remove(self.created);
                Event::Stored(Ok(()))
            }
            Action::FindGroup { external_id } => {
                let place = self.records.groups.iter().position(|group| group.external_id == external_id);
                self.group = place.unwrap_or(0);
                Event::GroupFound(place.is_some())
            }
            Action::CreateGroup { external_id, .. } => {
                self.group = self.records.groups.len();
                self.records.groups.push(Group { external_id, members: Vec::new() });
                Event::Stored(Ok(()))
            }
            Action::ClearGroup => {
                self.records.groups[self.group].members.clear();
                Event::Stored(Ok(()))
            }
            Action::FindMemberByExternalId { external_id } => {
                let found = self
                    .records
                    .members
                    .iter()
                    .find(|member| member.org == org && member.external_id.as_ref() == Some(&external_id));
                self.found = found.map(|member| member.id).unwrap_or(0);
                Event::GroupMemberFound(found.is_some())
            }
            Action::AddGroupMember => {
                let found = self.found;
                self.records.groups[self.group].members.push(found);
                Event::Stored(Ok(()))
            }
            Action::ListMembers => {
                let members: Vec<&Member> =
                    self.records.members.iter().filter(|member| member.org == org).collect();
                self.listing = members.iter().map(|member| member.id).collect();
                Event::Listed(
                    members
                        .iter()
                        .map(|member| ListedMember {
                            external_id: member.external_id.clone(),
                            atype: member.atype,
                            status: member.status,
                        })
                        .collect(),
                )
            }
            Action::DeleteListed { index } => {
                self.remove(self.listing[index]);
                Event::Stored(Ok(()))
            }
            Action::Finish(_) => unreachable!(),
        }
    }

    fn owners(&self, org: &str) -> usize {
        self.records
            .members
            .iter()
            .filter(|member| member.org == org && member.atype == OWNER && member.status == CONFIRMED)
            .count()
    }

    fn import(&mut self, org: &str, data: OrgImportData, settings: ImportSettings) -> bool {
        let mut run = ldap_import(org.to_owned(), data, settings);
        loop {
            match run.pending() {
                Action::Finish(outcome) => return outcome.is_ok(),
                action => {
                    let owners = self.owners(org);
                    let event = self.perform(org, action);
                    assert!(owners == 0 || self.owners(org) > 0);
                    run = run.advance(event);
                }
            }
        }
    }
}

fn settings(groups_enabled: bool) -> ImportSettings {
    ImportSettings {
        mail_enabled: true,
        groups_enabled,
        codes: RoleCodes { accepted: ACCEPTED, confirmed: CONFIRMED, owner: OWNER, user: USER },
    }
}

fn person(email: &str, external_id: &str, deleted: bool) -> OrgImportUserData {
    OrgImportUserData {
        email: email.to_owned(),
        external_id: external_id.to_owned(),
        deleted,
        password: None,
        key: None,
    }
}

fn group(external_id: &str, ids: &[&str]) -> OrgImportGroupData {
    OrgImportGroupData {
        name: external_id.to_owned(),
        external_id: external_id.to_owned(),
        member_external_ids: ids.iter().map(|id| (*id).to_owned()).collect(),
    }
}

fn directory() -> OrgImportData {
    OrgImportData {
        groups: vec![group("g1", &["1", "9"]), group("g2", &["2", "1"]), group("g1", &["2"])],
        members: vec![
            person("new@x.example", "1", false),
            person("old@x.example", "2", false),
            person("gone@x.example", "3", true),
            person("never@x.example", "4", true),
        ],
        overwrite_existing: false,
    }
}

fn filled() -> Store {
    let mut store = Store::default();
    store.add("org", "boss@x.example", None, OWNER, CONFIRMED);
    store.add("org", "old@x.example", None, USER, REVOKED);
    store.add("org", "gone@x.example", Some("3"), USER, CONFIRMED);
    store.add("other", "old@x.example", Some("1"), OWNER, CONFIRMED);
    store
}

#[test]
fn the_last_owner_outlives_every_import() {
    let mut store = Store::default();
    store.add("org", "a@x.example", Some("1"), OWNER, CONFIRMED);
    store.add("org", "b@x.example", Some("2"), OWNER, CONFIRMED);
    let data = OrgImportData {
        groups: Vec::new(),
        members: vec![person("a@x.example", "8", true), person("b@x.example", "9", true)],
        overwrite_existing: false,
    };
    assert!(store.import("org", data, settings(true)));
    assert_eq!(store.owners("org"), 1);
    let data = OrgImportData { groups: Vec::new(), members: Vec::new(), overwrite_existing: true };
    assert!(store.import("org", data, settings(true)));
    assert_eq!(store.owners("org"), 1);
    assert_eq!(store.records.members.len(), 1);
}

#[test]
fn other_organizations_are_left_alone() {
    let mut store = filled();
    let before = store.records.clone();
    let mut data = directory();
    data.overwrite_existing = true;
    assert!(store.import("org", data, settings(false)));
    let others = |records: &Records| -> Vec<Member> {
        records.members.iter().filter(|member| member.org == "other").cloned().collect()
    };
    assert_eq!(others(&store.records), others(&before));
    assert!(before.users.iter().all(|email| store.records.users.contains(email)));
    assert_eq!(store.records.groups, before.groups);
}

#[test]
fn failed_invites_leave_old_accounts() {
    let mut store = filled();
    let before = store.records.clone();
    store.mail_fails = true;
    let data = OrgImportData {
        groups: Vec::new(),
        members: vec![person("new@x.example", "1", false)],
        overwrite_existing: false,
    };
    assert!(!store.import("org", data, settings(true)));
    assert_eq!(store.records, before);
}

#[test]
fn importing_twice_changes_nothing_the_second_time() {
    let mut store = filled();
    assert!(store.import("org", directory(), settings(true)));
    assert_eq!(store.mails, 1);
    let after = store.records.clone();
    assert_eq!(after.groups.len(), 2);
    assert_eq!(after.groups[0].members, vec![1]);
    let (mails, saves) = (store.mails, store.saves);
    assert!(store.import("org", directory(), settings(true)));
    assert_eq!(store.records, after);
    assert_eq!((store.mails, store.saves), (mails, saves));
}

#[test]
fn overwriting_twice_removes_nobody_the_second_time() {
    let mut store = filled();
    store.add("org", "left@x.example", Some("9"), USER, CONFIRMED);
    store.add("org", "root@x.example", Some("8"), OWNER, CONFIRMED);
    let data = || {
        let mut data = directory();
        data.overwrite_existing = true;
        data
    };
    assert!(store.import("org", data(), settings(true)));
    let after = store.records.clone();
    assert!(after.members.iter().all(|member| member.external_id.as_deref() != Some("9")));
    assert!(after.members.iter().all(|member| member.external_id.as_deref() != Some("8")));
    assert!(store.import("org", data(), settings(true)));
    assert_eq!(store.records, after);
}

#[test]
fn owners_who_stay_stay_again() {
    let mut store = Store::default();
    store.add("org", "a@x.example", Some("1"), OWNER, CONFIRMED);
    store.add("org", "b@x.example", Some("2"), OWNER, CONFIRMED);
    let data = || OrgImportData {
        groups: Vec::new(),
        members: vec![person("a@x.example", "1", true), person("b@x.example", "2", true)],
        overwrite_existing: true,
    };
    assert!(store.import("org", data(), settings(true)));
    let after = store.records.clone();
    assert_eq!(after.members.iter().map(|member| member.status).collect::<Vec<i32>>(), vec![REVOKED, CONFIRMED]);
    assert!(store.import("org", data(), settings(true)));
    assert_eq!(store.records, after);
}

#[test]
fn groups_hold_the_known_members_they_list() {
    let mut store = filled();
    let data = OrgImportData {
        groups: vec![group("g1", &["1", "3", "9"]), group("g2", &[])],
        members: vec![person("new@x.example", "1", false)],
        overwrite_existing: false,
    };
    assert!(store.import("org", data, settings(true)));
    let new = store.records.members.iter().find(|member| member.email == "new@x.example").unwrap().id;
    assert_eq!(store.records.groups[0].members, vec![new, 2]);
    assert!(store.records.groups[1].members.is_empty());
}
