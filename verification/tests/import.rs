use org_bridge::ldap_import::{
    ldap_import, Action, Event, FoundMember, FoundOrganization, FoundUser, ImportError, ImportRun,
    ImportSettings, ListedMember, OrgImportData, OrgImportGroupData, OrgImportUserData, Phase,
};
use org_bridge::membership::RoleCodes;

fn codes() -> RoleCodes {
    RoleCodes { accepted: 1, confirmed: 2, owner: 0, user: 7 }
}

fn settings(mail_enabled: bool, groups_enabled: bool) -> ImportSettings {
    ImportSettings { mail_enabled, groups_enabled, codes: codes() }
}

fn person(email: &str, external_id: &str, deleted: bool) -> OrgImportUserData {
    OrgImportUserData {
        email: email.to_owned(),
        external_id: external_id.to_owned(),
        deleted,
        password: None,
        key: None,
    }
}

fn import(members: Vec<OrgImportUserData>, overwrite_existing: bool) -> OrgImportData {
    OrgImportData { groups: Vec::new(), members, overwrite_existing }
}

fn start(data: OrgImportData, settings: ImportSettings) -> ImportRun {
    ldap_import("org".to_owned(), data, settings)
}

fn user(email: &str) -> FoundUser {
    FoundUser { email: email.to_owned(), client_kdf_iter: 600_000 }
}

fn organization() -> FoundOrganization {
    FoundOrganization { name: "Acme".to_owned(), billing_email: "pay@acme.example".to_owned() }
}

fn listed(external_id: Option<&str>, atype: i32, status: i32) -> ListedMember {
    ListedMember { external_id: external_id.map(str::to_owned), atype, status }
}

fn is_good_end(run: &ImportRun) -> bool {
    matches!(run.pending(), Action::Finish(Ok(())))
}

fn error_text(run: &ImportRun) -> String {
    match run.pending() {
        Action::Finish(Err(error)) => error.message(),
        other => panic!("not a failure: {:?}", other),
    }
}

#[test]
fn empty_imports_end_at_once() {
    assert!(is_good_end(&start(import(Vec::new(), false), settings(true, true))));
}

#[test]
fn deleted_members_are_revoked_and_saved() {
    let run = start(import(vec![person("a@x.example", "1", true)], false), settings(true, true));
    assert_eq!(run.org_id(), "org");
    assert!(matches!(run.pending(), Action::FindMember { email } if email == "a@x.example"));
    let run = run.advance(Event::MemberFound(Some(FoundMember { atype: 7, status: 2 })));
    assert!(matches!(run.pending(), Action::RevokeMember));
    let run = run.advance(Event::Changed(true));
    assert!(matches!(run.pending(), Action::SetExternalId { external_id } if external_id == "1"));
    let run = run.advance(Event::Changed(false));
    assert!(matches!(run.pending(), Action::SaveMember));
    assert!(is_good_end(&run.advance(Event::Stored(Ok(())))));
}

#[test]
fn unchanged_members_are_not_saved() {
    let run = start(import(vec![person("a@x.example", "1", true)], false), settings(true, true));
    let run = run.advance(Event::MemberFound(Some(FoundMember { atype: 7, status: 2 })));
    let run = run.advance(Event::Changed(false));
    assert!(is_good_end(&run.advance(Event::Changed(false))));
}

#[test]
fn deleted_strangers_are_passed_over() {
    let run = start(import(vec![person("a@x.example", "1", true)], false), settings(true, true));
    assert!(is_good_end(&run.advance(Event::MemberFound(None))));
}

#[test]
fn last_confirmed_owner_is_not_revoked() {
    let owner = FoundMember { atype: 0, status: 2 };
    let run = start(import(vec![person("a@x.example", "1", true)], false), settings(true, true));
    let run = run.advance(Event::MemberFound(Some(owner)));
    assert!(matches!(run.pending(), Action::CountConfirmedOwners));
    let run = run.advance(Event::Counted(1));
    assert!(matches!(run.pending(), Action::SetExternalId { .. }));
    let run = run.advance(Event::Changed(true));
    assert!(matches!(run.pending(), Action::SaveMember));
}

#[test]
fn one_of_two_owners_is_revoked() {
    let run = start(import(vec![person("a@x.example", "1", true)], false), settings(true, true));
    let run = run.advance(Event::MemberFound(Some(FoundMember { atype: 0, status: 2 })));
    let run = run.advance(Event::Counted(2));
    assert!(matches!(run.pending(), Action::RevokeMember));
}

#[test]
fn unconfirmed_owner_is_revoked_without_a_count() {
    let run = start(import(vec![person("a@x.example", "1", true)], false), settings(true, true));
    let run = run.advance(Event::MemberFound(Some(FoundMember { atype: 0, status: 1 })));
    assert!(matches!(run.pending(), Action::RevokeMember));
}

#[test]
fn present_members_are_restored() {
    let run = start(import(vec![person("a@x.example", "1", false)], false), settings(true, true));
    let run = run.advance(Event::MemberFound(Some(FoundMember { atype: 0, status: 2 })));
    assert!(matches!(run.pending(), Action::RestoreMember));
    let run = run.advance(Event::Changed(true));
    let run = run.advance(Event::Changed(true));
    assert!(matches!(run.pending(), Action::SaveMember));
}

#[test]
fn new_people_become_accepted_users_and_are_invited() {
    let run = start(import(vec![person("a@x.example", "1", false)], false), settings(true, false));
    let run = run.advance(Event::MemberFound(None));
    assert!(matches!(run.pending(), Action::FindUser { email } if email == "a@x.example"));
    let run = run.advance(Event::UserFound(None));
    assert!(matches!(run.pending(), Action::CreateUser { email } if email == "a@x.example"));
    let run = run.advance(Event::UserCreated(Ok(user("a@x.example"))));
    assert!(matches!(run.pending(), Action::FindOrganization));
    let run = run.advance(Event::OrganizationFound(Some(organization())));
    match run.pending() {
        Action::CreateMember { invited_by_email, external_id, access_all, atype, status } => {
            assert_eq!(invited_by_email, "pay@acme.example");
            assert_eq!(external_id, "1");
            assert!(!access_all);
            assert_eq!(atype, 7);
            assert_eq!(status, 1);
        }
        other => panic!("{:?}", other),
    }
    let run = run.advance(Event::Stored(Ok(())));
    match run.pending() {
        Action::SendInvite { organization_name, organization_email } => {
            assert_eq!(organization_name, "Acme");
            assert_eq!(organization_email, "pay@acme.example");
        }
        other => panic!("{:?}", other),
    }
    assert!(is_good_end(&run.advance(Event::InviteSent(Ok(())))));
}

#[test]
fn without_mail_an_invitation_is_stored() {
    let run = start(import(vec![person("a@x.example", "1", false)], false), settings(false, false));
    let run = run.advance(Event::MemberFound(None)).advance(Event::UserFound(None));
    let run = run.advance(Event::UserCreated(Ok(user("A@x.example"))));
    assert!(matches!(run.pending(), Action::SaveInvitation { email } if email == "A@x.example"));
    let run = run.advance(Event::Stored(Ok(())));
    let run = run.advance(Event::OrganizationFound(Some(organization())));
    assert!(is_good_end(&run.advance(Event::Stored(Ok(())))));
}

#[test]
fn master_passwords_are_hashed_twice_and_encoded() {
    let mut someone = person("a@x.example", "1", false);
    someone.password = Some("p4ss".to_owned());
    someone.key = Some("the key".to_owned());
    let run = start(import(vec![someone], false), settings(true, false));
    let run = run.advance(Event::MemberFound(None));
    let run = run.advance(Event::UserFound(Some(user("  Jo.DOE@Example.ORG \n"))));
    match run.pending() {
        Action::HashPassword { secret, salt, iterations } => {
            assert_eq!(secret, b"p4ss".to_vec());
            assert_eq!(salt, b"jo.doe@example.org".to_vec());
            assert_eq!(iterations, 600_000);
        }
        other => panic!("{:?}", other),
    }
    let run = run.advance(Event::Hashed(vec![1, 2, 3]));
    match run.pending() {
        Action::HashPassword { secret, salt, iterations } => {
            assert_eq!(secret, vec![1, 2, 3]);
            assert_eq!(salt, b"p4ss".to_vec());
            assert_eq!(iterations, 1);
        }
        other => panic!("{:?}", other),
    }
    let run = run.advance(Event::Hashed(vec![0xfb, 0xff, 0x00, 0x41]));
    match run.pending() {
        Action::SetPassword { hash, key } => {
            assert_eq!(hash, "+/8AQQ==");
            assert_eq!(key, "the key");
        }
        other => panic!("{:?}", other),
    }
    let run = run.advance(Event::PasswordSet);
    assert!(matches!(run.pending(), Action::SaveUser));
    let run = run.advance(Event::Stored(Ok(())));
    assert!(matches!(run.pending(), Action::FindOrganization));
}

#[test]
fn passwords_without_keys_are_ignored() {
    for (password, key) in [(Some("p"), None), (None, Some("k")), (Some(""), Some("k")), (Some("p"), Some(""))] {
        let mut someone = person("a@x.example", "1", false);
        someone.password = password.map(str::to_owned);
        someone.key = key.map(str::to_owned);
        let run = start(import(vec![someone], false), settings(true, false));
        let run = run.advance(Event::MemberFound(None));
        let run = run.advance(Event::UserFound(Some(user("a@x.example"))));
        assert!(matches!(run.pending(), Action::FindOrganization));
    }
}

#[test]
fn negative_iterations_wrap_around() {
    let mut someone = person("a@x.example", "1", false);
    someone.password = Some("p".to_owned());
    someone.key = Some("k".to_owned());
    let run = start(import(vec![someone], false), settings(true, false));
    let run = run.advance(Event::MemberFound(None));
    let found = FoundUser { email: "a@x.example".to_owned(), client_kdf_iter: -1 };
    let run = run.advance(Event::UserFound(Some(found)));
    assert!(matches!(run.pending(), Action::HashPassword { iterations: u32::MAX, .. }));
}

fn until_invite(user_is_new: bool) -> ImportRun {
    let run = start(import(vec![person("a@x.example", "1", false)], false), settings(true, false));
    let run = run.advance(Event::MemberFound(None));
    let run = if user_is_new {
        run.advance(Event::UserFound(None)).advance(Event::UserCreated(Ok(user("a@x.example"))))
    } else {
        run.advance(Event::UserFound(Some(user("a@x.example"))))
    };
    run.advance(Event::OrganizationFound(Some(organization()))).advance(Event::Stored(Ok(())))
}

#[test]
fn failed_invites_take_new_accounts_back() {
    let run = until_invite(true).advance(Event::InviteSent(Err("no route".to_owned())));
    assert!(matches!(run.pending(), Action::DeleteUser));
    let run = run.advance(Event::Stored(Ok(())));
    assert_eq!(error_text(&run), "Error sending invite: no route ");
}

#[test]
fn failed_invites_take_memberships_back() {
    let run = until_invite(false).advance(Event::InviteSent(Err("no route".to_owned())));
    assert!(matches!(run.pending(), Action::DeleteNewMember));
    let run = run.advance(Event::Stored(Err("disk".to_owned())));
    assert_eq!(error_text(&run), "disk");
}

#[test]
fn missing_organizations_end_the_import() {
    let run = start(import(vec![person("a@x.example", "1", false)], false), settings(true, false));
    let run = run.advance(Event::MemberFound(None));
    let run = run.advance(Event::UserFound(Some(user("a@x.example"))));
    let run = run.advance(Event::OrganizationFound(None));
    assert_eq!(error_text(&run), "Error looking up organization");
    assert!(matches!(run.phase(), Phase::Done(Err(ImportError::NoOrganization))));
}

#[test]
fn storage_errors_end_the_import() {
    let run = start(import(vec![person("a@x.example", "1", false)], false), settings(true, false));
    let run = run.advance(Event::MemberFound(None)).advance(Event::UserFound(None));
    let run = run.advance(Event::UserCreated(Err("full".to_owned())));
    assert!(matches!(run.phase(), Phase::Done(Err(ImportError::Storage(text))) if text == "full"));
}

#[test]
fn stray_reports_are_ignored() {
    let run = start(import(vec![person("a@x.example", "1", true)], false), settings(true, true));
    let run = run.advance(Event::Counted(9)).advance(Event::Stored(Err("late".to_owned())));
    assert!(matches!(run.pending(), Action::FindMember { .. }));
}

#[test]
fn people_come_in_the_order_of_the_directory() {
    let people = vec![person("a@x.example", "1", true), person("b@x.example", "2", true)];
    let run = start(import(people, false), settings(true, true));
    assert!(matches!(run.pending(), Action::FindMember { email } if email == "a@x.example"));
    let run = run.advance(Event::MemberFound(None));
    assert!(matches!(run.pending(), Action::FindMember { email } if email == "b@x.example"));
}

fn group(name: &str, external_id: &str, members: &[&str]) -> OrgImportGroupData {
    OrgImportGroupData {
        name: name.to_owned(),
        external_id: external_id.to_owned(),
        member_external_ids: members.iter().map(|id| (*id).to_owned()).collect(),
    }
}

#[test]
fn groups_are_cleared_and_filled() {
    let data = OrgImportData {
        groups: vec![group("Staff", "g1", &["1", "2"]), group("Guests", "g2", &[])],
        members: Vec::new(),
        overwrite_existing: false,
    };
    let run = start(data, settings(true, true));
    assert!(matches!(run.pending(), Action::FindGroup { external_id } if external_id == "g1"));
    let run = run.advance(Event::GroupFound(false));
    match run.pending() {
        Action::CreateGroup { name, access_all, external_id } => {
            assert_eq!(name, "Staff");
            assert!(!access_all);
            assert_eq!(external_id, "g1");
        }
        other => panic!("{:?}", other),
    }
    let run = run.advance(Event::Stored(Ok(())));
    assert!(matches!(run.pending(), Action::ClearGroup));
    let run = run.advance(Event::Stored(Ok(())));
    assert!(matches!(run.pending(), Action::FindMemberByExternalId { external_id } if external_id == "1"));
    let run = run.advance(Event::GroupMemberFound(false));
    assert!(matches!(run.pending(), Action::FindMemberByExternalId { external_id } if external_id == "2"));
    let run = run.advance(Event::GroupMemberFound(true));
    assert!(matches!(run.pending(), Action::AddGroupMember));
    let run = run.advance(Event::Stored(Ok(())));
    assert!(matches!(run.pending(), Action::FindGroup { external_id } if external_id == "g2"));
    let run = run.advance(Event::GroupFound(true));
    assert!(matches!(run.pending(), Action::ClearGroup));
    assert!(is_good_end(&run.advance(Event::Stored(Ok(())))));
}

#[test]
fn disabled_groups_are_skipped() {
    let data = OrgImportData {
        groups: vec![group("Staff", "g1", &["1"])],
        members: Vec::new(),
        overwrite_existing: false,
    };
    assert!(is_good_end(&start(data, settings(true, false))));
}

#[test]
fn overwriting_removes_whoever_is_not_listed() {
    let run = start(import(vec![person("a@x.example", "1", true)], true), settings(true, true));
    let run = run.advance(Event::MemberFound(None));
    assert!(matches!(run.pending(), Action::ListMembers));
    let run = run.advance(Event::Listed(vec![
        listed(Some("1"), 7, 2),
        listed(None, 7, 2),
        listed(Some("2"), 7, 2),
        listed(Some("3"), 0, 2),
        listed(Some("4"), 0, 2),
        listed(Some("5"), 0, 1),
    ]));
    assert!(matches!(run.pending(), Action::DeleteListed { index: 2 }));
    let run = run.advance(Event::Stored(Ok(())));
    assert!(matches!(run.pending(), Action::CountConfirmedOwners));
    let run = run.advance(Event::Counted(2));
    assert!(matches!(run.pending(), Action::DeleteListed { index: 3 }));
    let run = run.advance(Event::Stored(Ok(())));
    assert!(matches!(run.pending(), Action::CountConfirmedOwners));
    let run = run.advance(Event::Counted(1));
    assert!(matches!(run.pending(), Action::DeleteListed { index: 5 }));
    assert!(is_good_end(&run.advance(Event::Stored(Ok(())))));
}

#[test]
fn failed_removals_end_the_import() {
    let run = start(import(Vec::new(), true), settings(true, true));
    let run = run.advance(Event::Listed(vec![listed(Some("9"), 7, 2), listed(Some("8"), 7, 2)]));
    let run = run.advance(Event::Stored(Err("locked".to_owned())));
    assert_eq!(error_text(&run), "locked");
}
