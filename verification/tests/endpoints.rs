use org_bridge::bulk_confirm::{
    bulk_confirm_public_members, ConfirmAction, ConfirmEvent, ConfirmOutcome, MemberState,
};
use org_bridge::membership::{status_name, MembershipStatus, RoleCodes};
use org_bridge::public_members::{
    get_public_members, MemberAccount, MemberRow, MembersAction, MembersEvent,
};
use org_bridge::public_token::{
    OrgApiClaims, OrganizationApiKey, PublicToken, Rejection, TokenAction, TokenCheck, TokenEvent,
    TokenPhase,
};

fn claims() -> OrgApiClaims {
    OrgApiClaims {
        nbf: 100,
        exp: 200,
        iss: "https://vault.example|api.organization".to_owned(),
        sub: "key-uuid".to_owned(),
        client_id: "organization.org-1".to_owned(),
        client_sub: "org-1".to_owned(),
        scope: vec!["api.organization".to_owned()],
    }
}

fn key() -> OrganizationApiKey {
    OrganizationApiKey { uuid: "key-uuid".to_owned(), org_uuid: "org-1".to_owned() }
}

fn rejection(check: &TokenCheck) -> Option<Rejection> {
    match check.phase() {
        TokenPhase::Done(Err(rejection)) => Some(*rejection),
        _ => None,
    }
}

fn at(now: i64, claims: OrgApiClaims) -> TokenCheck {
    PublicToken::from_request(Some("Bearer abc")).advance_at(TokenEvent::Decoded(Some(claims)), now)
}

fn placed(claims: OrgApiClaims, origin: &str) -> TokenCheck {
    at(150, claims).advance_at(TokenEvent::Origin(origin.to_owned()), 150)
}

fn linked(claims: OrgApiClaims) -> TokenCheck {
    placed(claims, "https://vault.example").advance_at(TokenEvent::Connected(true), 150)
}

#[test]
fn good_tokens_speak_for_their_organization() {
    let check = linked(claims());
    assert!(matches!(check.pending(), TokenAction::FindApiKey { org_id } if org_id == "org-1"));
    let check = check.advance_at(TokenEvent::ApiKeyFound(Some(key())), 150);
    assert!(matches!(check.pending(), TokenAction::Finish));
    match check.into_phase() {
        TokenPhase::Done(Ok(token)) => assert_eq!(token.org_id(), "org-1"),
        other => panic!("{:?}", other),
    }
}

#[test]
fn headers_are_searched_from_the_right() {
    for (header, token) in [
        ("Bearer abc", "abc"),
        ("Bearer x Bearer abc", "abc"),
        ("abc", "abc"),
        ("Bearer ", ""),
        ("bearer abc", "bearer abc"),
    ] {
        let check = PublicToken::from_request(Some(header));
        assert!(matches!(check.pending(), TokenAction::Decode { token: found } if found == token));
    }
}

#[test]
fn missing_headers_are_refused() {
    let check = PublicToken::from_request(None);
    assert_eq!(rejection(&check), Some(Rejection::NoAccessToken));
    let check = check.advance_at(TokenEvent::Connected(true), 150);
    assert_eq!(rejection(&check), Some(Rejection::NoAccessToken));
}

#[test]
fn undecodable_tokens_are_refused() {
    let check = PublicToken::from_request(Some("Bearer x")).advance_at(TokenEvent::Decoded(None), 150);
    assert_eq!(rejection(&check), Some(Rejection::InvalidClaim));
}

#[test]
fn tokens_are_good_from_first_to_last_second() {
    assert_eq!(rejection(&at(99, claims())), Some(Rejection::IssuedInTheFuture));
    assert_eq!(rejection(&at(100, claims())), None);
    assert_eq!(rejection(&at(200, claims())), None);
    assert_eq!(rejection(&at(201, claims())), Some(Rejection::Expired));
}

#[test]
fn the_clock_judges_tokens() {
    let started = PublicToken::from_request(Some("Bearer x"));
    let check = started.advance(TokenEvent::Decoded(Some(claims())));
    assert_eq!(rejection(&check), Some(Rejection::Expired));
    let mut later = claims();
    later.nbf = 8_000_000_000;
    later.exp = 9_000_000_000;
    let check = PublicToken::from_request(Some("Bearer x")).advance(TokenEvent::Decoded(Some(later)));
    assert_eq!(rejection(&check), Some(Rejection::IssuedInTheFuture));
}

#[test]
fn tokens_of_other_servers_are_refused() {
    let check = placed(claims(), "https://other.example");
    assert_eq!(rejection(&check), Some(Rejection::ForeignIssuer));
}

#[test]
fn missing_databases_are_told() {
    let check = placed(claims(), "https://vault.example").advance_at(TokenEvent::Connected(false), 150);
    assert_eq!(rejection(&check), Some(Rejection::NoDatabase));
}

#[test]
fn client_ids_name_organizations() {
    let mut user = claims();
    user.client_id = "user.org-1".to_owned();
    assert_eq!(rejection(&linked(user)), Some(Rejection::MalformedClientId));
}

#[test]
fn api_keys_have_to_match() {
    let check = linked(claims()).advance_at(TokenEvent::ApiKeyFound(None), 150);
    assert_eq!(rejection(&check), Some(Rejection::UnknownClientId));
    let mut other = key();
    other.org_uuid = "org-2".to_owned();
    let check = linked(claims()).advance_at(TokenEvent::ApiKeyFound(Some(other)), 150);
    assert_eq!(rejection(&check), Some(Rejection::ForeignOrganization));
    let mut other = key();
    other.uuid = "other".to_owned();
    let check = linked(claims()).advance_at(TokenEvent::ApiKeyFound(Some(other)), 150);
    assert_eq!(rejection(&check), Some(Rejection::ForeignClient));
}

#[test]
fn rejections_have_messages() {
    assert_eq!(Rejection::NoAccessToken.message(), "No access token provided");
    assert_eq!(Rejection::InvalidClaim.message(), "Invalid claim");
    assert_eq!(Rejection::IssuedInTheFuture.message(), "Token issued in the future");
    assert_eq!(Rejection::Expired.message(), "Token expired");
    assert_eq!(Rejection::ForeignIssuer.message(), "Token not issued by this server");
    assert_eq!(Rejection::NoDatabase.message(), "Error getting DB");
    assert_eq!(Rejection::MalformedClientId.message(), "Malformed client_id");
    assert_eq!(Rejection::UnknownClientId.message(), "Invalid client_id");
    assert_eq!(Rejection::ForeignOrganization.message(), "Token not issued for this org");
    assert_eq!(Rejection::ForeignClient.message(), "Token not issued for this client");
}

fn codes() -> RoleCodes {
    RoleCodes { accepted: 1, confirmed: 2, owner: 0, user: 7 }
}

fn state(status: i32, named: Option<MembershipStatus>) -> MemberState {
    MemberState { status, named }
}

#[test]
fn bulk_confirmation_confirms_accepted_members() {
    let ids = ["a", "b", "c", "d", "e"].iter().map(|id| (*id).to_owned()).collect();
    let run = bulk_confirm_public_members("org".to_owned(), ids, codes());
    assert!(matches!(run.pending(), ConfirmAction::FindMember { id } if id == "a"));
    let run = run.advance(ConfirmEvent::MemberFound(Some(state(1, Some(MembershipStatus::Accepted)))));
    assert!(matches!(run.pending(), ConfirmAction::SaveStatus { status: 2 }));
    let run = run.advance(ConfirmEvent::Saved(Ok(())));
    assert!(matches!(run.pending(), ConfirmAction::FindMember { id } if id == "b"));
    let run = run.advance(ConfirmEvent::MemberFound(Some(state(1, Some(MembershipStatus::Accepted)))));
    let run = run.advance(ConfirmEvent::Saved(Err("locked".to_owned())));
    let run = run.advance(ConfirmEvent::MemberFound(None));
    let run = run.advance(ConfirmEvent::MemberFound(Some(state(0, Some(MembershipStatus::Invited)))));
    let run = run.advance(ConfirmEvent::MemberFound(Some(state(9, None))));
    assert!(matches!(run.pending(), ConfirmAction::Finish));
    let seen: Vec<(String, &str, String)> = run
        .results()
        .iter()
        .map(|result| (result.id.clone(), result.outcome.status(), result.outcome.message()))
        .collect();
    let expected: Vec<(String, &str, String)> = [
        ("a", "success", "Member confirmed successfully"),
        ("b", "error", "Failed to save: locked"),
        ("c", "error", "Member not found"),
        ("d", "skipped", "Member is in Invited status, not Accepted"),
        ("e", "skipped", "Member is in Unknown status, not Accepted"),
    ]
    .iter()
    .map(|(id, status, message)| ((*id).to_owned(), *status, (*message).to_owned()))
    .collect();
    assert_eq!(seen, expected);
    let summary = run.summary();
    assert_eq!((summary.total, summary.confirmed, summary.failed, summary.skipped), (5, 1, 2, 2));
}

#[test]
fn confirming_twice_skips_the_second_time() {
    let ids = || vec!["a".to_owned(), "b".to_owned()];
    let run = bulk_confirm_public_members("org".to_owned(), ids(), codes());
    let run = run.advance(ConfirmEvent::MemberFound(Some(state(1, Some(MembershipStatus::Accepted)))));
    let run = run.advance(ConfirmEvent::Saved(Ok(()))).advance(ConfirmEvent::MemberFound(None));
    let first = run.summary();
    let run = bulk_confirm_public_members("org".to_owned(), ids(), codes());
    let run = run.advance(ConfirmEvent::MemberFound(Some(state(2, Some(MembershipStatus::Confirmed)))));
    let second = run.advance(ConfirmEvent::MemberFound(None)).summary();
    assert_eq!((first.confirmed, first.failed, first.skipped), (1, 1, 0));
    assert_eq!((second.confirmed, second.failed, second.skipped), (0, 1, 1));
}

#[test]
fn confirming_nobody_ends_at_once() {
    let run = bulk_confirm_public_members("org".to_owned(), Vec::new(), codes());
    assert!(matches!(run.pending(), ConfirmAction::Finish));
    assert_eq!(run.summary().total, 0);
}

#[test]
fn confirmation_ignores_stray_reports() {
    let run = bulk_confirm_public_members("org".to_owned(), vec!["a".to_owned()], codes());
    let run = run.advance(ConfirmEvent::Saved(Ok(())));
    assert!(matches!(run.pending(), ConfirmAction::FindMember { .. }));
    assert_eq!(run.results().len(), 0);
    assert!(matches!(ConfirmOutcome::NotFound.status(), "error"));
}

#[test]
fn statuses_have_names() {
    assert_eq!(status_name(Some(MembershipStatus::Invited)), "Invited");
    assert_eq!(status_name(Some(MembershipStatus::Accepted)), "Accepted");
    assert_eq!(status_name(Some(MembershipStatus::Confirmed)), "Confirmed");
    assert_eq!(status_name(Some(MembershipStatus::Revoked)), "Revoked");
    assert_eq!(status_name(None), "Unknown");
}

fn row(uuid: &str, user_uuid: &str) -> MemberRow {
    MemberRow {
        uuid: uuid.to_owned(),
        user_uuid: user_uuid.to_owned(),
        status: 2,
        named: Some(MembershipStatus::Confirmed),
        atype: 0,
        access_all: true,
        external_id: Some("x1".to_owned()),
    }
}

#[test]
fn listings_leave_out_members_without_accounts() {
    let run = get_public_members("org".to_owned());
    assert!(matches!(run.pending(), MembersAction::ListMembers));
    let run = run.advance(MembersEvent::Listed(vec![row("m1", "u1"), row("m2", "u2")]));
    assert!(matches!(run.pending(), MembersAction::FindUser { user_uuid } if user_uuid == "u1"));
    let run = run.advance(MembersEvent::UserFound(None));
    assert!(matches!(run.pending(), MembersAction::FindUser { user_uuid } if user_uuid == "u2"));
    let account = MemberAccount { email: "b@x.example".to_owned(), name: "B".to_owned() };
    let run = run.advance(MembersEvent::UserFound(Some(account)));
    assert!(matches!(run.pending(), MembersAction::Finish));
    assert_eq!(run.members().len(), 1);
    let member = &run.members()[0];
    assert_eq!(member.id, "m2");
    assert_eq!(member.user_id, "u2");
    assert_eq!(member.email, "b@x.example");
    assert_eq!(member.name, "B");
    assert_eq!(member.status, 2);
    assert_eq!(member.status_name(), "Confirmed");
    assert_eq!(member.atype, 0);
    assert!(member.access_all);
    assert_eq!(member.external_id.as_deref(), Some("x1"));
}
