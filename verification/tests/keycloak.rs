use org_bridge::client::Client;
use org_bridge::http::{HttpReply, HttpRequest, JsonField, Method};
use org_bridge::keycloak::{
    access_token_of, admin_base_from_parts, extract_admin_base_url, extract_realm_from_issuer,
    find_user_by_email_request, find_user_request_at, first_user_id, get_admin_token_request,
    logout_user_sessions_request, read_admin_token, read_logout_user_sessions, read_user_id,
    realm_from_path,
};
use org_bridge::keycloak_admin::{
    keycloak_create_user, keycloak_user_exists, lists_users, read_user_exists, UserAction,
    UserEvent, UserPhase, UserRun,
};
use org_bridge::sso_error::{SsoError, SsoErrorKind};
use org_bridge::sso_logout::{EmailLogout, EmailPhase, LogoutAction, LogoutEvent, LogoutPhase};
use org_bridge::url_parts::UrlSplit;

const ISSUER: &str = "https://kc.example/auth/realms/acme";

fn kind<T>(res: &Result<T, SsoError>) -> Option<SsoErrorKind> {
    match res {
        Ok(_) => None,
        Err(error) => Some(error.kind),
    }
}

fn message<T>(res: &Result<T, SsoError>) -> String {
    match res {
        Ok(_) => panic!("not an error"),
        Err(error) => error.message(),
    }
}

fn pairs(pairs: &[(String, String)]) -> Vec<(&str, &str)> {
    pairs.iter().map(|(name, value)| (name.as_str(), value.as_str())).collect()
}

fn body(text: &str) -> HttpReply {
    HttpReply::Accepted(text.as_bytes().to_vec())
}

#[test]
fn realms_follow_the_last_marker() {
    assert_eq!(extract_realm_from_issuer(ISSUER).ok().as_deref(), Some("acme"));
    let twice = extract_realm_from_issuer("https://kc.example/realms/a/realms/b");
    assert_eq!(twice.ok().as_deref(), Some("b"));
    let slash = extract_realm_from_issuer("https://kc.example/realms/acme/");
    assert_eq!(slash.ok().as_deref(), Some("acme/"));
}

#[test]
fn issuers_without_realms_are_refused() {
    let res = extract_realm_from_issuer("no url");
    assert_eq!(kind(&res), Some(SsoErrorKind::IssuerUrl));
    assert_eq!(message(&res), "Failed to parse issuer URL: relative URL without a base");
    let res = extract_realm_from_issuer("https://kc.example/auth");
    assert_eq!(message(&res), "Failed to extract realm from issuer URL: https://kc.example/auth");
    let res = extract_realm_from_issuer("https://kc.example/realms/");
    assert_eq!(message(&res), "Realm name is empty in issuer URL");
}

#[test]
fn realms_are_read_from_paths() {
    let res = realm_from_path(ISSUER, Ok("/auth/realms/acme".to_owned()));
    assert_eq!(res.ok().as_deref(), Some("acme"));
    let res = realm_from_path(ISSUER, Err("why".to_owned()));
    assert_eq!(message(&res), "Failed to parse issuer URL: why");
}

fn parts(before: &str, path: &str, after: &str) -> UrlSplit {
    UrlSplit { before: before.to_owned(), path: path.to_owned(), after: after.to_owned() }
}

#[test]
fn realms_may_be_written_unencoded() {
    let res = extract_admin_base_url("https://kc.example.com/realms/my realm");
    assert_eq!(res.ok().as_deref(), Some("https://kc.example.com/admin/realms/my%20realm"));
    let res = extract_admin_base_url("https://kc.example.com/realms/my realm?x=/realms/my%20realm");
    assert_eq!(
        res.ok().as_deref(),
        Some("https://kc.example.com/admin/realms/my%20realm?x=/realms/my%20realm")
    );
    let res = admin_base_from_parts("x\\realms\\r", Ok(parts("x", "/a/realms/r", "?q")));
    assert_eq!(res.ok().as_deref(), Some("x/a/admin/realms/r?q"));
    assert_eq!(kind(&admin_base_from_parts("x", Err("why".to_owned()))), Some(SsoErrorKind::IssuerUrl));
}

#[test]
fn queries_of_issuers_are_kept() {
    let res = extract_admin_base_url("https://kc.example/realms/acme?a=b#c");
    assert_eq!(res.ok().as_deref(), Some("https://kc.example/admin/realms/acme?a=b#c"));
    let res = extract_realm_from_issuer("https://kc.example/admin/realms/acme?a=b#c");
    assert_eq!(res.ok().as_deref(), Some("acme"));
}

#[test]
fn the_admin_api_stands_beside_the_realm() {
    assert_eq!(
        extract_admin_base_url(ISSUER).ok().as_deref(),
        Some("https://kc.example/auth/admin/realms/acme")
    );
    let res = admin_base_from_parts("x/realms/r/realms/r", Ok(parts("x", "/realms/r", "")));
    assert_eq!(res.ok().as_deref(), Some("x/admin/realms/r/admin/realms/r"));
    assert_eq!(kind(&extract_admin_base_url("https://kc.example")), Some(SsoErrorKind::NoRealm));
}

#[test]
fn admin_tokens_are_asked_for_by_client_credentials() {
    let request = get_admin_token_request(ISSUER, "id", "secret");
    assert_eq!(request.method, Method::Post);
    assert_eq!(request.url, "https://kc.example/auth/realms/acme/protocol/openid-connect/token");
    assert_eq!(request.headers.len(), 0);
    assert_eq!(
        pairs(&request.form),
        vec![("grant_type", "client_credentials"), ("client_id", "id"), ("client_secret", "secret")]
    );
}

#[test]
fn admin_tokens_are_read() {
    assert_eq!(read_admin_token(body("{\"access_token\":\"tok\"}")).ok().as_deref(), Some("tok"));
    assert_eq!(message(&read_admin_token(body("{}"))), "No access_token in response");
    assert_eq!(message(&read_admin_token(body("{\"access_token\":5}"))), "No access_token in response");
    assert_eq!(kind(&read_admin_token(body("nonsense"))), Some(SsoErrorKind::Reply));
    let res = read_admin_token(HttpReply::Refused("denied".to_owned()));
    assert_eq!(message(&res), "Failed to get admin token: denied");
    let res = read_admin_token(HttpReply::Failed("timeout".to_owned()));
    assert_eq!((kind(&res), message(&res)), (Some(SsoErrorKind::Transport), "timeout".to_owned()));
    assert_eq!(access_token_of(Ok(Some("t".to_owned()))).ok().as_deref(), Some("t"));
    assert_eq!(message(&access_token_of(Err("bad".to_owned()))), "bad");
}

#[test]
fn users_are_looked_up_by_email() {
    let request = find_user_by_email_request("https://kc.example/admin/realms/acme", "tok", "a+b@x.example");
    match request {
        Ok(request) => {
            assert_eq!(request.method, Method::Get);
            assert_eq!(
                request.url,
                "https://kc.example/admin/realms/acme/users?email=a%2Bb%40x.example"
            );
            assert_eq!(
                pairs(&request.headers),
                vec![("Authorization", "Bearer tok"), ("Content-Type", "application/json")]
            );
            assert_eq!(request.form.len(), 0);
        }
        Err(error) => panic!("{:?}", error),
    }
}

#[test]
fn unusable_admin_addresses_are_refused() {
    let res = find_user_by_email_request("no url", "tok", "a@x.example");
    assert_eq!(message(&res), "Failed to parse admin base URL: relative URL without a base");
    let res = find_user_by_email_request("mailto:a@x.example", "tok", "a@x.example");
    assert_eq!(message(&res), "Invalid admin base URL");
    let res = find_user_request_at(Ok(None), "tok");
    assert_eq!(kind(&res), Some(SsoErrorKind::AdminBaseUrlIsNoBase));
}

#[test]
fn the_first_user_counts() {
    let res = read_user_id("a@x.example", body("[{\"id\":\"u1\"},{\"id\":\"u2\"}]"));
    assert_eq!(res.ok().as_deref(), Some("u1"));
    let res = read_user_id("a@x.example", body("[]"));
    assert_eq!(message(&res), "User with email a@x.example not found in Keycloak");
    let res = read_user_id("a@x.example", body("[{\"id\":7},{\"id\":\"u2\"}]"));
    assert_eq!(message(&res), "No user ID in response");
    assert_eq!(kind(&read_user_id("a@x.example", body("{}"))), Some(SsoErrorKind::Reply));
    let res = read_user_id("a@x.example", HttpReply::Refused("denied".to_owned()));
    assert_eq!(message(&res), "Failed to find user by email: denied");
    let res = read_user_id("a@x.example", HttpReply::Failed("timeout".to_owned()));
    assert_eq!(kind(&res), Some(SsoErrorKind::Transport));
    let res = first_user_id("a@x.example", Ok(vec![Some("u1".to_owned()), None]));
    assert_eq!(res.ok().as_deref(), Some("u1"));
}

#[test]
fn sessions_are_ended_by_user_id() {
    let request = logout_user_sessions_request("https://kc.example/admin/realms/acme", "tok", "u1");
    assert_eq!(request.method, Method::Post);
    assert_eq!(request.url, "https://kc.example/admin/realms/acme/users/u1/logout");
    assert_eq!(
        pairs(&request.headers),
        vec![("Authorization", "Bearer tok"), ("Content-Type", "application/json")]
    );
}

#[test]
fn refused_session_ends_count_as_done() {
    assert!(read_logout_user_sessions(body("")).is_ok());
    assert!(read_logout_user_sessions(HttpReply::Refused("no".to_owned())).is_ok());
    let res = read_logout_user_sessions(HttpReply::Failed("timeout".to_owned()));
    assert_eq!(kind(&res), Some(SsoErrorKind::Transport));
}

fn sent(action: LogoutAction) -> HttpRequest {
    match action {
        LogoutAction::Send(request) => request,
        other => panic!("{:?}", other),
    }
}

fn settings_error() -> SsoError {
    SsoError { kind: SsoErrorKind::Settings, detail: "no issuer".to_owned() }
}

#[test]
fn logouts_post_the_refresh_token() {
    let logout = Client::logout("refresh".to_owned(), "id".to_owned(), "secret".to_owned());
    assert!(matches!(logout.pending(), LogoutAction::AskIssuer));
    let logout = logout.advance(LogoutEvent::Issuer(Ok(ISSUER.to_owned())));
    assert!(matches!(logout.pending(), LogoutAction::AskClient));
    let logout = logout.advance(LogoutEvent::ClientReady(Ok(())));
    let request = sent(logout.pending());
    assert_eq!(request.method, Method::Post);
    assert_eq!(request.url, "https://kc.example/auth/realms/acme/protocol/openid-connect/logout");
    assert_eq!(
        pairs(&request.form),
        vec![("refresh_token", "refresh"), ("client_id", "id"), ("client_secret", "secret")]
    );
    let logout = logout.advance(LogoutEvent::Replied(HttpReply::Failed("timeout".to_owned())));
    assert!(matches!(logout.pending(), LogoutAction::Finish));
    assert!(matches!(logout.into_phase(), LogoutPhase::Done(Ok(()))));
}

#[test]
fn logouts_need_an_issuer_and_a_client() {
    let logout = Client::logout("refresh".to_owned(), "id".to_owned(), "secret".to_owned());
    let logout = logout.advance(LogoutEvent::Issuer(Err(settings_error())));
    match logout.into_phase() {
        LogoutPhase::Done(res) => assert_eq!(message(&res), "no issuer"),
        other => panic!("{:?}", other),
    }
    let logout = Client::logout("refresh".to_owned(), "id".to_owned(), "secret".to_owned());
    let logout = logout.advance(LogoutEvent::Issuer(Ok(ISSUER.to_owned())));
    let logout = logout.advance(LogoutEvent::ClientReady(Err(SsoError::plain(SsoErrorKind::NoTokenUrl))));
    match logout.into_phase() {
        LogoutPhase::Done(res) => assert_eq!(kind(&res), Some(SsoErrorKind::NoTokenUrl)),
        other => panic!("{:?}", other),
    }
}

fn email_logout() -> EmailLogout {
    Client::logout_by_email("a@x.example", "id".to_owned(), "secret".to_owned())
}

#[test]
fn logout_by_email_ends_all_sessions() {
    let logout = email_logout();
    assert!(matches!(logout.pending(), LogoutAction::AskIssuer));
    let logout = logout.advance(LogoutEvent::Issuer(Ok(ISSUER.to_owned())));
    assert_eq!(
        sent(logout.pending()).url,
        "https://kc.example/auth/realms/acme/protocol/openid-connect/token"
    );
    let logout = logout.advance(LogoutEvent::Replied(body("{\"access_token\":\"tok\"}")));
    assert!(matches!(logout.pending(), LogoutAction::AskClient));
    let logout = logout.advance(LogoutEvent::ClientReady(Ok(())));
    let request = sent(logout.pending());
    assert_eq!(request.method, Method::Get);
    assert_eq!(
        request.url,
        "https://kc.example/auth/admin/realms/acme/users?email=a%40x.example"
    );
    assert_eq!(pairs(&request.headers)[0], ("Authorization", "Bearer tok"));
    let logout = logout.advance(LogoutEvent::Replied(body("[{\"id\":\"u1\"}]")));
    let request = sent(logout.pending());
    assert_eq!(request.method, Method::Post);
    assert_eq!(request.url, "https://kc.example/auth/admin/realms/acme/users/u1/logout");
    let logout = logout.advance(LogoutEvent::Replied(HttpReply::Refused("no".to_owned())));
    assert!(matches!(logout.phase(), EmailPhase::Done(Ok(()))));
}

#[test]
fn the_first_failure_ends_a_logout_by_email() {
    let failed = |logout: EmailLogout| match logout.into_phase() {
        EmailPhase::Done(res) => kind(&res),
        other => panic!("{:?}", other),
    };
    let logout = email_logout().advance(LogoutEvent::Issuer(Err(settings_error())));
    assert_eq!(failed(logout), Some(SsoErrorKind::Settings));
    let logout = email_logout().advance(LogoutEvent::Issuer(Ok("https://kc.example".to_owned())));
    assert_eq!(failed(logout), Some(SsoErrorKind::NoRealm));
    let asked = || email_logout().advance(LogoutEvent::Issuer(Ok(ISSUER.to_owned())));
    let logout = asked().advance(LogoutEvent::Replied(HttpReply::Refused("denied".to_owned())));
    assert_eq!(failed(logout), Some(SsoErrorKind::AdminToken));
    let allowed = || asked().advance(LogoutEvent::Replied(body("{\"access_token\":\"tok\"}")));
    let logout = allowed().advance(LogoutEvent::ClientReady(Err(SsoError::plain(SsoErrorKind::NoUserInfoUrl))));
    assert_eq!(failed(logout), Some(SsoErrorKind::NoUserInfoUrl));
    let ready = || allowed().advance(LogoutEvent::ClientReady(Ok(())));
    let logout = ready().advance(LogoutEvent::Replied(body("[]")));
    assert_eq!(failed(logout), Some(SsoErrorKind::UserNotFound));
    let logout = ready().advance(LogoutEvent::Replied(body("[{\"id\":\"u1\"}]")));
    let logout = logout.advance(LogoutEvent::Replied(HttpReply::Failed("timeout".to_owned())));
    assert_eq!(failed(logout), Some(SsoErrorKind::Transport));
}

#[test]
fn logouts_by_email_ignore_stray_reports() {
    let logout = email_logout().advance(LogoutEvent::ClientReady(Ok(())));
    assert!(matches!(logout.pending(), LogoutAction::AskIssuer));
}

fn user_request(action: UserAction) -> HttpRequest {
    match action {
        UserAction::Send(request) => request,
        other => panic!("{:?}", other),
    }
}

fn with_token(run: UserRun) -> UserRun {
    assert!(matches!(run.pending(), UserAction::AskIssuer));
    let run = run.advance(UserEvent::Issuer(Ok(ISSUER.to_owned())));
    let request = user_request(run.pending());
    assert_eq!(request.url, "https://kc.example/auth/realms/acme/protocol/openid-connect/token");
    assert_eq!(
        pairs(&request.form),
        vec![("grant_type", "client_credentials"), ("client_id", "id"), ("client_secret", "secret")]
    );
    run.advance(UserEvent::Replied(body("{\"access_token\":\"tok\"}")))
}

fn user_check() -> UserRun {
    keycloak_user_exists("a@x.example", "id".to_owned(), "secret".to_owned())
}

fn user_creation() -> UserRun {
    keycloak_create_user("a@x.example", "id".to_owned(), "secret".to_owned())
}

fn found_out(run: UserRun) -> Result<bool, SsoError> {
    match run.into_phase() {
        UserPhase::Checked(res) => res,
        other => panic!("{:?}", other),
    }
}

fn created(run: UserRun) -> Result<(), SsoError> {
    match run.into_phase() {
        UserPhase::Created(res) => res,
        other => panic!("{:?}", other),
    }
}

#[test]
fn users_exist_if_keycloak_lists_them() {
    let run = with_token(user_check());
    let request = user_request(run.pending());
    assert_eq!(request.method, Method::Get);
    assert_eq!(request.url, "https://kc.example/auth/admin/realms/acme/users?email=a%40x.example");
    assert_eq!(
        pairs(&request.headers),
        vec![("Authorization", "Bearer tok"), ("Content-Type", "application/json")]
    );
    assert!(request.form.is_empty() && request.json.is_empty());
    let run = run.advance(UserEvent::Replied(body("[{\"id\":\"u1\"}]")));
    assert!(matches!(run.pending(), UserAction::Finish));
    assert!(matches!(found_out(run), Ok(true)));
    let run = with_token(user_check()).advance(UserEvent::Replied(body("[]")));
    assert!(matches!(found_out(run), Ok(false)));
    assert!(matches!(read_user_exists(body("[{}]")), Ok(true)));
    assert!(matches!(lists_users(Ok(vec![None])), Ok(true)));
    assert!(matches!(lists_users(Ok(Vec::new())), Ok(false)));
}

#[test]
fn failed_checks_of_users_are_errors() {
    let reply = |reply: HttpReply| found_out(with_token(user_check()).advance(UserEvent::Replied(reply)));
    assert_eq!(kind(&reply(HttpReply::Failed("timeout".to_owned()))), Some(SsoErrorKind::Transport));
    let refused = reply(HttpReply::Refused("denied".to_owned()));
    assert_eq!(message(&refused), "Failed to find user by email: denied");
    assert_eq!(kind(&reply(body("{}"))), Some(SsoErrorKind::Reply));
    let run = user_check().advance(UserEvent::Issuer(Err(settings_error())));
    assert_eq!(kind(&found_out(run)), Some(SsoErrorKind::Settings));
    let run = user_check().advance(UserEvent::Issuer(Ok("https://kc.example".to_owned())));
    assert_eq!(kind(&found_out(run)), Some(SsoErrorKind::NoRealm));
    let run = user_check().advance(UserEvent::Issuer(Ok(ISSUER.to_owned())));
    let run = run.advance(UserEvent::Replied(HttpReply::Refused("denied".to_owned())));
    assert_eq!(kind(&found_out(run)), Some(SsoErrorKind::AdminToken));
}

#[test]
fn users_are_created_with_a_password_to_reset() {
    let run = with_token(user_creation());
    let request = user_request(run.pending());
    assert_eq!(request.method, Method::Post);
    assert_eq!(request.url, "https://kc.example/auth/admin/realms/acme/users");
    assert_eq!(
        pairs(&request.headers),
        vec![("Authorization", "Bearer tok"), ("Content-Type", "application/json")]
    );
    let fields: Vec<&str> = request.json.iter().map(|(name, _)| name.as_str()).collect();
    assert_eq!(fields, vec!["username", "email", "enabled", "requiredActions"]);
    assert!(matches!(&request.json[0].1, JsonField::Text(text) if text == "a@x.example"));
    assert!(matches!(&request.json[1].1, JsonField::Text(text) if text == "a@x.example"));
    assert!(matches!(&request.json[2].1, JsonField::Flag(true)));
    assert!(matches!(&request.json[3].1, JsonField::Texts(texts) if *texts == ["UPDATE_PASSWORD"]));
    let run = run.advance(UserEvent::Replied(HttpReply::Accepted(Vec::new())));
    assert!(created(run).is_ok());
}

#[test]
fn users_that_keycloak_refuses_are_not_created() {
    let reply = |reply: HttpReply| created(with_token(user_creation()).advance(UserEvent::Replied(reply)));
    let refused = reply(HttpReply::Refused("exists".to_owned()));
    assert_eq!(message(&refused), "Failed to create user: exists");
    assert_eq!(kind(&refused), Some(SsoErrorKind::CreateUser));
    assert_eq!(kind(&reply(HttpReply::Failed("timeout".to_owned()))), Some(SsoErrorKind::Transport));
    let run = user_creation().advance(UserEvent::Issuer(Err(settings_error())));
    assert_eq!(kind(&created(run)), Some(SsoErrorKind::Settings));
    let run = user_creation().advance(UserEvent::Replied(HttpReply::Accepted(Vec::new())));
    assert!(matches!(run.phase(), UserPhase::AskIssuer));
}
