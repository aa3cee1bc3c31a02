use org_bridge::client::{BuildAction, BuildEvent, BuildPhase, Client, ProviderMetadata};
use org_bridge::client_cache::{Cached, ClientCache};
use org_bridge::clock::Moment;
use org_bridge::oidc::{
    audience_verdict, has_fitting_mac, is_trusted_audience, refit_mac, IdClaims, IdTokenVerifier,
};
use org_bridge::sso_client::{LoginSettings, SsoNonce, TokenReply};
use org_bridge::sso_error::{SsoError, SsoErrorKind};

use chrono::DateTime;
use openidconnect::{
    Audience, EmptyAdditionalClaims, IssuerUrl, Nonce, StandardClaims, SubjectIdentifier,
};

const ISSUER: &str = "https://idp.example";

fn client() -> Client {
    Client {
        client_id: "web".to_owned(),
        client_secret: "a shared secret of the client".to_owned(),
        issuer_url: ISSUER.to_owned(),
        auth_url: "https://idp.example/auth".to_owned(),
        token_url: "https://idp.example/token".to_owned(),
        user_info_url: "https://idp.example/me".to_owned(),
        redirect_url: "https://vault.example/cb".to_owned(),
        signing: "[{\"keys\":[]},[\"HS256\"]]".to_owned(),
    }
}

fn kind<T>(res: &Result<T, SsoError>) -> Option<SsoErrorKind> {
    match res {
        Ok(_) => None,
        Err(error) => Some(error.kind),
    }
}

fn settings(pkce: bool) -> LoginSettings {
    LoginSettings {
        scopes: vec!["email".to_owned(), "profile".to_owned()],
        extra_params: vec![
            ("access_type".to_owned(), "offline".to_owned()),
            ("hint".to_owned(), "a b".to_owned()),
        ],
        pkce,
    }
}

#[test]
fn login_addresses_carry_state_nonce_scopes_and_extras() {
    let login = client().authorize_url_with(
        settings(false),
        "org:1>".to_owned(),
        "https://vault.example/back".to_owned(),
        "the-nonce".to_owned(),
        None,
    );
    let (url, nonce) = match login {
        Ok(login) => login,
        Err(error) => panic!("{:?}", error),
    };
    assert_eq!(
        url,
        "https://idp.example/auth?response_type=code&client_id=web&state=b3JnOjE%2B\
         &redirect_uri=https%3A%2F%2Fvault.example%2Fcb&scope=openid+email+profile\
         &access_type=offline&hint=a+b&nonce=the-nonce"
    );
    assert_eq!(nonce.state, "org:1>");
    assert_eq!(nonce.nonce, "the-nonce");
    assert_eq!(nonce.verifier, None);
    assert_eq!(nonce.redirect_uri, "https://vault.example/back");
}

#[test]
fn login_addresses_carry_the_challenge() {
    let login = client().authorize_url_with(
        LoginSettings { scopes: Vec::new(), extra_params: Vec::new(), pkce: true },
        "s".to_owned(),
        "r".to_owned(),
        "n".to_owned(),
        Some("dBjftJeZ4CVP-mB92K27uhbUJU1p1r_wW1gFWFOEjXk".to_owned()),
    );
    let (url, nonce) = match login {
        Ok(login) => login,
        Err(error) => panic!("{:?}", error),
    };
    assert_eq!(
        url,
        "https://idp.example/auth?response_type=code&client_id=web&state=cw%3D%3D\
         &code_challenge=E9Melhoa2OwvFrEMTJguCHaoeK1t8URWbuGJSstw-cM&code_challenge_method=S256\
         &redirect_uri=https%3A%2F%2Fvault.example%2Fcb&scope=openid&nonce=n"
    );
    assert_eq!(
        nonce.verifier.as_deref(),
        Some("dBjftJeZ4CVP-mB92K27uhbUJU1p1r_wW1gFWFOEjXk")
    );
}

#[test]
fn nonces_and_verifiers_are_drawn_anew() {
    let draw = || match client().authorize_url(settings(true), "s".to_owned(), "r".to_owned()) {
        Ok((url, nonce)) => (url, nonce),
        Err(error) => panic!("{:?}", error),
    };
    let (first_url, first) = draw();
    let (_, second) = draw();
    assert_eq!(first.nonce.len(), 22);
    assert_eq!(first.verifier.as_ref().map(String::len), Some(43));
    assert_ne!(first.nonce, second.nonce);
    assert_ne!(first.verifier, second.verifier);
    assert!(first_url.ends_with(&format!("&nonce={}", first.nonce)));
    match client().authorize_url(settings(false), "s".to_owned(), "r".to_owned()) {
        Ok((_, nonce)) => assert_eq!(nonce.verifier, None),
        Err(error) => panic!("{:?}", error),
    }
}

#[test]
fn clients_without_addresses_start_no_login() {
    let mut broken = client();
    broken.auth_url = "nowhere".to_owned();
    let login = broken.authorize_url(settings(false), "s".to_owned(), "r".to_owned());
    assert_eq!(kind(&login), Some(SsoErrorKind::ClientUrl));
    let mut broken = client();
    broken.issuer_url = "nowhere".to_owned();
    let login = broken.authorize_url(settings(false), "s".to_owned(), "r".to_owned());
    assert_eq!(kind(&login), Some(SsoErrorKind::ClientUrl));
    let mut broken = client();
    broken.redirect_url = "nowhere".to_owned();
    let login = broken.authorize_url(settings(false), "s".to_owned(), "r".to_owned());
    assert_eq!(kind(&login), Some(SsoErrorKind::ClientUrl));
}

fn nonce(verifier: Option<&str>) -> SsoNonce {
    SsoNonce {
        state: "s".to_owned(),
        nonce: "the-nonce".to_owned(),
        verifier: verifier.map(str::to_owned),
        redirect_uri: "r".to_owned(),
    }
}

#[test]
fn codes_are_exchanged_with_their_verifier() {
    match Client::exchange_code("code".to_owned(), &nonce(Some("v")), true) {
        Ok(exchange) => {
            assert_eq!(exchange.code, "code");
            assert_eq!(exchange.verifier.as_deref(), Some("v"));
        }
        Err(error) => panic!("{:?}", error),
    }
    match Client::exchange_code("code".to_owned(), &nonce(Some("v")), false) {
        Ok(exchange) => assert_eq!(exchange.verifier, None),
        Err(error) => panic!("{:?}", error),
    }
    match Client::exchange_code("code".to_owned(), &nonce(None), true) {
        Ok(_) => panic!("no verifier"),
        Err(error) => assert_eq!(error.message(), "Missing verifier in the DB nonce table"),
    }
}

fn moment(seconds: i64) -> Moment {
    Moment { seconds, nanos: 0 }
}

fn id_token(issuer: &str, audiences: &[&str], secret: &str) -> String {
    let audiences = audiences.iter().map(|name| Audience::new((*name).to_owned())).collect();
    let claims = openidconnect::core::CoreIdTokenClaims::new(
        IssuerUrl::new(issuer.to_owned()).unwrap(),
        audiences,
        DateTime::from_timestamp(2_000, 0).unwrap(),
        DateTime::from_timestamp(1_000, 0).unwrap(),
        StandardClaims::new(SubjectIdentifier::new("someone".to_owned())),
        EmptyAdditionalClaims {},
    )
    .set_nonce(Some(Nonce::new("the-nonce".to_owned())));
    openidconnect::core::CoreIdToken::new(
        claims,
        &openidconnect::core::CoreHmacKey::new(secret.as_bytes().to_vec()),
        openidconnect::core::CoreJwsSigningAlgorithm::HmacSha256,
        None,
        None,
    )
    .unwrap()
    .to_string()
}

fn good_token(audiences: &[&str]) -> String {
    id_token(ISSUER, audiences, "a shared secret of the client")
}

fn token_check(pattern: Option<&str>) -> IdTokenVerifier {
    client().vw_id_token_verifier(pattern.map(str::to_owned))
}

fn refusal(token: &str, pattern: Option<&str>, nonce: &str, seconds: i64) -> String {
    match token_check(pattern).claims(token, nonce.to_owned(), moment(seconds)) {
        Ok(claims) => panic!("accepted: {:?}", claims),
        Err(error) => error,
    }
}

#[test]
fn good_id_tokens_are_accepted() {
    match token_check(None).claims(&good_token(&["web"]), "the-nonce".to_owned(), moment(1_500)) {
        Ok(claims) => {
            assert_eq!(claims.issuer().as_deref(), Some(ISSUER));
            assert_eq!(claims.audiences(), Some(vec![Some("web".to_owned())]));
            assert_eq!(claims.nonce().as_deref(), Some("the-nonce"));
            assert_eq!(claims.expiration(), Some(2_000));
            assert_eq!(
                String::from_utf8(claims.json).unwrap(),
                "{\"aud\":[\"web\"],\"exp\":2000,\"iat\":1000,\"iss\":\"https://idp.example\",\
                 \"nonce\":\"the-nonce\",\"sub\":\"someone\"}"
            );
        }
        Err(error) => panic!("{}", error),
    }
}

#[test]
fn other_audiences_need_a_matching_pattern() {
    let token = good_token(&["web", "svc-mail"]);
    let untrusted = "Invalid audiences: `svc-mail` is not a trusted audience";
    assert_eq!(refusal(&token, None, "the-nonce", 1_500), untrusted);
    assert_eq!(refusal(&token, Some("^mail"), "the-nonce", 1_500), untrusted);
    assert_eq!(refusal(&token, Some("("), "the-nonce", 1_500), untrusted);
    let accepted = token_check(Some("^svc-")).claims(&token, "the-nonce".to_owned(), moment(1_500));
    assert!(accepted.is_ok());
}

#[test]
fn trust_in_audiences_is_a_matter_of_the_pattern() {
    assert!(token_check(Some("svc")).trusts_audience("my-svc-1"));
    assert!(!token_check(Some("^svc")).trusts_audience("my-svc-1"));
    assert!(!token_check(None).trusts_audience("svc"));
    assert!(!is_trusted_audience(&Some("[".to_owned()), "["));
    assert!(is_trusted_audience(&Some("".to_owned()), "anything"));
    assert!(audience_verdict(Some(true)));
    assert!(!audience_verdict(Some(false)));
    assert!(!audience_verdict(None));
}

#[test]
fn bad_id_tokens_are_refused() {
    let token = good_token(&["web"]);
    assert_eq!(refusal(&token, None, "other", 1_500), "Invalid nonce: nonce mismatch");
    assert!(refusal(&token, None, "the-nonce", 2_000).starts_with("Expired: ID token expired"));
    let token = good_token(&["other"]);
    assert!(refusal(&token, None, "the-nonce", 1_500).starts_with("Invalid audiences: must contain `web`"));
    let token = id_token("https://evil.example", &["web"], "a shared secret of the client");
    assert!(refusal(&token, None, "the-nonce", 1_500).starts_with("Invalid issuer: "));
    let token = id_token(ISSUER, &["web"], "another secret");
    assert_eq!(refusal(&token, None, "the-nonce", 1_500), "Signature verification failed");
}

#[test]
fn codes_of_the_wrong_length_are_bad_signatures() {
    let mut token = good_token(&["web"]);
    token.pop();
    assert_eq!(refusal(&token, None, "the-nonce", 1_500), "Signature verification failed");
    token.push_str("AAAAA");
    assert_eq!(refusal(&token, None, "the-nonce", 1_500), "Signature verification failed");
    assert!(refusal("no token", None, "the-nonce", 1_500).starts_with("Invalid JSON web token"));
    let mut token = good_token(&["other"]);
    token.pop();
    assert!(refusal(&token, None, "the-nonce", 1_500).starts_with("Invalid audiences: must contain `web`"));
    let mut token = id_token("https://evil.example", &["web"], "a shared secret of the client");
    token.push_str("AAAA");
    assert!(refusal(&token, None, "the-nonce", 1_500).starts_with("Invalid issuer: "));
    assert_eq!(refit_mac("h.p.s", &Some("HS256".to_owned())), format!("h.p.{}", "A".repeat(43)));
    assert_eq!(refit_mac("h.p.s", &Some("RS256".to_owned())), "h.p.s");
    assert_eq!(refit_mac("nodots", &Some("HS256".to_owned())), "nodots");
    assert_eq!(IdTokenVerifier::misfit_verdict(Err("late".to_owned())), "late");
    let forged = IdTokenVerifier::misfit_verdict(Ok(IdClaims { json: Vec::new() }));
    assert_eq!(forged, "Signature verification failed");
    let mac = |length: usize| format!("h.p.{}", "A".repeat(length));
    for (name, length) in [("HS256", 43), ("HS384", 64), ("HS512", 86)] {
        let algorithm = Some(name.to_owned());
        assert!(has_fitting_mac(&mac(length), &algorithm));
        assert!(!has_fitting_mac(&mac(length - 1), &algorithm));
        assert!(!has_fitting_mac(&mac(length + 1), &algorithm));
    }
    assert!(!has_fitting_mac("nodots", &Some("HS256".to_owned())));
    assert!(has_fitting_mac("h.p.s", &Some("RS256".to_owned())));
    assert!(has_fitting_mac("h.p.s", &None));
}

#[test]
fn extra_parameters_keep_order_and_duplicates() {
    let login = client().authorize_url_with(
        LoginSettings {
            scopes: Vec::new(),
            extra_params: vec![
                ("z".to_owned(), "1".to_owned()),
                ("a".to_owned(), "2".to_owned()),
                ("z".to_owned(), "1".to_owned()),
            ],
            pkce: false,
        },
        "s".to_owned(),
        "r".to_owned(),
        "n".to_owned(),
        None,
    );
    match login {
        Ok((url, _)) => assert!(url.ends_with("&scope=openid&z=1&a=2&z=1&nonce=n")),
        Err(error) => panic!("{:?}", error),
    }
}

#[test]
fn only_algorithms_of_the_provider_are_accepted() {
    let mut rsa = token_check(None);
    rsa.signing = "[{\"keys\":[]},[\"RS256\"]]".to_owned();
    match rsa.claims(&good_token(&["web"]), "the-nonce".to_owned(), moment(1_500)) {
        Ok(claims) => panic!("{:?}", claims),
        Err(error) => assert_eq!(error, "Signature verification failed"),
    }
}

fn tokens(id_token: Option<String>) -> TokenReply {
    TokenReply {
        access_token: "access".to_owned(),
        refresh_token: Some("refresh".to_owned()),
        expires_in: Some(300),
        id_token,
    }
}

fn full_cache() -> ClientCache {
    let mut cache = ClientCache::new(3_600);
    assert!(Client::remember(&mut cache, Ok(client())).is_ok());
    cache
}

fn holds_client(cache: &ClientCache) -> bool {
    matches!(Client::cached(cache), Cached::Ready(kept) if kept.client_id == "web")
}

#[test]
fn logins_end_with_tokens_and_claims() {
    let mut cache = full_cache();
    let reply = Ok(tokens(Some(good_token(&["web"]))));
    let check = token_check(None);
    match Client::read_exchange_at(&mut cache, &check, "the-nonce".to_owned(), reply, moment(1_500)) {
        Ok((tokens, claims)) => {
            assert_eq!(tokens.access_token, "access");
            assert_eq!(claims.issuer().as_deref(), Some(ISSUER));
        }
        Err(error) => panic!("{:?}", error),
    }
    assert!(holds_client(&cache));
}

#[test]
fn refused_id_tokens_drop_the_client() {
    let mut cache = full_cache();
    let reply = Ok(tokens(Some(good_token(&["web"]))));
    let check = token_check(None);
    match Client::read_exchange_at(&mut cache, &check, "other".to_owned(), reply, moment(1_500)) {
        Ok(_) => panic!("accepted"),
        Err(error) => assert_eq!(
            error.message(),
            "Could not read id_token claims, Invalid nonce: nonce mismatch"
        ),
    }
    assert!(!holds_client(&cache));
}

#[test]
fn the_clock_judges_id_tokens() {
    let mut cache = full_cache();
    let reply = Ok(tokens(Some(good_token(&["web"]))));
    let res = Client::read_exchange(&mut cache, &token_check(None), "the-nonce".to_owned(), reply);
    assert_eq!(kind(&res), Some(SsoErrorKind::IdTokenClaims));
}

#[test]
fn failed_exchanges_keep_the_client() {
    let mut cache = full_cache();
    let res = Client::read_exchange(&mut cache, &token_check(None), "n".to_owned(), Err("down".to_owned()));
    match res {
        Ok(_) => panic!("no tokens"),
        Err(error) => assert_eq!(error.message(), "Failed to contact token endpoint: down"),
    }
    let res = Client::read_exchange(&mut cache, &token_check(None), "n".to_owned(), Ok(tokens(None)));
    match res {
        Ok(_) => panic!("no id token"),
        Err(error) => assert_eq!(error.message(), "Token response did not contain an id_token"),
    }
    assert!(holds_client(&cache));
}

#[test]
fn what_the_check_says_decides_the_login() {
    let mut cache = full_cache();
    let res = Client::finish_exchange(&mut cache, tokens(None), Err("why".to_owned()));
    assert_eq!(kind(&res), Some(SsoErrorKind::IdTokenClaims));
    assert!(!holds_client(&cache));
}

#[test]
fn access_tokens_are_valid_while_users_are_known() {
    assert!(Client::check_validity(Client::user_info(Ok("{}".to_owned()))).is_ok());
    match Client::check_validity(Client::user_info(Err("401".to_owned()))) {
        Ok(()) => panic!("valid"),
        Err(error) => assert_eq!(
            error.message(),
            "Failed to retrieve user info, token has probably been invalidated: \
             Request to user_info endpoint failed: 401"
        ),
    }
}

#[test]
fn refreshes_give_new_tokens() {
    match Client::exchange_refresh_token(Ok(tokens(None))) {
        Ok((refresh, access, expires_in)) => {
            assert_eq!(refresh.as_deref(), Some("refresh"));
            assert_eq!(access, "access");
            assert_eq!(expires_in, Some(300));
        }
        Err(error) => panic!("{:?}", error),
    }
    match Client::exchange_refresh_token(Err("down".to_owned())) {
        Ok(_) => panic!("no tokens"),
        Err(error) => assert_eq!(
            error.message(),
            "Request to exchange_refresh_token endpoint failed: down"
        ),
    }
}

#[test]
fn caches_give_the_stored_client_back() {
    let mut cache = ClientCache::new(3_600);
    assert!(!holds_client(&cache));
    assert!(Client::remember(&mut cache, Ok(client())).is_ok());
    assert!(holds_client(&cache));
    let mut other = client();
    other.client_id = "other".to_owned();
    assert!(Client::remember(&mut cache, Ok(other)).is_ok());
    assert!(matches!(Client::cached(&cache), Cached::Ready(kept) if kept.client_id == "other"));
    Client::invalidate(&mut cache);
    assert!(matches!(Client::cached(&cache), Cached::Build));
}

#[test]
fn caches_without_expiration_keep_nothing() {
    let mut cache = ClientCache::new(0);
    assert!(Client::remember(&mut cache, Ok(client())).is_ok());
    assert!(matches!(Client::cached(&cache), Cached::Build));
    Client::invalidate(&mut cache);
    assert!(matches!(Client::cached(&cache), Cached::Build));
}

#[test]
fn failed_builds_are_not_kept() {
    let mut cache = full_cache();
    let res = Client::remember(&mut cache, Err(SsoError::plain(SsoErrorKind::NoTokenUrl)));
    assert_eq!(kind(&res), Some(SsoErrorKind::NoTokenUrl));
    assert!(holds_client(&cache));
    assert!(matches!(Client::from_lookup(None), Cached::Build));
    assert!(matches!(Client::from_lookup(Some(client())), Cached::Ready(_)));
}

fn metadata(token_url: Option<&str>, user_info_url: Option<&str>) -> ProviderMetadata {
    ProviderMetadata {
        issuer_url: ISSUER.to_owned(),
        auth_url: "https://idp.example/auth".to_owned(),
        token_url: token_url.map(str::to_owned),
        user_info_url: user_info_url.map(str::to_owned),
        signing: "[{\"keys\":[]},[\"RS256\"]]".to_owned(),
    }
}

fn discovered(metadata: Result<ProviderMetadata, String>) -> BuildPhase {
    Client::get_client("web".to_owned(), "secret".to_owned())
        .advance(BuildEvent::Issuer(Ok(ISSUER.to_owned())))
        .advance(BuildEvent::HttpBuilt(Ok(())))
        .advance(BuildEvent::Discovered(metadata))
        .into_phase()
}

fn build_error(phase: BuildPhase) -> String {
    match phase {
        BuildPhase::Done(Err(error)) => error.message(),
        other => panic!("{:?}", other),
    }
}

#[test]
fn clients_are_built_from_discovery() {
    let build = Client::get_client("web".to_owned(), "secret".to_owned());
    assert!(matches!(build.pending(), BuildAction::AskIssuer));
    let build = build.advance(BuildEvent::Issuer(Ok(ISSUER.to_owned())));
    assert!(matches!(build.pending(), BuildAction::BuildHttp));
    let build = build.advance(BuildEvent::HttpBuilt(Ok(())));
    assert!(matches!(build.pending(), BuildAction::Discover { issuer_url } if issuer_url == ISSUER));
    let build = build.advance(BuildEvent::Discovered(Ok(metadata(Some("t"), Some("u")))));
    assert!(matches!(build.pending(), BuildAction::AskRedirect));
    let build = build.advance(BuildEvent::Redirect(Ok("https://vault.example/cb".to_owned())));
    assert!(matches!(build.pending(), BuildAction::Finish));
    match build.into_phase() {
        BuildPhase::Done(Ok(client)) => {
            assert_eq!(client.client_id, "web");
            assert_eq!(client.client_secret, "secret");
            assert_eq!(client.issuer_url, ISSUER);
            assert_eq!(client.token_url, "t");
            assert_eq!(client.user_info_url, "u");
            assert_eq!(client.redirect_url, "https://vault.example/cb");
        }
        other => panic!("{:?}", other),
    }
}

#[test]
fn failed_builds_say_why() {
    let start = || Client::get_client("web".to_owned(), "secret".to_owned());
    let error = SsoError { kind: SsoErrorKind::Settings, detail: "no issuer".to_owned() };
    assert_eq!(build_error(start().advance(BuildEvent::Issuer(Err(error))).into_phase()), "no issuer");
    let issued = start().advance(BuildEvent::Issuer(Ok(ISSUER.to_owned())));
    let built = issued.advance(BuildEvent::HttpBuilt(Err("tls".to_owned())));
    assert_eq!(build_error(built.into_phase()), "Failed to build http client: tls");
    assert_eq!(
        build_error(discovered(Err("404".to_owned()))),
        "Failed to discover OpenID provider: 404"
    );
    assert_eq!(
        build_error(discovered(Ok(metadata(None, None)))),
        "Failed to discover token_url, cannot proceed"
    );
    assert_eq!(
        build_error(discovered(Ok(metadata(Some("t"), None)))),
        "Failed to discover user_info url, cannot proceed"
    );
    let stray = start().advance(BuildEvent::HttpBuilt(Ok(())));
    assert!(matches!(stray.pending(), BuildAction::AskIssuer));
}
