//! What is left to the OpenID Connect library: random values, addresses that
//! send a browser to the provider, and the check of id tokens.
use crate::base64::base64_url;
use crate::clock::Moment;
use crate::http::pair_views;
use crate::json;
use crate::json::{json_member, json_member_int, json_member_texts, opt_text, opt_texts};
use crate::text;
use crate::text::after_last_spec;
use crate::url_parts::{url_split, URL_ROOM};
use chrono::DateTime;
use openidconnect::{
    AuthUrl, AuthenticationFlow, AuthorizationRequest, ClientId, ClientSecret, CsrfToken,
    EndpointSet, IssuerUrl, JsonWebKeySet, Nonce, PkceCodeChallenge, PkceCodeVerifier, RedirectUrl,
    Scope,
};
use regex::Regex;
use std::error::Error;
use std::str::FromStr;
use vstd::prelude::*;

verus! {

/// What `Regex` says of a pattern and a text: whether the pattern matches
/// somewhere in the text, or nothing if it is no pattern.
pub uninterp spec fn regex_match(pattern: Seq<char>, text: Seq<char>) -> Option<bool>;

/// A URL with pairs appended to its query, as `Url::query_pairs_mut` appends
/// them.
pub uninterp spec fn url_with_query(
    url: Seq<char>,
    pairs: Seq<(Seq<char>, Seq<char>)>,
) -> Seq<char>;

/// What `Sha256::digest` makes of a text.
pub uninterp spec fn sha256(text: Seq<char>) -> Seq<u8>;

/// The algorithm that `IdToken::signing_alg` reads from a token, by its name in
/// the token's header; nothing if the text is no token or is not signed.
pub uninterp spec fn signing_algorithm(token: Seq<char>) -> Option<Seq<char>>;

/// What `IdToken::claims` says of an id token: its claims in JSON, or why they
/// are not to be relied on.
pub uninterp spec fn verified_claims(
    client_id: Seq<char>,
    client_secret: Seq<char>,
    issuer: Seq<char>,
    signing: Seq<char>,
    audience_trusted: Option<Seq<char>>,
    seconds: i64,
    nanos: u32,
    token: Seq<char>,
    nonce: Seq<char>,
) -> Result<Seq<u8>, Seq<char>>;

/// The proof-key challenge of a verifier.
pub open spec fn code_challenge(verifier: Seq<char>) -> Seq<char> {
    base64_url(sha256(verifier))
}

/// Texts as values.
pub open spec fn text_views(texts: Seq<String>) -> Seq<Seq<char>> {
    Seq::new(texts.len(), |i: int| texts[i]@)
}

/// How long texts are together, each with a separator.
pub open spec fn texts_room(texts: Seq<Seq<char>>) -> nat
    decreases texts.len(),
{
    if texts.len() == 0 {
        0
    } else {
        texts_room(texts.drop_last()) + texts.last().len() + 1
    }
}

/// How long names and values are together, each with a separator.
pub open spec fn pairs_room(pairs: Seq<(Seq<char>, Seq<char>)>) -> nat
    decreases pairs.len(),
{
    if pairs.len() == 0 {
        0
    } else {
        pairs_room(pairs.drop_last()) + pairs.last().0.len() + pairs.last().1.len() + 2
    }
}

/// A verifier as the proof-key extension wants it: 43 to 128 ASCII characters.
pub open spec fn is_code_verifier(verifier: Seq<char>) -> bool {
    &&& 43 <= verifier.len() <= 128
    &&& forall|i: int| 0 <= i < verifier.len() ==> (#[trigger] verifier[i] as int) < 128
}

/// Whether the pattern matches somewhere in the text.
///
/// Calls `Regex::new` and `Regex::is_match` of `regex`. Trusted: the answer is a
/// function of pattern and text alone.
#[verifier::external_body]
fn matches_regex(pattern: &str, text: &str) -> (found: Option<bool>)
    ensures
        found == regex_match(pattern@, text@),
{
    match Regex::new(pattern) {
        Ok(regex) => Some(regex.is_match(text)),
        Err(_) => None,
    }
}

/// A random nonce.
///
/// Calls `Nonce::new_random` of `openidconnect`. Trusted: it is the Base64 text,
/// without padding, of sixteen bytes, and so has 22 characters.
#[verifier::external_body]
pub(crate) fn random_nonce() -> (nonce: String)
    ensures
        nonce@.len() == 22,
{
    Nonce::new_random().secret().clone()
}

/// A random verifier for the proof-key extension.
///
/// Calls `PkceCodeChallenge::new_random_sha256` and
/// `PkceCodeVerifier::into_secret` of `openidconnect`. Trusted: it is the Base64
/// text, without padding, of 32 bytes, and so has 43 ASCII characters.
#[verifier::external_body]
pub(crate) fn random_verifier() -> (verifier: String)
    ensures
        verifier@.len() == 43,
        is_code_verifier(verifier@),
{
    PkceCodeChallenge::new_random_sha256().1.into_secret()
}

/// What a login request has from its client.
pub struct ClientParts {
    pub client_id: Seq<char>,
    pub auth_url: Seq<char>,
    pub redirect_url: Seq<char>,
}

/// What a login request is made of.
pub struct LoginParts {
    pub client: ClientParts,
    pub state: Seq<char>,
    pub nonce: Seq<char>,
    pub scopes: Seq<Seq<char>>,
    pub extra_params: Seq<(Seq<char>, Seq<char>)>,
    pub challenge: Option<Seq<char>>,
}

/// A client as `openidconnect` keeps it, to make login requests with.
#[verifier::external_body]
pub struct LoginClient {
    client: openidconnect::core::CoreClient<EndpointSet>,
}

/// A login request as `openidconnect` keeps it.
#[verifier::external_body]
pub struct LoginRequest<'a> {
    request: AuthorizationRequest<
        'a,
        openidconnect::core::CoreAuthDisplay,
        openidconnect::core::CoreAuthPrompt,
        openidconnect::core::CoreResponseType,
    >,
}

/// What a client was made with.
pub uninterp spec fn client_parts(client: LoginClient) -> ClientParts;

/// What has been put into a login request.
pub uninterp spec fn request_parts(request: LoginRequest<'_>) -> LoginParts;

/// A client that login requests can be made with, if all its addresses are URLs.
///
/// Calls `Client::new`, `Client::set_auth_uri` and `Client::set_redirect_uri` of
/// `openidconnect`, with `IssuerUrl::new`, `AuthUrl::new` and `RedirectUrl::new`.
/// Trusted: these three parse their text by `Url::parse` and keep it.
#[verifier::external_body]
pub(crate) fn login_client(
    client_id: String,
    issuer: String,
    auth_url: String,
    redirect_url: String,
) -> (client: Option<LoginClient>)
    ensures
        (client is Some) == (url_split(issuer@) is Ok && url_split(auth_url@) is Ok && url_split(
            redirect_url@,
        ) is Ok),
        client matches Some(client) ==> client_parts(client) == (ClientParts {
            client_id: client_id@,
            auth_url: auth_url@,
            redirect_url: redirect_url@,
        }),
{
    let issuer = IssuerUrl::new(issuer).ok()?;
    let (auth, redirect) = (AuthUrl::new(auth_url).ok()?, RedirectUrl::new(redirect_url).ok()?);
    let client = openidconnect::core::CoreClient::new(
        ClientId::new(client_id), issuer, JsonWebKeySet::default());
    Some(LoginClient { client: client.set_auth_uri(auth).set_redirect_uri(redirect) })
}

/// A request for an authorization-code login with the scope `openid`.
///
/// Calls `Client::authorize_url` of `openidconnect`. Trusted: the request holds
/// the client, the state and the nonce, the scope `openid`, and nothing else.
#[verifier::external_body]
pub(crate) fn login_request<'a>(
    client: &'a LoginClient,
    state: String,
    nonce: String,
) -> (request: LoginRequest<'a>)
    ensures
        request_parts(request) == (LoginParts {
            client: client_parts(*client),
            state: state@,
            nonce: nonce@,
            scopes: seq!["openid"@],
            extra_params: Seq::empty(),
            challenge: None,
        }),
{
    let flow = AuthenticationFlow::<openidconnect::core::CoreResponseType>::AuthorizationCode;
    LoginRequest {
        request: client.client.authorize_url(
            flow, || CsrfToken::new(state), || Nonce::new(nonce)),
    }
}

/// The request with more scopes.
///
/// Calls `AuthorizationRequest::add_scopes` of `openidconnect`. Trusted: the
/// scopes follow those that the request has, in order.
#[verifier::external_body]
pub(crate) fn add_scopes<'a>(request: LoginRequest<'a>, scopes: Vec<String>) -> (res: LoginRequest<
    'a,
>)
    ensures
        request_parts(res) == (LoginParts {
            scopes: request_parts(request).scopes + text_views(scopes@),
            ..request_parts(request)
        }),
{
    LoginRequest { request: request.request.add_scopes(scopes.into_iter().map(Scope::new)) }
}

/// The request with one more parameter.
///
/// Calls `AuthorizationRequest::add_extra_param` of `openidconnect`. Trusted: the
/// parameter follows those that the request has.
#[verifier::external_body]
pub(crate) fn add_extra_param<'a>(
    request: LoginRequest<'a>,
    name: String,
    value: String,
) -> (res: LoginRequest<'a>)
    ensures
        request_parts(res) == (LoginParts {
            extra_params: request_parts(request).extra_params.push((name@, value@)),
            ..request_parts(request)
        }),
{
    LoginRequest { request: request.request.add_extra_param(name, value) }
}

/// The request with more parameters, in their order.
pub fn add_extra_params<'a>(request: LoginRequest<'a>, params: &Vec<(String, String)>) -> (res:
    LoginRequest<'a>)
    ensures
        request_parts(res) == (LoginParts {
            extra_params: request_parts(request).extra_params + pair_views(params@),
            ..request_parts(request)
        }),
{
    let ghost before = request_parts(request);
    let mut request = request;
    let mut i: usize = 0;
    assert(before.extra_params + pair_views(params@).take(0) =~= before.extra_params);
    while i < params.len()
        invariant
            i <= params@.len(),
            request_parts(request) == (LoginParts {
                extra_params: before.extra_params + pair_views(params@).take(i as int),
                ..before
            }),
        decreases params@.len() - i,
    {
        request = add_extra_param(request, params[i].0.clone(), params[i].1.clone());
        assert((before.extra_params + pair_views(params@).take(i as int)).push(
            (params@[i as int].0@, params@[i as int].1@),
        ) =~= before.extra_params + pair_views(params@).take(i + 1));
        i += 1;
    }
    assert(pair_views(params@).take(i as int) =~= pair_views(params@));
    request
}

/// The request with the proof-key challenge of a verifier.
///
/// Calls `PkceCodeChallenge::from_code_verifier_sha256` and
/// `AuthorizationRequest::set_pkce_challenge` of `openidconnect`. Trusted: the
/// challenge is the Base64 text for URLs of the verifier's SHA-256 digest, which
/// has 32 bytes, and so has 43 characters.
#[verifier::external_body]
pub(crate) fn set_challenge<'a>(request: LoginRequest<'a>, verifier: String) -> (res: LoginRequest<
    'a,
>)
    requires
        is_code_verifier(verifier@),
    ensures
        request_parts(res) == (LoginParts {
            challenge: Some(code_challenge(verifier@)),
            ..request_parts(request)
        }),
        request_parts(res).challenge->0.len() == 43,
{
    let verifier = PkceCodeVerifier::new(verifier);
    let challenge = PkceCodeChallenge::from_code_verifier_sha256(&verifier);
    LoginRequest { request: request.request.set_pkce_challenge(challenge) }
}

/// Texts with a space between each two.
pub open spec fn joined(texts: Seq<Seq<char>>) -> Seq<char>
    decreases texts.len(),
{
    if texts.len() == 0 {
        Seq::empty()
    } else if texts.len() == 1 {
        texts[0]
    } else {
        joined(texts.drop_last()) + " "@ + texts.last()
    }
}

/// The pairs that the address of a login request carries, in order.
pub open spec fn login_pairs(parts: LoginParts) -> Seq<(Seq<char>, Seq<char>)> {
    seq![
        ("response_type"@, "code"@),
        ("client_id"@, parts.client.client_id),
        ("state"@, parts.state),
    ] + (match parts.challenge {
        Some(challenge) => seq![
            ("code_challenge"@, challenge),
            ("code_challenge_method"@, "S256"@),
        ],
        None => Seq::empty(),
    }) + seq![("redirect_uri"@, parts.client.redirect_url)] + (if joined(parts.scopes).len() > 0 {
        seq![("scope"@, joined(parts.scopes))]
    } else {
        Seq::empty()
    }) + parts.extra_params + seq![("nonce"@, parts.nonce)]
}

/// The address that sends a browser to the provider for a login.
///
/// Calls `AuthorizationRequest::url` of `openidconnect`. Trusted: the address is
/// that of the provider with the pairs of the request appended to its query.
#[verifier::external_body]
pub(crate) fn login_address(request: LoginRequest<'_>) -> (url: String)
    requires
        request_parts(request).client.auth_url.len() + pairs_room(
            login_pairs(request_parts(request)),
        ) <= URL_ROOM,
    ensures
        url@ == url_with_query(
            request_parts(request).client.auth_url,
            login_pairs(request_parts(request)),
        ),
{
    request.request.url().0.to_string()
}

proof fn lemma_pairs_room_adds(a: Seq<(Seq<char>, Seq<char>)>, b: Seq<(Seq<char>, Seq<char>)>)
    ensures
        pairs_room(a + b) == pairs_room(a) + pairs_room(b),
    decreases b.len(),
{
    if b.len() == 0 {
        assert(a + b =~= a);
    } else {
        lemma_pairs_room_adds(a, b.drop_last());
        assert((a + b).drop_last() =~= a + b.drop_last());
    }
}

proof fn lemma_pair_room(pair: (Seq<char>, Seq<char>))
    ensures
        pairs_room(seq![pair]) == pair.0.len() + pair.1.len() + 2,
{
    assert(seq![pair].drop_last() =~= Seq::empty());
    reveal_with_fuel(pairs_room, 2);
}

proof fn lemma_joined_room(first: Seq<char>, texts: Seq<Seq<char>>)
    ensures
        joined(seq![first] + texts).len() <= first.len() + texts_room(texts),
    decreases texts.len(),
{
    let all = seq![first] + texts;
    if texts.len() == 0 {
        assert(all =~= seq![first]);
    } else {
        reveal_strlit(" ");
        lemma_joined_room(first, texts.drop_last());
        assert(all.drop_last() =~= seq![first] + texts.drop_last());
    }
}

/// The pairs of a login request take no more room than its parts and their
/// names.
pub(crate) proof fn lemma_login_pairs_room(parts: LoginParts, scopes: Seq<Seq<char>>)
    requires
        parts.scopes == seq!["openid"@] + scopes,
        parts.challenge matches Some(challenge) ==> challenge.len() == 43,
    ensures
        pairs_room(login_pairs(parts)) <= parts.client.client_id.len()
            + parts.client.redirect_url.len() + parts.state.len() + parts.nonce.len() + texts_room(
            scopes,
        ) + pairs_room(parts.extra_params) + 200,
{
    reveal_strlit("openid");
    reveal_strlit("response_type");
    reveal_strlit("code");
    reveal_strlit("client_id");
    reveal_strlit("state");
    reveal_strlit("code_challenge");
    reveal_strlit("code_challenge_method");
    reveal_strlit("S256");
    reveal_strlit("redirect_uri");
    reveal_strlit("scope");
    reveal_strlit("nonce");
    let p0 = ("response_type"@, "code"@);
    let p1 = ("client_id"@, parts.client.client_id);
    let p2 = ("state"@, parts.state);
    let head = seq![p0, p1, p2];
    lemma_pair_room(p0);
    lemma_pair_room(p1);
    lemma_pair_room(p2);
    lemma_pairs_room_adds(seq![p0], seq![p1]);
    lemma_pairs_room_adds(seq![p0] + seq![p1], seq![p2]);
    assert(head =~= seq![p0] + seq![p1] + seq![p2]);
    let proof_key = match parts.challenge {
        Some(challenge) => seq![
            ("code_challenge"@, challenge),
            ("code_challenge_method"@, "S256"@),
        ],
        None => Seq::empty(),
    };
    if let Some(challenge) = parts.challenge {
        let c0 = ("code_challenge"@, challenge);
        let c1 = ("code_challenge_method"@, "S256"@);
        lemma_pair_room(c0);
        lemma_pair_room(c1);
        lemma_pairs_room_adds(seq![c0], seq![c1]);
        assert(proof_key =~= seq![c0] + seq![c1]);
    }
    let redirect = seq![("redirect_uri"@, parts.client.redirect_url)];
    lemma_pair_room(redirect[0]);
    let scope = if joined(parts.scopes).len() > 0 {
        seq![("scope"@, joined(parts.scopes))]
    } else {
        Seq::empty()
    };
    lemma_pair_room(("scope"@, joined(parts.scopes)));
    lemma_joined_room("openid"@, scopes);
    let nonce = seq![("nonce"@, parts.nonce)];
    lemma_pair_room(nonce[0]);
    lemma_pairs_room_adds(head, proof_key);
    lemma_pairs_room_adds(head + proof_key, redirect);
    lemma_pairs_room_adds(head + proof_key + redirect, scope);
    lemma_pairs_room_adds(head + proof_key + redirect + scope, parts.extra_params);
    lemma_pairs_room_adds(head + proof_key + redirect + scope + parts.extra_params, nonce);
}

/// The address of a login first asks for a code and ends with the nonce; it
/// carries every scope behind `openid` in one pair, and the extra parameters in
/// their order, with duplicates.
pub proof fn login_addresses_carry_their_parts(parts: LoginParts)
    requires
        joined(parts.scopes).len() > 0,
    ensures
        login_pairs(parts)[0] == ("response_type"@, "code"@),
        login_pairs(parts)[1] == ("client_id"@, parts.client.client_id),
        login_pairs(parts)[2] == ("state"@, parts.state),
        login_pairs(parts).contains(("redirect_uri"@, parts.client.redirect_url)),
        login_pairs(parts).contains(("scope"@, joined(parts.scopes))),
        login_pairs(parts).last() == ("nonce"@, parts.nonce),
        login_pairs(parts).subrange(
            login_pairs(parts).len() - 1 - parts.extra_params.len(),
            login_pairs(parts).len() - 1,
        ) == parts.extra_params,
        parts.challenge matches Some(challenge) ==> login_pairs(parts)[3] == (
            "code_challenge"@,
            challenge,
        ) && login_pairs(parts)[4] == ("code_challenge_method"@, "S256"@),
{
    let pairs = login_pairs(parts);
    let k: int = if parts.challenge is Some {
        5
    } else {
        3
    };
    assert(pairs[k] == ("redirect_uri"@, parts.client.redirect_url));
    assert(pairs[k + 1] == ("scope"@, joined(parts.scopes)));
    assert(pairs.subrange(pairs.len() - 1 - parts.extra_params.len(), pairs.len() - 1)
        =~= parts.extra_params);
}

/// Audiences besides the client are trusted where a pattern is set that matches
/// them. Without a pattern, or where it is no pattern, none is.
pub open spec fn trusts(audience_trusted: Option<Seq<char>>, audience: Seq<char>) -> bool {
    match audience_trusted {
        Some(pattern) => regex_match(pattern, audience) == Some(true),
        None => false,
    }
}

/// Whether an audience besides the client is trusted, from what the pattern says
/// of it.
pub fn audience_verdict(found: Option<bool>) -> (trusted: bool)
    ensures
        trusted == (found == Some(true)),
{
    match found {
        Some(found) => found,
        None => false,
    }
}

/// Whether an audience besides the client is trusted.
pub fn is_trusted_audience(audience_trusted: &Option<String>, audience: &str) -> (trusted: bool)
    ensures
        trusted == trusts(opt_text(*audience_trusted), audience@),
{
    match audience_trusted {
        Some(pattern) => audience_verdict(matches_regex(pattern.as_str(), audience)),
        None => false,
    }
}

/// A token for these audiences is for the client, and for nobody else who is not
/// trusted.
pub open spec fn audiences_fit(
    client_id: Seq<char>,
    audience_trusted: Option<Seq<char>>,
    audiences: Seq<Option<Seq<char>>>,
) -> bool {
    &&& audiences.contains(Some(client_id))
    &&& forall|i: int|
        0 <= i < audiences.len() ==> (#[trigger] audiences[i] matches Some(audience) && (audience
            == client_id || trusts(audience_trusted, audience)))
}

/// How many characters the Base64 text of a message authentication code has, by
/// the algorithm; nothing where the algorithm makes no such code.
pub open spec fn mac_length(algorithm: Seq<char>) -> Option<nat> {
    if algorithm == "HS256"@ {
        Some(43)
    } else if algorithm == "HS384"@ {
        Some(64)
    } else if algorithm == "HS512"@ {
        Some(86)
    } else {
        None
    }
}

/// Where a token is signed by a message authentication code, what follows its
/// last `.` is as long as such a code.
pub open spec fn mac_fits_algorithm(token: Seq<char>, algorithm: Option<Seq<char>>) -> bool {
    match algorithm {
        Some(name) => match mac_length(name) {
            Some(length) => after_last_spec(token, "."@) matches Some(mac) && mac.len() == length,
            None => true,
        },
        None => true,
    }
}

/// A token's message authentication code is as long as its algorithm makes it.
pub open spec fn mac_fits(token: Seq<char>) -> bool {
    mac_fits_algorithm(token, signing_algorithm(token))
}

/// The algorithm by which a token is signed.
///
/// Calls `IdToken::from_str` and `IdToken::signing_alg` of `openidconnect`, and
/// writes the algorithm as `serde_json` does. Trusted: the name is a function of
/// the text alone.
#[verifier::external_body]
fn algorithm_of(token: &str) -> (algorithm: Option<String>)
    ensures
        opt_text(algorithm) == signing_algorithm(token@),
{
    let token = openidconnect::core::CoreIdToken::from_str(token).ok()?;
    let algorithm = serde_json::to_value(token.signing_alg().ok()?).ok()?;
    algorithm.as_str().map(str::to_owned)
}

/// Whether a token's message authentication code is as long as this algorithm
/// makes it.
pub fn has_fitting_mac(token: &str, algorithm: &Option<String>) -> (fits: bool)
    ensures
        fits == mac_fits_algorithm(token@, opt_text(*algorithm)),
{
    match (mac_length_of(algorithm), text::after_last(token, ".")) {
        (None, _) => true,
        (Some(length), Some(mac)) => mac.unicode_len() == length,
        (Some(_), None) => false,
    }
}

/// A token with a made-up message authentication code, of the length that the
/// algorithm makes, in place of its own.
pub open spec fn refitted(token: Seq<char>, algorithm: Option<Seq<char>>) -> Seq<char> {
    match (algorithm, after_last_spec(token, "."@)) {
        (Some(name), Some(mac)) => match mac_length(name) {
            Some(length) => token.take(token.len() - mac.len()) + Seq::new(length, |i: int| 'A'),
            None => token,
        },
        _ => token,
    }
}

/// A text of `length` times the letter `A`.
fn repeated_letter(length: usize) -> (text: String)
    ensures
        text@ == Seq::new(length as nat, |i: int| 'A'),
{
    let mut text = String::new();
    let mut i: usize = 0;
    proof {
        reveal_strlit("A");
    }
    while i < length
        invariant
            i <= length,
            "A"@ == seq!['A'],
            text@ == Seq::new(i as nat, |j: int| 'A'),
        decreases length - i,
    {
        text = text.concat("A");
        i += 1;
        assert(text@ =~= Seq::new(i as nat, |j: int| 'A'));
    }
    text
}

/// How long the Base64 text of a message authentication code is, by the
/// algorithm.
fn mac_length_of(algorithm: &Option<String>) -> (length: Option<usize>)
    ensures
        match (length, *algorithm) {
            (Some(length), Some(name)) => mac_length(name@) == Some(length as nat),
            (None, Some(name)) => mac_length(name@) is None,
            (length, None) => length is None,
        },
        length matches Some(length) ==> length <= 86,
{
    match algorithm {
        None => None,
        Some(name) => {
            if *name == "HS256".to_owned() {
                Some(43)
            } else if *name == "HS384".to_owned() {
                Some(64)
            } else if *name == "HS512".to_owned() {
                Some(86)
            } else {
                None
            }
        },
    }
}

/// A token with a made-up message authentication code, of the length that the
/// algorithm makes, in place of its own.
pub fn refit_mac(token: &str, algorithm: &Option<String>) -> (refit: String)
    ensures
        refit@ == refitted(token@, opt_text(*algorithm)),
{
    match (mac_length_of(algorithm), text::after_last(token, ".")) {
        (Some(length), Some(mac)) => {
            proof {
                text::lemma_after_last_is_suffix(token@, "."@, mac@);
            }
            let at: usize = token.unicode_len() - mac.unicode_len();
            assert(token@.subrange(0, at as int) =~= token@.take(at as int));
            token.substring_char(0, at).to_owned().concat(repeated_letter(length).as_str())
        },
        _ => token.to_owned(),
    }
}

/// The claims of an id token at a moment, if they are to be relied on.
///
/// Calls `IdToken::from_str` and `IdToken::claims` of `openidconnect` with a
/// verifier made by `IdTokenVerifier::new_confidential_client`,
/// `set_allowed_algs`, `set_time_fn` and `set_other_audience_verifier_fn`.
/// Trusted: the claims, or the error text, are a function of the arguments
/// alone; accepted claims name the issuer, their audiences are the client and
/// none that is not trusted, they hold a nonce with the SHA-256 digest of the one
/// given, and they have not expired. That the signature holds is checked too; of
/// this nothing is said here but that the result depends on the keys, the secret
/// and the token. A message authentication code of another length than its
/// algorithm makes would end the check by a panic.
#[verifier::external_body]
fn claims_at(
    client_id: String,
    client_secret: String,
    issuer: String,
    signing: &str,
    audience_trusted: &Option<String>,
    now: Moment,
    token: &str,
    nonce: String,
) -> (claims: Result<Vec<u8>, String>)
    requires
        now.wf(),
        mac_fits(token@),
    ensures
        verified_claims(
            client_id@,
            client_secret@,
            issuer@,
            signing@,
            opt_text(*audience_trusted),
            now.seconds,
            now.nanos,
            token@,
            nonce@,
        ) == (match claims {
            Ok(claims) => Ok::<Seq<u8>, Seq<char>>(claims@),
            Err(error) => Err::<Seq<u8>, Seq<char>>(error@),
        }),
        claims matches Ok(claims) ==> (json_member(claims@, "iss"@) matches Ok(Some(iss)) && iss
            == issuer@),
        claims matches Ok(claims) ==> (json_member_texts(claims@, "aud"@) matches Ok(
            Some(audiences),
        ) && audiences_fit(client_id@, opt_text(*audience_trusted), audiences)),
        claims matches Ok(claims) ==> (json_member(claims@, "nonce"@) matches Ok(Some(held))
            && sha256(held) == sha256(nonce@)),
        claims matches Ok(claims) ==> (json_member_int(claims@, "exp"@) matches Ok(Some(exp))
            && now.seconds <= exp),
{
    let read = || -> Result<Vec<u8>, Box<dyn Error>> {
        let (keys, algs): (_, Vec<_>) = serde_json::from_str(signing)?;
        let time = DateTime::from_timestamp(now.seconds, now.nanos).unwrap();
        let verifier = openidconnect::core::CoreIdTokenVerifier::new_confidential_client(
            ClientId::new(client_id), ClientSecret::new(client_secret), IssuerUrl::new(issuer)?, keys)
            .set_allowed_algs(algs)
            .set_time_fn(move || time)
            .set_other_audience_verifier_fn(|aud| is_trusted_audience(audience_trusted, aud));
        Ok(serde_json::to_value(openidconnect::core::CoreIdToken::from_str(token)?
            .claims(&verifier, &Nonce::new(nonce))?)?.to_string().into())
    };
    read().map_err(|error| error.to_string())
}

/// The claims of an id token that was accepted, in JSON.
#[derive(Debug)]
pub struct IdClaims {
    pub json: Vec<u8>,
}

impl IdClaims {
    /// Who issued the token.
    pub fn issuer(&self) -> (issuer: Option<String>)
        ensures
            opt_text(issuer) == (match json_member(self.json@, "iss"@) {
                Ok(issuer) => issuer,
                Err(_) => None,
            }),
    {
        match json::member(self.json.as_slice(), "iss") {
            Ok(issuer) => issuer,
            Err(_) => None,
        }
    }

    /// The nonce of the login that the token is for.
    pub fn nonce(&self) -> (nonce: Option<String>)
        ensures
            opt_text(nonce) == (match json_member(self.json@, "nonce"@) {
                Ok(nonce) => nonce,
                Err(_) => None,
            }),
    {
        match json::member(self.json.as_slice(), "nonce") {
            Ok(nonce) => nonce,
            Err(_) => None,
        }
    }

    /// The second at which the token expires.
    pub fn expiration(&self) -> (seconds: Option<i64>)
        ensures
            seconds == (match json_member_int(self.json@, "exp"@) {
                Ok(seconds) => seconds,
                Err(_) => None,
            }),
    {
        match json::member_int(self.json.as_slice(), "exp") {
            Ok(seconds) => seconds,
            Err(_) => None,
        }
    }

    /// Whom the token is for.
    pub fn audiences(&self) -> (audiences: Option<Vec<Option<String>>>)
        ensures
            match json_member_texts(self.json@, "aud"@) {
                Ok(Some(texts)) => audiences matches Some(audiences) && opt_texts(audiences@)
                    == texts,
                _ => audiences is None,
            },
    {
        match json::member_texts(self.json.as_slice(), "aud") {
            Ok(audiences) => audiences,
            Err(_) => None,
        }
    }
}

/// What is needed to tell good id tokens from others.
#[derive(Debug)]
pub struct IdTokenVerifier {
    pub client_id: String,
    pub client_secret: String,
    pub issuer_url: String,
    pub signing: String,
    /// The pattern of the audiences besides the client that are trusted.
    pub audience_trusted: Option<String>,
}

impl IdTokenVerifier {
    /// What the library's check of an id token at a moment says.
    pub open spec fn checked(self, token: Seq<char>, nonce: Seq<char>, now: Moment) -> Result<
        Seq<u8>,
        Seq<char>,
    > {
        verified_claims(
            self.client_id@,
            self.client_secret@,
            self.issuer_url@,
            self.signing@,
            opt_text(self.audience_trusted),
            now.seconds,
            now.nanos,
            token,
            nonce,
        )
    }

    /// What the check of an id token at a moment says. A message authentication
    /// code of the wrong length is a bad signature; what is found wrong before the
    /// signature is looked at comes first, as with a code of the right length.
    pub open spec fn verdict(self, token: Seq<char>, nonce: Seq<char>, now: Moment) -> Result<
        Seq<u8>,
        Seq<char>,
    > {
        let refit = refitted(token, signing_algorithm(token));
        if mac_fits(token) {
            self.checked(token, nonce, now)
        } else if mac_fits(refit) && self.checked(refit, nonce, now) is Err {
            self.checked(refit, nonce, now)
        } else {
            Err("Signature verification failed"@)
        }
    }

    /// The verdict on a token whose message authentication code has the wrong
    /// length, from what the check says of it with a code of the right length.
    pub fn misfit_verdict(refit: Result<IdClaims, String>) -> (error: String)
        ensures
            error@ == (match refit {
                Ok(_) => "Signature verification failed"@,
                Err(error) => error@,
            }),
    {
        match refit {
            Ok(_) => "Signature verification failed".to_owned(),
            Err(error) => error,
        }
    }

    /// The claims of an id token at a moment, where its message authentication
    /// code is as long as its algorithm makes it.
    fn check(&self, token: &str, nonce: String, now: Moment) -> (claims: Result<IdClaims, String>)
        requires
            now.wf(),
            mac_fits(token@),
        ensures
            self.checked(token@, nonce@, now) == (match claims {
                Ok(claims) => Ok::<Seq<u8>, Seq<char>>(claims.json@),
                Err(error) => Err::<Seq<u8>, Seq<char>>(error@),
            }),
            claims matches Ok(claims) ==> self.vouches_for(claims.json@, nonce@, now),
    {
        match claims_at(
            self.client_id.clone(),
            self.client_secret.clone(),
            self.issuer_url.clone(),
            self.signing.as_str(),
            &self.audience_trusted,
            now,
            token,
            nonce,
        ) {
            Ok(json) => Ok(IdClaims { json }),
            Err(error) => Err(error),
        }
    }

    /// Claims that are accepted at a moment are of this issuer and for this
    /// client, and for nobody else who is not trusted; they hold a nonce with the
    /// digest of the login's and have not expired.
    pub open spec fn vouches_for(self, claims: Seq<u8>, nonce: Seq<char>, now: Moment) -> bool {
        &&& (json_member(claims, "iss"@) matches Ok(Some(iss)) && iss == self.issuer_url@)
        &&& (json_member_texts(claims, "aud"@) matches Ok(Some(audiences)) && audiences_fit(
            self.client_id@,
            opt_text(self.audience_trusted),
            audiences,
        ))
        &&& (json_member(claims, "nonce"@) matches Ok(Some(held)) && sha256(held) == sha256(nonce))
        &&& (json_member_int(claims, "exp"@) matches Ok(Some(exp)) && now.seconds <= exp)
    }

    /// Whether an audience besides the client is trusted.
    pub fn trusts_audience(&self, audience: &str) -> (trusted: bool)
        ensures
            trusted == trusts(opt_text(self.audience_trusted), audience@),
    {
        is_trusted_audience(&self.audience_trusted, audience)
    }

    /// The claims of an id token at a moment, or why they are not to be relied
    /// on.
    pub fn claims(&self, token: &str, nonce: String, now: Moment) -> (claims: Result<
        IdClaims,
        String,
    >)
        requires
            now.wf(),
        ensures
            self.verdict(token@, nonce@, now) == (match claims {
                Ok(claims) => Ok::<Seq<u8>, Seq<char>>(claims.json@),
                Err(error) => Err::<Seq<u8>, Seq<char>>(error@),
            }),
            claims matches Ok(claims) ==> self.vouches_for(claims.json@, nonce@, now),
            ({
                let algorithm = signing_algorithm(token@);
                ||| algorithm is None
                ||| algorithm->0 != "HS256"@ && algorithm->0 != "HS384"@ && algorithm->0 != "HS512"@
                ||| algorithm->0 == "HS256"@ && ends_in_code(token@, 43)
                ||| algorithm->0 == "HS384"@ && ends_in_code(token@, 64)
                ||| algorithm->0 == "HS512"@ && ends_in_code(token@, 86)
            }) ==> verified_claims(
                self.client_id@,
                self.client_secret@,
                self.issuer_url@,
                self.signing@,
                opt_text(self.audience_trusted),
                now.seconds,
                now.nanos,
                token@,
                nonce@,
            ) == (match claims {
                Ok(claims) => Ok::<Seq<u8>, Seq<char>>(claims.json@),
                Err(error) => Err::<Seq<u8>, Seq<char>>(error@),
            }),
            claims matches Ok(claims) ==> verified_claims(
                self.client_id@,
                self.client_secret@,
                self.issuer_url@,
                self.signing@,
                opt_text(self.audience_trusted),
                now.seconds,
                now.nanos,
                token@,
                nonce@,
            ) == Ok::<Seq<u8>, Seq<char>>(claims.json@),
    {
        proof {
            tokens_are_judged_by_the_library(*self, token@, nonce@, now);
        }
        let algorithm = algorithm_of(token);
        if has_fitting_mac(token, &algorithm) {
            return self.check(token, nonce, now);
        }
        let refit = refit_mac(token, &algorithm);
        if has_fitting_mac(refit.as_str(), &algorithm_of(refit.as_str())) {
            Err(Self::misfit_verdict(self.check(refit.as_str(), nonce, now)))
        } else {
            Err("Signature verification failed".to_owned())
        }
    }
}

/// The last `.` of a token stands in front of its last `length` characters.
pub open spec fn ends_in_code(token: Seq<char>, length: int) -> bool {
    &&& length < token.len()
    &&& token[token.len() - length - 1] == '.'
    &&& forall|i: int| token.len() - length <= i < token.len() ==> #[trigger] token[i] != '.'
}

proof fn lemma_ends_in_code(token: Seq<char>, length: int)
    requires
        0 <= length,
        ends_in_code(token, length),
    ensures
        after_last_spec(token, "."@) matches Some(mac) && mac.len() == length,
{
    reveal_strlit(".");
    let at = token.len() - length - 1;
    let head = token.take(at);
    let mac = token.skip(at + 1);
    assert(token =~= head + "."@ + mac);
    assert forall|j: int|
        head.len() < j <= head.len() + mac.len() implies #[trigger] (head + "."@ + mac).subrange(
        j,
        j + "."@.len(),
    ) != "."@ by {
        assert((head + "."@ + mac).subrange(j, j + 1)[0] == token[j]);
    }
    text::the_last_occurrence_decides(head, "."@, mac, token);
}

/// What the library accepts is accepted, with the claims that it gives, and what
/// it refuses is refused for its reason, whatever the token is signed with. Only
/// a token with a message authentication code of the wrong length cannot be handed
/// to the library: it is never accepted.
pub proof fn tokens_are_judged_by_the_library(
    verifier: IdTokenVerifier,
    token: Seq<char>,
    nonce: Seq<char>,
    now: Moment,
)
    ensures
        ({
            let algorithm = signing_algorithm(token);
            let judged = verified_claims(
                verifier.client_id@,
                verifier.client_secret@,
                verifier.issuer_url@,
                verifier.signing@,
                opt_text(verifier.audience_trusted),
                now.seconds,
                now.nanos,
                token,
                nonce,
            );
            &&& algorithm is None ==> verifier.verdict(token, nonce, now) == judged
            &&& algorithm matches Some(name) ==> name != "HS256"@ && name != "HS384"@ && name
                != "HS512"@ ==> verifier.verdict(token, nonce, now) == judged
            &&& algorithm == Some("HS256"@) && ends_in_code(token, 43) ==> verifier.verdict(
                token,
                nonce,
                now,
            ) == judged
            &&& algorithm == Some("HS384"@) && ends_in_code(token, 64) ==> verifier.verdict(
                token,
                nonce,
                now,
            ) == judged
            &&& algorithm == Some("HS512"@) && ends_in_code(token, 86) ==> verifier.verdict(
                token,
                nonce,
                now,
            ) == judged
            &&& verifier.verdict(token, nonce, now) is Ok ==> verifier.verdict(token, nonce, now)
                == judged
        }),
{
    lemma_mac_names();
    if ends_in_code(token, 43) {
        lemma_ends_in_code(token, 43);
    }
    if ends_in_code(token, 64) {
        lemma_ends_in_code(token, 64);
    }
    if ends_in_code(token, 86) {
        lemma_ends_in_code(token, 86);
    }
}

proof fn lemma_mac_names()
    ensures
        "HS256"@ != "HS384"@,
        "HS256"@ != "HS512"@,
        "HS384"@ != "HS512"@,
{
    reveal_strlit("HS256");
    reveal_strlit("HS384");
    reveal_strlit("HS512");
    assert("HS256"@[2] == '2' && "HS384"@[2] == '3' && "HS512"@[2] == '5');
}

/// A token with a message authentication code of the wrong length is refused for
/// what the library finds wrong with it when it has a made-up code of the right
/// length, and as a bad signature otherwise.
pub proof fn misfits_are_refused(
    verifier: IdTokenVerifier,
    head: Seq<char>,
    mac: Seq<char>,
    nonce: Seq<char>,
    now: Moment,
    name: Seq<char>,
    length: nat,
)
    requires
        !mac.contains('.'),
        name == "HS256"@ && length == 43 || name == "HS384"@ && length == 64 || name == "HS512"@
            && length == 86,
        signing_algorithm(head + "."@ + mac) == Some(name),
        mac.len() != length,
        ({
            let refit = signing_algorithm(head + "."@ + Seq::new(length, |i: int| 'A'));
            refit is None || refit == Some(name)
        }),
    ensures
        verifier.verdict(head + "."@ + mac, nonce, now) matches Err(error) && error == (
        match verified_claims(
            verifier.client_id@,
            verifier.client_secret@,
            verifier.issuer_url@,
            verifier.signing@,
            opt_text(verifier.audience_trusted),
            now.seconds,
            now.nanos,
            head + "."@ + Seq::new(length, |i: int| 'A'),
            nonce,
        ) {
            Ok(_) => "Signature verification failed"@,
            Err(found) => found,
        }),
{
    reveal_strlit(".");
    lemma_mac_names();
    let token = head + "."@ + mac;
    let letters = Seq::new(length, |i: int| 'A');
    let refit = head + "."@ + letters;
    assert forall|j: int|
        head.len() < j <= head.len() + mac.len() implies #[trigger] (head + "."@ + mac).subrange(
        j,
        j + "."@.len(),
    ) != "."@ by {
        if j < token.len() {
            assert(token.subrange(j, j + 1)[0] == mac[j - head.len() - 1]);
            assert(mac.contains(mac[j - head.len() - 1]));
        }
    }
    text::the_last_occurrence_decides(head, "."@, mac, token);
    assert(after_last_spec(token, "."@) == Some(mac));
    assert(token.take(token.len() - mac.len()) =~= head + "."@);
    assert(refitted(token, Some(name)) =~= refit);
    lemma_ends_in_code(refit, length as int);
}

/// An audience besides the client is trusted if and only if a pattern is set and
/// matches it.
pub proof fn audiences_are_trusted_by_the_pattern(
    pattern: Seq<char>,
    audience: Seq<char>,
)
    ensures
        !trusts(None, audience),
        trusts(Some(pattern), audience) <==> regex_match(pattern, audience) == Some(true),
{
}

/// Texts keep their order and their characters when taken as values.
pub proof fn texts_are_taken_as_they_are(texts: Seq<String>, i: int)
    ensures
        text_views(texts).len() == texts.len(),
        0 <= i < texts.len() ==> text_views(texts)[i] == texts[i]@,
{
}

} // verus!
