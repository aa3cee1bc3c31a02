//! Logging in through the provider, and what follows a login.
use crate::base64;
use crate::base64::{base64, base64_url, in_alphabet};
use crate::client::Client;
use crate::client_cache::{dropped, may_answer, unchanged, Cached, ClientCache};
use crate::clock;
use crate::clock::Moment;
use crate::http::pair_views;
use crate::json::{json_member_texts, opt_text};
use crate::oidc;
use crate::oidc::{
    code_challenge, is_code_verifier, joined, login_pairs, pairs_room, request_parts, sha256,
    text_views, texts_room, url_with_query, ClientParts, IdClaims, IdTokenVerifier, LoginParts,
};
use crate::sso_error::{error_text, plain_error, SsoError, SsoErrorKind, SsoErrorView};
use crate::url_parts::{url_split, URL_ROOM};
use vstd::prelude::*;
use vstd::utf8::{encode_utf8, encode_utf8_decode_utf8};

verus! {

/// The settings for a login.
#[derive(Debug)]
pub struct LoginSettings {
    pub scopes: Vec<String>,
    /// Parameters that the address of the provider gets besides the usual ones.
    pub extra_params: Vec<(String, String)>,
    /// Whether logins use the proof-key extension.
    pub pkce: bool,
}

/// What is remembered of a login that has been started.
#[derive(Debug)]
pub struct SsoNonce {
    pub state: String,
    pub nonce: String,
    pub verifier: Option<String>,
    pub redirect_uri: String,
}

/// What the login request of a client is made of. The state is carried in
/// Base64, because not every provider copes with what it holds.
pub open spec fn login_parts(
    client: Client,
    settings: LoginSettings,
    state: Seq<char>,
    nonce: Seq<char>,
    verifier: Option<Seq<char>>,
) -> LoginParts {
    LoginParts {
        client: ClientParts {
            client_id: client.client_id@,
            auth_url: client.auth_url@,
            redirect_url: client.redirect_url@,
        },
        state: base64(encode_utf8(state)),
        nonce,
        scopes: seq!["openid"@] + text_views(settings.scopes@),
        extra_params: pair_views(settings.extra_params@),
        challenge: match verifier {
            Some(secret) => Some(code_challenge(secret)),
            None => None,
        },
    }
}

/// All addresses of the client that a login needs are URLs.
pub open spec fn has_addresses(client: Client) -> bool {
    url_split(client.issuer_url@) is Ok && url_split(client.auth_url@) is Ok && url_split(
        client.redirect_url@,
    ) is Ok
}

/// How long the parts of the address are together, at most, with their names.
pub open spec fn login_room(
    client: Client,
    settings: LoginSettings,
    state: Seq<char>,
    nonce: Seq<char>,
) -> nat {
    client.client_id@.len() + client.auth_url@.len() + client.redirect_url@.len() + texts_room(
        text_views(settings.scopes@),
    ) + pairs_room(pair_views(settings.extra_params@)) + base64(encode_utf8(state)).len()
        + nonce.len() + 200
}

/// `login` is how a login starts, given its nonce and its verifier.
pub open spec fn login_starts(
    client: Client,
    settings: LoginSettings,
    state: String,
    redirect_uri: String,
    nonce: String,
    verifier: Option<String>,
    login: Result<(String, SsoNonce), SsoError>,
) -> bool {
    if has_addresses(client) {
        login matches Ok((address, remembered)) && address@ == url_with_query(
            client.auth_url@,
            login_pairs(login_parts(client, settings, state@, nonce@, opt_text(verifier))),
        ) && remembered == (SsoNonce { state, nonce, verifier, redirect_uri })
    } else {
        login matches Err(error) && error@ == plain_error(SsoErrorKind::ClientUrl)
    }
}

/// What is handed to the token endpoint for a login that came back with a code.
#[derive(Debug)]
pub struct CodeExchange {
    pub code: String,
    pub verifier: Option<String>,
}

/// What a token endpoint replies.
#[derive(Debug)]
pub struct TokenReply {
    pub access_token: String,
    pub refresh_token: Option<String>,
    /// For how many seconds the access token is good.
    pub expires_in: Option<u64>,
    pub id_token: Option<String>,
}

/// `res` is what comes of a login, given what the check of the id token says.
pub open spec fn exchange_ends(
    tokens: TokenReply,
    claims: Result<Seq<u8>, Seq<char>>,
    res: Result<(TokenReply, IdClaims), SsoError>,
) -> bool {
    match claims {
        Ok(json) => res matches Ok((kept, claims)) && kept == tokens && claims.json@ == json,
        Err(error) => res matches Err(e) && e@ == (SsoErrorView {
            kind: SsoErrorKind::IdTokenClaims,
            detail: error,
        }),
    }
}

/// What happens to the kept client when the id token has been checked: if the
/// token is bad, the provider's keys may have changed, and the client goes.
pub open spec fn cache_follows(
    before: ClientCache,
    claims: Result<Seq<u8>, Seq<char>>,
    after: ClientCache,
) -> bool {
    if claims is Ok {
        unchanged(before, after)
    } else {
        dropped(before, after)
    }
}

/// `res` is what comes of a login with this reply of the token endpoint at this
/// moment, and `after` what is kept then.
pub open spec fn exchange_goes(
    verifier: IdTokenVerifier,
    nonce: Seq<char>,
    reply: Result<TokenReply, String>,
    now: Moment,
    before: ClientCache,
    res: Result<(TokenReply, IdClaims), SsoError>,
    after: ClientCache,
) -> bool {
    match reply {
        Err(error) => {
            &&& unchanged(before, after)
            &&& res matches Err(e)
            &&& e@ == (SsoErrorView { kind: SsoErrorKind::TokenEndpoint, detail: error@ })
        },
        Ok(tokens) => match tokens.id_token {
            None => {
                &&& unchanged(before, after)
                &&& res matches Err(e)
                &&& e@ == plain_error(SsoErrorKind::NoIdToken)
            },
            Some(token) => {
                let claims = verifier.verdict(token@, nonce, now);
                &&& cache_follows(before, claims, after)
                &&& exchange_ends(tokens, claims, res)
                &&& res matches Ok((_, claims)) ==> verifier.vouches_for(claims.json@, nonce, now)
            },
        },
    }
}

impl Client {
    /// Starts a login: the address to send the browser to, and what to remember
    /// of the login. The nonce is drawn at random, and so is the verifier if the
    /// settings ask for one.
    ///
    /// The parts have to fit into a URL.
    pub fn authorize_url(
        &self,
        settings: LoginSettings,
        state: String,
        redirect_uri: String,
    ) -> (login: Result<(String, SsoNonce), SsoError>)
        requires
            encode_utf8(state@).len() <= usize::MAX / 512,
            login_room(*self, settings, state@, Seq::empty()) + 22 <= URL_ROOM,
        ensures
            exists|nonce: String, verifier: Option<String>|
                {
                    &&& nonce@.len() == 22
                    &&& settings.pkce <==> verifier is Some
                    &&& verifier matches Some(secret) ==> is_code_verifier(secret@)
                    &&& #[trigger] login_starts(
                        *self,
                        settings,
                        state,
                        redirect_uri,
                        nonce,
                        verifier,
                        login,
                    )
                },
    {
        let verifier = if settings.pkce {
            Some(oidc::random_verifier())
        } else {
            None
        };
        self.authorize_url_with(settings, state, redirect_uri, oidc::random_nonce(), verifier)
    }

    /// Starts a login as [`Client::authorize_url`] does, with this nonce and this
    /// verifier.
    pub fn authorize_url_with(
        &self,
        settings: LoginSettings,
        state: String,
        redirect_uri: String,
        nonce: String,
        verifier: Option<String>,
    ) -> (login: Result<(String, SsoNonce), SsoError>)
        requires
            verifier matches Some(secret) ==> is_code_verifier(secret@),
            encode_utf8(state@).len() <= usize::MAX / 512,
            login_room(*self, settings, state@, nonce@) <= URL_ROOM,
        ensures
            login_starts(*self, settings, state, redirect_uri, nonce, verifier, login),
    {
        let client = match oidc::login_client(
            self.client_id.clone(),
            self.issuer_url.clone(),
            self.auth_url.clone(),
            self.redirect_url.clone(),
        ) {
            Some(client) => client,
            None => {
                return Err(SsoError::plain(SsoErrorKind::ClientUrl));
            },
        };
        let bytes = state.as_str().as_bytes_vec();
        let request = oidc::login_request(
            &client,
            base64::encode(bytes.as_slice()),
            nonce.clone(),
        );
        let request = oidc::add_scopes(request, settings.scopes);
        let request = oidc::add_extra_params(request, &settings.extra_params);
        let request = match &verifier {
            Some(secret) => oidc::set_challenge(request, secret.clone()),
            None => request,
        };
        proof {
            let parts = login_parts(*self, settings, state@, nonce@, opt_text(verifier));
            assert(request_parts(request).extra_params =~= parts.extra_params);
            assert(request_parts(request) == parts);
            oidc::lemma_login_pairs_room(parts, text_views(settings.scopes@));
        }
        let url = oidc::login_address(request);
        Ok((url, SsoNonce { state, nonce, verifier, redirect_uri }))
    }

    /// What to hand to the token endpoint for a login that came back with a code.
    /// With the proof-key extension the login must have had a verifier.
    pub fn exchange_code(code: String, nonce: &SsoNonce, pkce: bool) -> (exchange: Result<
        CodeExchange,
        SsoError,
    >)
        ensures
            if pkce && nonce.verifier is None {
                exchange matches Err(error) && error@ == plain_error(
                    SsoErrorKind::MissingVerifier,
                )
            } else {
                exchange == Ok::<CodeExchange, SsoError>(
                    CodeExchange {
                        code,
                        verifier: if pkce {
                            nonce.verifier
                        } else {
                            None
                        },
                    },
                )
            },
    {
        if pkce {
            match &nonce.verifier {
                None => Err(SsoError::plain(SsoErrorKind::MissingVerifier)),
                Some(secret) => Ok(CodeExchange { code, verifier: Some(secret.clone()) }),
            }
        } else {
            Ok(CodeExchange { code, verifier: None })
        }
    }

    /// What tells good id tokens for this client from others. Audiences besides
    /// the client are trusted where the pattern matches them.
    pub fn vw_id_token_verifier(&self, audience_trusted: Option<String>) -> (verifier:
        IdTokenVerifier)
        ensures
            verifier == (IdTokenVerifier {
                client_id: self.client_id,
                client_secret: self.client_secret,
                issuer_url: self.issuer_url,
                signing: self.signing,
                audience_trusted,
            }),
    {
        IdTokenVerifier {
            client_id: self.client_id.clone(),
            client_secret: self.client_secret.clone(),
            issuer_url: self.issuer_url.clone(),
            signing: self.signing.clone(),
            audience_trusted,
        }
    }

    /// What comes of a login, given what the check of its id token says.
    pub fn finish_exchange(
        cache: &mut ClientCache,
        tokens: TokenReply,
        claims: Result<IdClaims, String>,
    ) -> (res: Result<(TokenReply, IdClaims), SsoError>)
        ensures
            cache_follows(*old(cache), claims_verdict(claims), *final(cache)),
            exchange_ends(tokens, claims_verdict(claims), res),
            claims matches Ok(claims) ==> res == Ok::<(TokenReply, IdClaims), SsoError>(
                (tokens, claims),
            ),
            claims matches Err(detail) ==> (res matches Err(error) && error.kind
                == SsoErrorKind::IdTokenClaims && error.detail@ == detail@),
            final(cache).expiration() == old(cache).expiration(),
            final(cache).stored() == (if claims is Err && old(cache).expiration() > 0 {
                None
            } else {
                old(cache).stored()
            }),
            final(cache).judged() == old(cache).judged(),
            final(cache).judged_before() == old(cache).judged_before(),
    {
        match claims {
            Ok(claims) => Ok((tokens, claims)),
            Err(error) => {
                Client::invalidate(cache);
                Err(SsoError { kind: SsoErrorKind::IdTokenClaims, detail: error })
            },
        }
    }

    /// What comes of a login with this reply of the token endpoint, now.
    pub fn read_exchange(
        cache: &mut ClientCache,
        verifier: &IdTokenVerifier,
        nonce: String,
        reply: Result<TokenReply, String>,
    ) -> (res: Result<(TokenReply, IdClaims), SsoError>)
        ensures
            exists|now: Moment|
                now.wf() && #[trigger] exchange_goes(
                    *verifier,
                    nonce@,
                    reply,
                    now,
                    *old(cache),
                    res,
                    *final(cache),
                ),
            final(cache).judged() matches Some(reading) && reading.at().wf() && exchange_goes(
                *verifier,
                nonce@,
                reply,
                reading.at(),
                *old(cache),
                res,
                *final(cache),
            ),
            final(cache).judged_before() == old(cache).judged(),
    {
        let reading = clock::utc_now();
        let now = reading.moment();
        let ghost nonce_text = nonce@;
        cache.note(reading);
        let res = Client::read_exchange_at(cache, verifier, nonce, reply, now);
        assert(exchange_goes(*verifier, nonce_text, reply, now, *old(cache), res, *cache));
        res
    }

    /// What comes of a login with this reply of the token endpoint, at a moment.
    pub fn read_exchange_at(
        cache: &mut ClientCache,
        verifier: &IdTokenVerifier,
        nonce: String,
        reply: Result<TokenReply, String>,
        now: Moment,
    ) -> (res: Result<(TokenReply, IdClaims), SsoError>)
        requires
            now.wf(),
        ensures
            exchange_goes(*verifier, nonce@, reply, now, *old(cache), res, *final(cache)),
            reply matches Err(detail) ==> (res matches Err(error) && error.kind
                == SsoErrorKind::TokenEndpoint && error.detail@ == detail@),
            reply matches Ok(tokens) ==> tokens.id_token is None ==> (res matches Err(error)
                && error.kind == SsoErrorKind::NoIdToken && error.detail@.len() == 0),
            reply matches Ok(tokens) ==> (tokens.id_token matches Some(token) ==> (
            match verifier.verdict(token@, nonce@, now) {
                Ok(json) => res matches Ok((kept, claims)) && kept == tokens && claims.json@
                    == json,
                Err(detail) => res matches Err(error) && error.kind == SsoErrorKind::IdTokenClaims
                    && error.detail@ == detail,
            })),
            final(cache).expiration() == old(cache).expiration(),
            final(cache).stored() == (if old(cache).expiration() > 0 && (res matches Err(error)
                && error.kind == SsoErrorKind::IdTokenClaims) {
                None
            } else {
                old(cache).stored()
            }),
            final(cache).judged() == old(cache).judged(),
            final(cache).judged_before() == old(cache).judged_before(),
    {
        match reply {
            Err(error) => Err(SsoError { kind: SsoErrorKind::TokenEndpoint, detail: error }),
            Ok(tokens) => {
                let claims = match &tokens.id_token {
                    None => {
                        return Err(SsoError::plain(SsoErrorKind::NoIdToken));
                    },
                    Some(token) => verifier.claims(token.as_str(), nonce, now),
                };
                Client::finish_exchange(cache, tokens, claims)
            },
        }
    }

    /// What comes of asking the provider about a user; what it says is JSON.
    pub fn user_info(reply: Result<String, String>) -> (res: Result<String, SsoError>)
        ensures
            match reply {
                Ok(claims) => res == Ok::<String, SsoError>(claims),
                Err(error) => res matches Err(e) && e@ == (SsoErrorView {
                    kind: SsoErrorKind::UserInfo,
                    detail: error@,
                }),
            },
    {
        match reply {
            Ok(claims) => Ok(claims),
            Err(error) => Err(SsoError { kind: SsoErrorKind::UserInfo, detail: error }),
        }
    }

    /// Whether an access token is still good: it is if the provider says anything
    /// about the user.
    pub fn check_validity(user_info: Result<String, SsoError>) -> (res: Result<(), SsoError>)
        ensures
            match user_info {
                Ok(_) => res is Ok,
                Err(error) => res matches Err(e) && e@ == (SsoErrorView {
                    kind: SsoErrorKind::TokenInvalidated,
                    detail: error_text(error@),
                }),
            },
    {
        match user_info {
            Ok(_) => Ok(()),
            Err(error) => Err(
                SsoError { kind: SsoErrorKind::TokenInvalidated, detail: error.message() },
            ),
        }
    }

    /// What comes of a refresh: the new refresh token if there is one, the access
    /// token, and for how many seconds it is good.
    pub fn exchange_refresh_token(reply: Result<TokenReply, String>) -> (res: Result<
        (Option<String>, String, Option<u64>),
        SsoError,
    >)
        ensures
            match reply {
                Ok(tokens) => res == Ok::<(Option<String>, String, Option<u64>), SsoError>(
                    (tokens.refresh_token, tokens.access_token, tokens.expires_in),
                ),
                Err(error) => res matches Err(e) && e@ == (SsoErrorView {
                    kind: SsoErrorKind::RefreshToken,
                    detail: error@,
                }),
            },
    {
        match reply {
            Ok(tokens) => Ok((tokens.refresh_token, tokens.access_token, tokens.expires_in)),
            Err(error) => Err(SsoError { kind: SsoErrorKind::RefreshToken, detail: error }),
        }
    }
}

/// What the check of an id token says, as a value.
pub open spec fn claims_verdict(claims: Result<IdClaims, String>) -> Result<Seq<u8>, Seq<char>> {
    match claims {
        Ok(claims) => Ok(claims.json@),
        Err(error) => Err(error@),
    }
}

/// Two states that travel as the same text are the same state, and the text
/// holds only characters of the Base64 alphabet.
pub proof fn states_travel_intact(a: Seq<char>, b: Seq<char>)
    ensures
        forall|i: int|
            0 <= i < base64(encode_utf8(a)).len() ==> in_alphabet(
                #[trigger] base64(encode_utf8(a))[i],
            ),
        base64(encode_utf8(a)) == base64(encode_utf8(b)) ==> a == b,
{
    base64::base64_uses_only_its_alphabet(encode_utf8(a));
    if base64(encode_utf8(a)) == base64(encode_utf8(b)) {
        base64::base64_is_injective(encode_utf8(a), encode_utf8(b));
        encode_utf8_decode_utf8(a);
        encode_utf8_decode_utf8(b);
    }
}

/// After a login whose id token was refused, the next lookup finds no client, so
/// that the provider is discovered anew.
pub proof fn refused_id_tokens_cost_the_client(
    verifier: IdTokenVerifier,
    nonce: Seq<char>,
    reply: Result<TokenReply, String>,
    now: Moment,
    before: ClientCache,
    res: Result<(TokenReply, IdClaims), SsoError>,
    after: ClientCache,
    answer: Cached,
)
    requires
        exchange_goes(verifier, nonce, reply, now, before, res, after),
        res matches Err(error) && error.kind == SsoErrorKind::IdTokenClaims,
        may_answer(after, answer),
    ensures
        answer is Build,
{
}

/// Nothing else that goes wrong with a login touches the kept client.
pub proof fn other_failures_keep_the_client(
    verifier: IdTokenVerifier,
    nonce: Seq<char>,
    reply: Result<TokenReply, String>,
    now: Moment,
    before: ClientCache,
    res: Result<(TokenReply, IdClaims), SsoError>,
    after: ClientCache,
)
    requires
        exchange_goes(verifier, nonce, reply, now, before, res, after),
        !(res matches Err(error) && error.kind == SsoErrorKind::IdTokenClaims),
    ensures
        unchanged(before, after),
{
}

/// A login succeeds only with an id token of the issuer for the client that has
/// not expired. Where no pattern of trusted audiences is set, the token is for
/// nobody else.
pub proof fn logins_are_for_the_client(
    verifier: IdTokenVerifier,
    nonce: Seq<char>,
    reply: Result<TokenReply, String>,
    now: Moment,
    before: ClientCache,
    tokens: TokenReply,
    claims: IdClaims,
    after: ClientCache,
)
    requires
        exchange_goes(verifier, nonce, reply, now, before, Ok((tokens, claims)), after),
    ensures
        reply == Ok::<TokenReply, String>(tokens),
        tokens.id_token matches Some(token) && verifier.verdict(token@, nonce, now) == Ok::<
            Seq<u8>,
            Seq<char>,
        >(claims.json@),
        verifier.vouches_for(claims.json@, nonce, now),
        verifier.audience_trusted is None ==> (json_member_texts(claims.json@, "aud"@) matches Ok(
            Some(audiences),
        ) && forall|i: int|
            0 <= i < audiences.len() ==> #[trigger] audiences[i] == Some(verifier.client_id@)),
{
}

proof fn lemma_joined_scopes(scopes: Seq<String>)
    ensures
        joined(seq!["openid"@] + text_views(scopes)) == scopes.fold_left(
            "openid"@,
            |all: Seq<char>, scope: String| all + " "@ + scope@,
        ),
    decreases scopes.len(),
{
    let all = seq!["openid"@] + text_views(scopes);
    if scopes.len() == 0 {
        assert(all =~= seq!["openid"@]);
    } else {
        lemma_joined_scopes(scopes.drop_last());
        assert(all.drop_last() =~= seq!["openid"@] + text_views(scopes.drop_last()));
        assert(all.last() == scopes.last()@);
    }
}

/// A login of a client whose issuer, authorization and redirect addresses are URLs
/// starts at the authorization address. Its query asks for a code for the client
/// and carries, in this order: the state in Base64, the challenge if there is a
/// verifier, the redirect address, the scope `openid` with all scopes of the
/// settings behind it, each after a space, the extra parameters of the settings,
/// and the nonce. State, nonce, verifier and redirect address are remembered as
/// they are. Other clients cannot start a login.
pub proof fn logins_carry_what_the_settings_say(
    client: Client,
    settings: LoginSettings,
    state: String,
    redirect_uri: String,
    nonce: String,
    verifier: Option<String>,
    login: Result<(String, SsoNonce), SsoError>,
)
    requires
        login_starts(client, settings, state, redirect_uri, nonce, verifier, login),
    ensures
        login is Ok <==> url_split(client.issuer_url@) is Ok && url_split(client.auth_url@) is Ok
            && url_split(client.redirect_url@) is Ok,
        login matches Err(error) ==> error.kind == SsoErrorKind::ClientUrl && error.detail@.len()
            == 0,
        login matches Ok((address, remembered)) ==> {
            let scope = settings.scopes@.fold_left(
                "openid"@,
                |all: Seq<char>, scope: String| all + " "@ + scope@,
            );
            let challenge = match verifier {
                Some(secret) => seq![
                    ("code_challenge"@, base64_url(sha256(secret@))),
                    ("code_challenge_method"@, "S256"@),
                ],
                None => Seq::empty(),
            };
            let extra = Seq::new(
                settings.extra_params@.len(),
                |i: int| (settings.extra_params@[i].0@, settings.extra_params@[i].1@),
            );
            &&& address@ == url_with_query(
                client.auth_url@,
                seq![
                    ("response_type"@, "code"@),
                    ("client_id"@, client.client_id@),
                    ("state"@, base64(encode_utf8(state@))),
                ] + challenge + seq![
                    ("redirect_uri"@, client.redirect_url@),
                    ("scope"@, scope),
                ] + extra + seq![("nonce"@, nonce@)],
            )
            &&& remembered.state == state
            &&& remembered.nonce == nonce
            &&& remembered.verifier == verifier
            &&& remembered.redirect_uri == redirect_uri
        },
{
    if let Ok((address, _)) = login {
        let parts = login_parts(client, settings, state@, nonce@, opt_text(verifier));
        lemma_joined_scopes(settings.scopes@);
        let scope = settings.scopes@.fold_left(
            "openid"@,
            |all: Seq<char>, scope: String| all + " "@ + scope@,
        );
        lemma_scope_is_there(settings.scopes@);
        let challenge = match verifier {
            Some(secret) => seq![
                ("code_challenge"@, base64_url(sha256(secret@))),
                ("code_challenge_method"@, "S256"@),
            ],
            None => Seq::empty(),
        };
        let extra = Seq::new(
            settings.extra_params@.len(),
            |i: int| (settings.extra_params@[i].0@, settings.extra_params@[i].1@),
        );
        let pairs = seq![
            ("response_type"@, "code"@),
            ("client_id"@, client.client_id@),
            ("state"@, base64(encode_utf8(state@))),
        ] + challenge + seq![("redirect_uri"@, client.redirect_url@), ("scope"@, scope)] + extra
            + seq![("nonce"@, nonce@)];
        assert(parts.extra_params =~= extra);
        assert(login_pairs(parts) =~= pairs);
    }
}

proof fn lemma_scope_is_there(scopes: Seq<String>)
    ensures
        scopes.fold_left(
            "openid"@,
            |all: Seq<char>, scope: String| all + " "@ + scope@,
        ).len() > 0,
    decreases scopes.len(),
{
    reveal_strlit("openid");
    if scopes.len() > 0 {
        lemma_scope_is_there(scopes.drop_last());
    }
}

/// What comes of a login is decided by its tokens: a failed exchange and a missing
/// id token are their own errors and leave the kept client, an id token that is
/// refused costs it, and one that is accepted gives the tokens as they came and
/// the claims that were accepted.
pub proof fn logins_end_as_their_tokens_say(
    verifier: IdTokenVerifier,
    nonce: Seq<char>,
    reply: Result<TokenReply, String>,
    now: Moment,
    before: ClientCache,
    res: Result<(TokenReply, IdClaims), SsoError>,
    after: ClientCache,
)
    requires
        exchange_goes(verifier, nonce, reply, now, before, res, after),
    ensures
        after.expiration() == before.expiration(),
        ({
            let failed = |kind: SsoErrorKind, detail: Seq<char>|
                res matches Err(error) && error.kind == kind && error.detail@ == detail;
            let judged = verifier.verdict(reply->Ok_0.id_token->0@, nonce, now);
            let refused = reply is Ok && reply->Ok_0.id_token is Some && judged is Err;
            &&& reply matches Err(detail) ==> failed(SsoErrorKind::TokenEndpoint, detail@)
            &&& reply matches Ok(tokens) ==> tokens.id_token is None ==> failed(
                SsoErrorKind::NoIdToken,
                Seq::empty(),
            )
            &&& reply matches Ok(tokens) ==> tokens.id_token is Some && judged is Ok ==> (
            res matches Ok((kept, claims)) && kept == tokens && claims.json@ == judged->Ok_0)
            &&& refused ==> failed(SsoErrorKind::IdTokenClaims, judged->Err_0)
            &&& refused && before.expiration() > 0 ==> after.stored() is None
            &&& !refused ==> after.stored() == before.stored()
        }),
{
}

} // verus!
