//! The token with which an organization calls the directory endpoints.
//!
//! Checking a token alternates with work that is done elsewhere: decoding the
//! signed claims, reading the server's address, connecting to the database and
//! looking the organization's API key up. A [`TokenCheck`] says which piece of
//! work is due and decides on what came back.
use crate::clock;
use crate::clock::Reading;
use crate::text;
use vstd::prelude::*;

verus! {

/// Proof that a request speaks for an organization, whose id it holds.
#[derive(Debug)]
pub struct PublicToken(String);

impl PublicToken {
    /// The id of the organization.
    pub closed spec fn org(self) -> String {
        self.0
    }

    /// The id of the organization.
    pub fn org_id(&self) -> (id: String)
        ensures
            id == self.org(),
    {
        self.0.clone()
    }

    /// Starts to check a request by its `Authorization` header.
    pub fn from_request(authorization: Option<&str>) -> (check: TokenCheck)
        ensures
            check.wf(),
            check.judged() is None,
            match authorization {
                Some(header) => check@ matches TokenPhase::Decode { token } && token@
                    == bearer_token(header@),
                None => check@ == TokenPhase::Done(Err(Rejection::NoAccessToken)),
            },
    {
        match authorization {
            Some(header) => {
                let token = match text::after_last(header, "Bearer ") {
                    Some(token) => token.to_owned(),
                    None => header.to_owned(),
                };
                TokenCheck { phase: TokenPhase::Decode { token }, judged: None }
            },
            None => TokenCheck {
                phase: TokenPhase::Done(Err(Rejection::NoAccessToken)),
                judged: None,
            },
        }
    }
}

/// Why a request is refused.
#[derive(Clone, Copy, Debug, PartialEq, Eq, Structural)]
pub enum Rejection {
    NoAccessToken,
    InvalidClaim,
    IssuedInTheFuture,
    Expired,
    ForeignIssuer,
    NoDatabase,
    MalformedClientId,
    UnknownClientId,
    ForeignOrganization,
    ForeignClient,
}

impl Rejection {
    /// What the refused caller is told.
    pub open spec fn text(self) -> Seq<char> {
        match self {
            Rejection::NoAccessToken => "No access token provided"@,
            Rejection::InvalidClaim => "Invalid claim"@,
            Rejection::IssuedInTheFuture => "Token issued in the future"@,
            Rejection::Expired => "Token expired"@,
            Rejection::ForeignIssuer => "Token not issued by this server"@,
            Rejection::NoDatabase => "Error getting DB"@,
            Rejection::MalformedClientId => "Malformed client_id"@,
            Rejection::UnknownClientId => "Invalid client_id"@,
            Rejection::ForeignOrganization => "Token not issued for this org"@,
            Rejection::ForeignClient => "Token not issued for this client"@,
        }
    }

    /// What the refused caller is told.
    pub fn message(self) -> (text: &'static str)
        ensures
            text@ == self.text(),
    {
        match self {
            Rejection::NoAccessToken => "No access token provided",
            Rejection::InvalidClaim => "Invalid claim",
            Rejection::IssuedInTheFuture => "Token issued in the future",
            Rejection::Expired => "Token expired",
            Rejection::ForeignIssuer => "Token not issued by this server",
            Rejection::NoDatabase => "Error getting DB",
            Rejection::MalformedClientId => "Malformed client_id",
            Rejection::UnknownClientId => "Invalid client_id",
            Rejection::ForeignOrganization => "Token not issued for this org",
            Rejection::ForeignClient => "Token not issued for this client",
        }
    }
}

/// The claims of a token whose signature was found valid.
#[derive(Debug)]
pub struct OrgApiClaims {
    /// First second at which the token is valid.
    pub nbf: i64,
    /// Last second at which the token is valid.
    pub exp: i64,
    pub iss: String,
    pub sub: String,
    pub client_id: String,
    pub client_sub: String,
    pub scope: Vec<String>,
}

/// The API key of an organization.
#[derive(Debug)]
pub struct OrganizationApiKey {
    pub uuid: String,
    pub org_uuid: String,
}

/// How far a check has come: the work that is due.
#[derive(Debug)]
pub enum TokenPhase {
    Decode { token: String },
    AskOrigin { claims: OrgApiClaims },
    Connect { claims: OrgApiClaims },
    FindApiKey { claims: OrgApiClaims },
    Done(Result<PublicToken, Rejection>),
}

/// What became of the work that was due.
#[derive(Debug)]
pub enum TokenEvent {
    /// The claims, if the token is a valid one.
    Decoded(Option<OrgApiClaims>),
    /// The origin under which this server is known.
    Origin(String),
    /// Whether there is a database connection.
    Connected(bool),
    ApiKeyFound(Option<OrganizationApiKey>),
}

/// A piece of work for others.
#[derive(Debug)]
pub enum TokenAction {
    Decode { token: String },
    AskOrigin,
    Connect,
    /// Look the API key of the organization up.
    FindApiKey { org_id: String },
    Finish,
}

/// The token in an `Authorization` header: what follows the last `Bearer `, or
/// the whole header if there is none.
pub open spec fn bearer_token(header: Seq<char>) -> Seq<char> {
    match text::after_last_spec(header, "Bearer "@) {
        Some(token) => token,
        None => header,
    }
}

/// The organization that a client id stands for.
pub open spec fn client_organization(client_id: Seq<char>) -> Option<Seq<char>> {
    text::strip_prefix_spec(client_id, "organization."@)
}

/// The token names this server, with the scope it is for, as its issuer.
pub open spec fn issued_here(claims: OrgApiClaims, origin: Seq<char>) -> bool {
    claims.iss@ == origin + "|"@ + claims.scope@[0]@
}

/// Where a check stands after it was told `event` at the second `now`. An event
/// that does not report on the work that is due changes nothing.
pub open spec fn token_next(phase: TokenPhase, event: TokenEvent, now: i64) -> TokenPhase {
    match (phase, event) {
        (TokenPhase::Decode { .. }, TokenEvent::Decoded(None)) => TokenPhase::Done(
            Err(Rejection::InvalidClaim),
        ),
        (TokenPhase::Decode { .. }, TokenEvent::Decoded(Some(claims))) => if now < claims.nbf {
            TokenPhase::Done(Err(Rejection::IssuedInTheFuture))
        } else if now > claims.exp {
            TokenPhase::Done(Err(Rejection::Expired))
        } else {
            TokenPhase::AskOrigin { claims }
        },
        (TokenPhase::AskOrigin { claims }, TokenEvent::Origin(origin)) => if issued_here(
            claims,
            origin@,
        ) {
            TokenPhase::Connect { claims }
        } else {
            TokenPhase::Done(Err(Rejection::ForeignIssuer))
        },
        (TokenPhase::Connect { claims }, TokenEvent::Connected(connected)) => if !connected {
            TokenPhase::Done(Err(Rejection::NoDatabase))
        } else if client_organization(claims.client_id@) is None {
            TokenPhase::Done(Err(Rejection::MalformedClientId))
        } else {
            TokenPhase::FindApiKey { claims }
        },
        (TokenPhase::FindApiKey { .. }, TokenEvent::ApiKeyFound(None)) => TokenPhase::Done(
            Err(Rejection::UnknownClientId),
        ),
        (TokenPhase::FindApiKey { claims }, TokenEvent::ApiKeyFound(Some(key))) =>
            if key.org_uuid@ != claims.client_sub@ {
            TokenPhase::Done(Err(Rejection::ForeignOrganization))
        } else if key.uuid@ != claims.sub@ {
            TokenPhase::Done(Err(Rejection::ForeignClient))
        } else {
            TokenPhase::Done(Ok(granted(claims.client_sub)))
        },
        _ => phase,
    }
}

/// The proof that a request speaks for this organization.
pub closed spec fn granted(org_id: String) -> PublicToken {
    PublicToken(org_id)
}

/// `action` is the work that is due.
pub open spec fn token_asks(phase: TokenPhase, action: TokenAction) -> bool {
    match phase {
        TokenPhase::Decode { token } => action == (TokenAction::Decode { token }),
        TokenPhase::AskOrigin { .. } => action == TokenAction::AskOrigin,
        TokenPhase::Connect { .. } => action == TokenAction::Connect,
        TokenPhase::FindApiKey { claims } => {
            &&& action matches TokenAction::FindApiKey { org_id }
            &&& client_organization(claims.client_id@) == Some(org_id@)
        },
        TokenPhase::Done(_) => action == TokenAction::Finish,
    }
}

/// The check of a request on its way.
#[derive(Debug)]
pub struct TokenCheck {
    phase: TokenPhase,
    /// The reading of the clock by which the token's time was judged.
    judged: Option<Reading>,
}

impl View for TokenCheck {
    type V = TokenPhase;

    closed spec fn view(&self) -> TokenPhase {
        self.phase
    }
}

impl TokenCheck {
    /// A key is looked up only for a client id that names an organization.
    pub open spec fn wf(self) -> bool {
        self@ matches TokenPhase::FindApiKey { claims } ==> client_organization(
            claims.client_id@,
        ) is Some
    }

    /// The reading of the clock by which the token's time was judged.
    pub closed spec fn judged(self) -> Option<Reading> {
        self.judged
    }

    /// How far the check has come.
    pub fn phase(&self) -> (phase: &TokenPhase)
        ensures
            *phase == self@,
    {
        &self.phase
    }

    /// How far the check has come.
    pub fn into_phase(self) -> (phase: TokenPhase)
        ensures
            phase == self@,
    {
        self.phase
    }

    /// The work that is due.
    pub fn pending(&self) -> (action: TokenAction)
        requires
            self.wf(),
        ensures
            token_asks(self@, action),
    {
        match &self.phase {
            TokenPhase::Decode { token } => TokenAction::Decode { token: token.clone() },
            TokenPhase::AskOrigin { .. } => TokenAction::AskOrigin,
            TokenPhase::Connect { .. } => TokenAction::Connect,
            TokenPhase::FindApiKey { claims } => {
                let org_id = match text::strip_prefix(claims.client_id.as_str(), "organization.") {
                    Some(rest) => rest.to_owned(),
                    None => String::new(),
                };
                TokenAction::FindApiKey { org_id }
            },
            TokenPhase::Done(_) => TokenAction::Finish,
        }
    }

    /// Moves on, now that `event` reports on the work that was due. The token's
    /// validity in time is judged by the clock, which is read when the claims come
    /// in.
    ///
    /// The scope of the claims is not empty when the origin is handed in.
    pub fn advance(self, event: TokenEvent) -> (check: TokenCheck)
        requires
            self.wf(),
            event is Origin ==> (self@ matches TokenPhase::AskOrigin { claims }
                ==> claims.scope@.len() > 0),
        ensures
            check.wf(),
            exists|now: i64|
                0 <= now <= clock::LAST_SECOND && check@ == #[trigger] token_next(
                    self@,
                    event,
                    now,
                ),
            self@ is Decode && event is Decoded ==> (check.judged() matches Some(reading)
                && reading.at().wf() && check@ == token_next(
                self@,
                event,
                reading.at().seconds,
            )),
            self@ is Decode ==> (event matches TokenEvent::Decoded(Some(claims)) ==> (
            check@ is AskOrigin <==> claims.nbf <= check.judged()->0.at().seconds <= claims.exp)),
            !(self@ is Decode && event is Decoded) ==> check.judged() == self.judged(),
    {
        match (&self.phase, &event) {
            (TokenPhase::Decode { .. }, TokenEvent::Decoded(_)) => {
                let reading = clock::utc_now();
                let now = reading.moment();
                let check = self.advance_at(event, now.seconds);
                TokenCheck { phase: check.phase, judged: Some(reading) }
            },
            _ => {
                let ghost before = self@;
                let ghost told = event;
                let check = self.advance_at(event, 0);
                assert(check@ == token_next(before, told, 0));
                check
            },
        }
    }

    /// Moves on as [`TokenCheck::advance`] does, at the second `now`.
    pub fn advance_at(self, event: TokenEvent, now: i64) -> (check: TokenCheck)
        requires
            self.wf(),
            event is Origin ==> (self@ matches TokenPhase::AskOrigin { claims }
                ==> claims.scope@.len() > 0),
        ensures
            check.wf(),
            check@ == token_next(self@, event, now),
            check.judged() == self.judged(),
    {
        let judged = self.judged;
        let phase = match (self.phase, event) {
            (TokenPhase::Decode { .. }, TokenEvent::Decoded(None)) => TokenPhase::Done(
                Err(Rejection::InvalidClaim),
            ),
            (TokenPhase::Decode { .. }, TokenEvent::Decoded(Some(claims))) => {
                if now < claims.nbf {
                    TokenPhase::Done(Err(Rejection::IssuedInTheFuture))
                } else if now > claims.exp {
                    TokenPhase::Done(Err(Rejection::Expired))
                } else {
                    TokenPhase::AskOrigin { claims }
                }
            },
            (TokenPhase::AskOrigin { claims }, TokenEvent::Origin(origin)) => {
                let complete_host = origin.clone().concat("|").concat(claims.scope[0].as_str());
                if complete_host == claims.iss {
                    TokenPhase::Connect { claims }
                } else {
                    TokenPhase::Done(Err(Rejection::ForeignIssuer))
                }
            },
            (TokenPhase::Connect { claims }, TokenEvent::Connected(connected)) => {
                if !connected {
                    TokenPhase::Done(Err(Rejection::NoDatabase))
                } else if text::strip_prefix(
                    claims.client_id.as_str(),
                    "organization.",
                ).is_none() {
                    TokenPhase::Done(Err(Rejection::MalformedClientId))
                } else {
                    TokenPhase::FindApiKey { claims }
                }
            },
            (TokenPhase::FindApiKey { .. }, TokenEvent::ApiKeyFound(None)) => TokenPhase::Done(
                Err(Rejection::UnknownClientId),
            ),
            (TokenPhase::FindApiKey { claims }, TokenEvent::ApiKeyFound(Some(key))) => {
                if key.org_uuid != claims.client_sub {
                    TokenPhase::Done(Err(Rejection::ForeignOrganization))
                } else if key.uuid != claims.sub {
                    TokenPhase::Done(Err(Rejection::ForeignClient))
                } else {
                    TokenPhase::Done(Ok(PublicToken(claims.client_sub)))
                }
            },
            (phase, _) => phase,
        };
        TokenCheck { phase, judged }
    }
}

/// What a request is answered, from everything that the check learns: the first
/// of the checks that fails decides, and if none does, the request speaks for
/// the organization of its claims.
pub open spec fn verdict(
    authorization: Option<Seq<char>>,
    claims: Option<OrgApiClaims>,
    now: i64,
    origin: Seq<char>,
    connected: bool,
    key: Option<OrganizationApiKey>,
) -> Result<PublicToken, Rejection> {
    if authorization is None {
        Err(Rejection::NoAccessToken)
    } else if claims is None {
        Err(Rejection::InvalidClaim)
    } else if now < claims->0.nbf {
        Err(Rejection::IssuedInTheFuture)
    } else if now > claims->0.exp {
        Err(Rejection::Expired)
    } else if !issued_here(claims->0, origin) {
        Err(Rejection::ForeignIssuer)
    } else if !connected {
        Err(Rejection::NoDatabase)
    } else if client_organization(claims->0.client_id@) is None {
        Err(Rejection::MalformedClientId)
    } else if key is None {
        Err(Rejection::UnknownClientId)
    } else if key->0.org_uuid@ != claims->0.client_sub@ {
        Err(Rejection::ForeignOrganization)
    } else if key->0.uuid@ != claims->0.sub@ {
        Err(Rejection::ForeignClient)
    } else {
        Ok(granted(claims->0.client_sub))
    }
}

/// A header `{head}Bearer {token}` carries the token, whatever stands in front,
/// if the token does not hold `Bearer ` itself.
pub proof fn bearer_headers_carry_their_token(head: Seq<char>, token: Seq<char>)
    requires
        forall|j: int| !text::occurs_at(token, "Bearer "@, j),
    ensures
        bearer_token(head + "Bearer "@ + token) == token,
{
    reveal_strlit("Bearer ");
    let pattern = "Bearer "@;
    let header = head + pattern + token;
    let at = head.len() as int;
    assert(header.subrange(at, at + 7) =~= pattern);
    assert forall|j: int| at < j implies !text::occurs_at(header, pattern, j) by {
        if text::occurs_at(header, pattern, j) {
            assert(header.subrange(j, j + 7)[0] == 'B');
            assert(header[j] == 'B');
            if j < at + 7 {
                assert(header[j] == pattern[j - at]);
                assert(pattern =~= seq!['B', 'e', 'a', 'r', 'e', 'r', ' ']);
                assert(false);
            } else {
                assert(token.subrange(j - at - 7, j - at) =~= header.subrange(j, j + 7));
                assert(text::occurs_at(token, pattern, j - at - 7));
            }
        }
    }
    text::lemma_after_last(header, pattern, at);
    assert(header.subrange(at + 7, header.len() as int) =~= token);
}

/// Whatever the outside world reports, a check that is told everything in turn
/// ends with the verdict.
pub proof fn every_check_ends_with_the_verdict(
    authorization: Option<Seq<char>>,
    start: TokenPhase,
    claims: Option<OrgApiClaims>,
    now: i64,
    origin: String,
    connected: bool,
    key: Option<OrganizationApiKey>,
)
    requires
        match authorization {
            Some(_) => start is Decode,
            None => start == TokenPhase::Done(Err(Rejection::NoAccessToken)),
        },
    ensures
        ({
            let decoded = token_next(start, TokenEvent::Decoded(claims), now);
            let placed = token_next(decoded, TokenEvent::Origin(origin), now);
            let linked = token_next(placed, TokenEvent::Connected(connected), now);
            let ended = token_next(linked, TokenEvent::ApiKeyFound(key), now);
            ended == TokenPhase::Done(
                verdict(authorization, claims, now, origin@, connected, key),
            )
        }),
{
}

/// A granted token speaks for the organization that the signed claims name, and
/// that organization's API key is the one that the claims name.
pub proof fn granted_tokens_match_the_api_key(
    authorization: Option<Seq<char>>,
    claims: Option<OrgApiClaims>,
    now: i64,
    origin: Seq<char>,
    connected: bool,
    key: Option<OrganizationApiKey>,
)
    requires
        verdict(authorization, claims, now, origin, connected, key) is Ok,
    ensures
        claims is Some && key is Some,
        claims->0.nbf <= now <= claims->0.exp,
        verdict(authorization, claims, now, origin, connected, key)->Ok_0.org()
            == claims->0.client_sub,
        key->0.org_uuid@ == claims->0.client_sub@,
        key->0.uuid@ == claims->0.sub@,
{
}

/// A check that has ended stays as it is.
pub proof fn an_ended_check_stays(phase: TokenPhase, event: TokenEvent, now: i64)
    requires
        phase is Done,
    ensures
        token_next(phase, event, now) == phase,
{
}

/// The token of a header without `Bearer ` is the whole header; else it is what
/// stands behind the last one.
pub proof fn headers_tell_their_token(before: Seq<char>, token: Seq<char>, header: Seq<char>)
    ensures
        (forall|j: int|
            0 <= j <= header.len() - 7 ==> #[trigger] header.subrange(j, j + 7) != "Bearer "@)
            ==> bearer_token(header) == header,
        (forall|j: int|
            before.len() < j <= before.len() + token.len() ==> #[trigger] (before + "Bearer "@
                + token).subrange(j, j + 7) != "Bearer "@) ==> bearer_token(
            before + "Bearer "@ + token,
        ) == token,
{
    reveal_strlit("Bearer ");
    text::the_last_occurrence_decides(before, "Bearer "@, token, header);
}

/// The key that is looked up is that of the organization which the client id names
/// behind `organization.`, and the token that is decoded is the one that came in.
pub proof fn keys_are_looked_up_for_the_named_organization(
    claims: OrgApiClaims,
    token: String,
    action: TokenAction,
)
    ensures
        token_asks(TokenPhase::FindApiKey { claims }, action) ==> (action matches
            TokenAction::FindApiKey { org_id } && claims.client_id@ == "organization."@ + org_id@),
        token_asks(TokenPhase::Decode { token }, action) ==> action == (TokenAction::Decode {
            token,
        }),
        token_asks(TokenPhase::AskOrigin { claims }, action) ==> action is AskOrigin,
        token_asks(TokenPhase::Connect { claims }, action) ==> action is Connect,
{
    text::prefixes_and_rests_make_the_text("organization."@, Seq::empty(), claims.client_id@);
}

/// A request is granted if and only if its claims could be decoded and are in
/// their time, name this server and their first scope as the issuer, there is a
/// database, the client id begins with `organization.`, and the API key found for
/// it has the claims' organization and subject. The grant is for that
/// organization.
pub proof fn requests_are_granted_where_everything_fits(
    token: String,
    claims: Option<OrgApiClaims>,
    now: i64,
    origin: String,
    connected: bool,
    key: Option<OrganizationApiKey>,
)
    ensures
        ({
            let start = TokenPhase::Decode { token };
            let decoded = token_next(start, TokenEvent::Decoded(claims), now);
            let placed = token_next(decoded, TokenEvent::Origin(origin), now);
            let linked = token_next(placed, TokenEvent::Connected(connected), now);
            let ended = token_next(linked, TokenEvent::ApiKeyFound(key), now);
            let fits = {
                &&& claims is Some
                &&& claims->0.nbf <= now
                &&& now <= claims->0.exp
                &&& claims->0.iss@ == origin@ + "|"@ + claims->0.scope@[0]@
                &&& connected
                &&& exists|org: Seq<char>| claims->0.client_id@ == #[trigger] ("organization."@ + org)
                &&& key is Some
                &&& key->0.org_uuid@ == claims->0.client_sub@
                &&& key->0.uuid@ == claims->0.sub@
            };
            &&& ended matches TokenPhase::Done(res)
            &&& res is Ok <==> fits
            &&& res matches Ok(public) ==> public.org() == claims->0.client_sub
        }),
{
    if claims is Some {
        let id = claims->0.client_id@;
        text::prefixes_and_rests_make_the_text("organization."@, Seq::empty(), id);
    }
}

/// A request that is not granted is told the first thing that is wrong with it.
pub proof fn refusals_name_the_first_fault(
    token: String,
    claims: Option<OrgApiClaims>,
    now: i64,
    origin: String,
    connected: bool,
    key: Option<OrganizationApiKey>,
    org: Seq<char>,
)
    ensures
        ({
            let start = TokenPhase::Decode { token };
            let decoded = token_next(start, TokenEvent::Decoded(claims), now);
            let placed = token_next(decoded, TokenEvent::Origin(origin), now);
            let linked = token_next(placed, TokenEvent::Connected(connected), now);
            let ended = token_next(linked, TokenEvent::ApiKeyFound(key), now);
            let refused = |why: Rejection| ended == TokenPhase::Done(Err(why));
            let in_time = claims is Some && claims->0.nbf <= now <= claims->0.exp;
            let here = in_time && claims->0.iss@ == origin@ + "|"@ + claims->0.scope@[0]@;
            let named = here && connected && claims->0.client_id@ == "organization."@ + org;
            &&& claims is None ==> refused(Rejection::InvalidClaim)
            &&& claims is Some && now < claims->0.nbf ==> refused(Rejection::IssuedInTheFuture)
            &&& claims is Some && claims->0.nbf <= now && claims->0.exp < now ==> refused(
                Rejection::Expired,
            )
            &&& in_time && !here ==> refused(Rejection::ForeignIssuer)
            &&& here && !connected ==> refused(Rejection::NoDatabase)
            &&& here && connected && (forall|o: Seq<char>|
                claims->0.client_id@ != #[trigger] ("organization."@ + o)) ==> refused(
                Rejection::MalformedClientId,
            )
            &&& named && key is None ==> refused(Rejection::UnknownClientId)
            &&& named && key is Some && key->0.org_uuid@ != claims->0.client_sub@ ==> refused(
                Rejection::ForeignOrganization,
            )
            &&& named && key is Some && key->0.org_uuid@ == claims->0.client_sub@ && key->0.uuid@
                != claims->0.sub@ ==> refused(Rejection::ForeignClient)
        }),
{
    if claims is Some {
        let id = claims->0.client_id@;
        text::prefixes_and_rests_make_the_text("organization."@, org, id);
        if client_organization(id) is Some {
            assert(id == "organization."@ + client_organization(id)->0);
        }
    }
}

/// A report on work that is not due leaves the check where it is.
pub proof fn stray_reports_leave_the_check(phase: TokenPhase, event: TokenEvent, now: i64)
    requires
        !(phase is Decode && event is Decoded),
        !(phase is AskOrigin && event is Origin),
        !(phase is Connect && event is Connected),
        !(phase is FindApiKey && event is ApiKeyFound),
    ensures
        token_next(phase, event, now) == phase,
{
}

/// Time matters only where the claims come in.
pub proof fn only_claims_are_judged_by_the_clock(
    phase: TokenPhase,
    event: TokenEvent,
    now: i64,
    later: i64,
)
    requires
        !(phase is Decode && event is Decoded),
    ensures
        token_next(phase, event, now) == token_next(phase, event, later),
{
}

/// What a refused caller is told.
pub proof fn refusals_say_why()
    ensures
        Rejection::NoAccessToken.text() == "No access token provided"@,
        Rejection::InvalidClaim.text() == "Invalid claim"@,
        Rejection::IssuedInTheFuture.text() == "Token issued in the future"@,
        Rejection::Expired.text() == "Token expired"@,
        Rejection::ForeignIssuer.text() == "Token not issued by this server"@,
        Rejection::NoDatabase.text() == "Error getting DB"@,
        Rejection::MalformedClientId.text() == "Malformed client_id"@,
        Rejection::UnknownClientId.text() == "Invalid client_id"@,
        Rejection::ForeignOrganization.text() == "Token not issued for this org"@,
        Rejection::ForeignClient.text() == "Token not issued for this client"@,
{
}

} // verus!
