//! What can go wrong between this server and the identity provider.
use vstd::prelude::*;

verus! {

/// What went wrong.
#[derive(Clone, Copy, Debug, PartialEq, Eq, Structural)]
pub enum SsoErrorKind {
    /// A setting is missing or unusable; the detail is the whole message.
    Settings,
    HttpClient,
    Discovery,
    NoTokenUrl,
    NoUserInfoUrl,
    /// An address of the client is not a URL.
    ClientUrl,
    MissingVerifier,
    TokenEndpoint,
    NoIdToken,
    IdTokenClaims,
    UserInfo,
    TokenInvalidated,
    RefreshToken,
    IssuerUrl,
    EmptyRealm,
    NoRealm,
    /// A request failed before it was answered; the detail is the whole message.
    Transport,
    /// A reply is not the JSON it should be; the detail is the whole message.
    Reply,
    AdminToken,
    NoAccessToken,
    AdminBaseUrl,
    AdminBaseUrlIsNoBase,
    FindUser,
    UserNotFound,
    NoUserId,
    CreateUser,
}

/// An error as a value.
pub struct SsoErrorView {
    pub kind: SsoErrorKind,
    pub detail: Seq<char>,
}

/// What went wrong, with the particulars of the case.
#[derive(Debug)]
pub struct SsoError {
    pub kind: SsoErrorKind,
    pub detail: String,
}

impl View for SsoError {
    type V = SsoErrorView;

    open spec fn view(&self) -> SsoErrorView {
        SsoErrorView { kind: self.kind, detail: self.detail@ }
    }
}

/// An error of a kind that needs no particulars.
pub open spec fn plain_error(kind: SsoErrorKind) -> SsoErrorView {
    SsoErrorView { kind, detail: Seq::empty() }
}

/// The text in front of the particulars.
pub open spec fn lead(kind: SsoErrorKind) -> Seq<char> {
    match kind {
        SsoErrorKind::Settings => ""@,
        SsoErrorKind::HttpClient => "Failed to build http client: "@,
        SsoErrorKind::Discovery => "Failed to discover OpenID provider: "@,
        SsoErrorKind::NoTokenUrl => "Failed to discover token_url, cannot proceed"@,
        SsoErrorKind::NoUserInfoUrl => "Failed to discover user_info url, cannot proceed"@,
        SsoErrorKind::ClientUrl => "Failed to parse client URL: "@,
        SsoErrorKind::MissingVerifier => "Missing verifier in the DB nonce table"@,
        SsoErrorKind::TokenEndpoint => "Failed to contact token endpoint: "@,
        SsoErrorKind::NoIdToken => "Token response did not contain an id_token"@,
        SsoErrorKind::IdTokenClaims => "Could not read id_token claims, "@,
        SsoErrorKind::UserInfo => "Request to user_info endpoint failed: "@,
        SsoErrorKind::TokenInvalidated =>
            "Failed to retrieve user info, token has probably been invalidated: "@,
        SsoErrorKind::RefreshToken => "Request to exchange_refresh_token endpoint failed: "@,
        SsoErrorKind::IssuerUrl => "Failed to parse issuer URL: "@,
        SsoErrorKind::EmptyRealm => "Realm name is empty in issuer URL"@,
        SsoErrorKind::NoRealm => "Failed to extract realm from issuer URL: "@,
        SsoErrorKind::Transport => ""@,
        SsoErrorKind::Reply => ""@,
        SsoErrorKind::AdminToken => "Failed to get admin token: "@,
        SsoErrorKind::NoAccessToken => "No access_token in response"@,
        SsoErrorKind::AdminBaseUrl => "Failed to parse admin base URL: "@,
        SsoErrorKind::AdminBaseUrlIsNoBase => "Invalid admin base URL"@,
        SsoErrorKind::FindUser => "Failed to find user by email: "@,
        SsoErrorKind::UserNotFound => "User with email "@,
        SsoErrorKind::NoUserId => "No user ID in response"@,
        SsoErrorKind::CreateUser => "Failed to create user: "@,
    }
}

/// The text behind the particulars.
pub open spec fn trail(kind: SsoErrorKind) -> Seq<char> {
    match kind {
        SsoErrorKind::UserNotFound => " not found in Keycloak"@,
        _ => ""@,
    }
}

/// The error in a sentence.
pub open spec fn error_text(error: SsoErrorView) -> Seq<char> {
    lead(error.kind) + error.detail + trail(error.kind)
}

impl SsoError {
    /// An error of a kind that needs no particulars.
    pub fn plain(kind: SsoErrorKind) -> (error: SsoError)
        ensures
            error@ == plain_error(kind),
    {
        SsoError { kind, detail: String::new() }
    }

    /// The error in a sentence.
    pub fn message(&self) -> (text: String)
        ensures
            text@ == error_text(self@),
    {
        let before = match self.kind {
            SsoErrorKind::Settings => "",
            SsoErrorKind::HttpClient => "Failed to build http client: ",
            SsoErrorKind::Discovery => "Failed to discover OpenID provider: ",
            SsoErrorKind::NoTokenUrl => "Failed to discover token_url, cannot proceed",
            SsoErrorKind::NoUserInfoUrl => "Failed to discover user_info url, cannot proceed",
            SsoErrorKind::ClientUrl => "Failed to parse client URL: ",
            SsoErrorKind::MissingVerifier => "Missing verifier in the DB nonce table",
            SsoErrorKind::TokenEndpoint => "Failed to contact token endpoint: ",
            SsoErrorKind::NoIdToken => "Token response did not contain an id_token",
            SsoErrorKind::IdTokenClaims => "Could not read id_token claims, ",
            SsoErrorKind::UserInfo => "Request to user_info endpoint failed: ",
            SsoErrorKind::TokenInvalidated =>
                "Failed to retrieve user info, token has probably been invalidated: ",
            SsoErrorKind::RefreshToken => "Request to exchange_refresh_token endpoint failed: ",
            SsoErrorKind::IssuerUrl => "Failed to parse issuer URL: ",
            SsoErrorKind::EmptyRealm => "Realm name is empty in issuer URL",
            SsoErrorKind::NoRealm => "Failed to extract realm from issuer URL: ",
            SsoErrorKind::Transport => "",
            SsoErrorKind::Reply => "",
            SsoErrorKind::AdminToken => "Failed to get admin token: ",
            SsoErrorKind::NoAccessToken => "No access_token in response",
            SsoErrorKind::AdminBaseUrl => "Failed to parse admin base URL: ",
            SsoErrorKind::AdminBaseUrlIsNoBase => "Invalid admin base URL",
            SsoErrorKind::FindUser => "Failed to find user by email: ",
            SsoErrorKind::UserNotFound => "User with email ",
            SsoErrorKind::NoUserId => "No user ID in response",
            SsoErrorKind::CreateUser => "Failed to create user: ",
        };
        let behind = match self.kind {
            SsoErrorKind::UserNotFound => " not found in Keycloak",
            _ => "",
        };
        before.to_owned().concat(self.detail.as_str()).concat(behind)
    }
}

impl Clone for SsoError {
    fn clone(&self) -> (res: Self)
        ensures
            res == *self,
    {
        SsoError { kind: self.kind, detail: self.detail.clone() }
    }
}

/// What is said of an error: most kinds name what failed and then the particulars,
/// some are the particulars alone, and some need none.
pub proof fn errors_say_what_went_wrong(detail: Seq<char>)
    ensures
        ({
            let said = |kind: SsoErrorKind| error_text(SsoErrorView { kind, detail });
            &&& said(SsoErrorKind::Settings) == detail
            &&& said(SsoErrorKind::Transport) == detail
            &&& said(SsoErrorKind::Reply) == detail
            &&& said(SsoErrorKind::HttpClient) == "Failed to build http client: "@ + detail
            &&& said(SsoErrorKind::Discovery) == "Failed to discover OpenID provider: "@ + detail
            &&& said(SsoErrorKind::ClientUrl) == "Failed to parse client URL: "@ + detail
            &&& said(SsoErrorKind::TokenEndpoint) == "Failed to contact token endpoint: "@ + detail
            &&& said(SsoErrorKind::IdTokenClaims) == "Could not read id_token claims, "@ + detail
            &&& said(SsoErrorKind::UserInfo) == "Request to user_info endpoint failed: "@ + detail
            &&& said(SsoErrorKind::TokenInvalidated)
                == "Failed to retrieve user info, token has probably been invalidated: "@ + detail
            &&& said(SsoErrorKind::RefreshToken)
                == "Request to exchange_refresh_token endpoint failed: "@ + detail
            &&& said(SsoErrorKind::IssuerUrl) == "Failed to parse issuer URL: "@ + detail
            &&& said(SsoErrorKind::NoRealm) == "Failed to extract realm from issuer URL: "@ + detail
            &&& said(SsoErrorKind::AdminToken) == "Failed to get admin token: "@ + detail
            &&& said(SsoErrorKind::AdminBaseUrl) == "Failed to parse admin base URL: "@ + detail
            &&& said(SsoErrorKind::FindUser) == "Failed to find user by email: "@ + detail
            &&& said(SsoErrorKind::CreateUser) == "Failed to create user: "@ + detail
            &&& said(SsoErrorKind::UserNotFound) == "User with email "@ + detail
                + " not found in Keycloak"@
        }),
        ({
            let said = |kind: SsoErrorKind| error_text(plain_error(kind));
            &&& said(SsoErrorKind::NoTokenUrl) == "Failed to discover token_url, cannot proceed"@
            &&& said(SsoErrorKind::NoUserInfoUrl)
                == "Failed to discover user_info url, cannot proceed"@
            &&& said(SsoErrorKind::MissingVerifier) == "Missing verifier in the DB nonce table"@
            &&& said(SsoErrorKind::NoIdToken) == "Token response did not contain an id_token"@
            &&& said(SsoErrorKind::EmptyRealm) == "Realm name is empty in issuer URL"@
            &&& said(SsoErrorKind::NoAccessToken) == "No access_token in response"@
            &&& said(SsoErrorKind::AdminBaseUrlIsNoBase) == "Invalid admin base URL"@
            &&& said(SsoErrorKind::NoUserId) == "No user ID in response"@
        }),
{
    reveal_strlit("");
    assert(""@ =~= Seq::empty());
    assert(forall|a: Seq<char>| #[trigger] (a + Seq::<char>::empty()) =~= a);
    assert(forall|a: Seq<char>| #[trigger] (Seq::<char>::empty() + a) =~= a);
}

} // verus!
