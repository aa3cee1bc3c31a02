//! The client that this server is at the identity provider.
use crate::sso_error::{plain_error, SsoError, SsoErrorKind, SsoErrorView};
use vstd::prelude::*;

verus! {

/// What there is to know to act as a client of the identity provider.
#[derive(Debug)]
pub struct Client {
    pub client_id: String,
    pub client_secret: String,
    pub issuer_url: String,
    pub auth_url: String,
    pub token_url: String,
    pub user_info_url: String,
    pub redirect_url: String,
    /// What the provider signs id tokens with: the JSON pair of its key set and
    /// the list of its algorithms.
    pub signing: String,
}

impl Clone for Client {
    fn clone(&self) -> (res: Self)
        ensures
            res == *self,
    {
        Client {
            client_id: self.client_id.clone(),
            client_secret: self.client_secret.clone(),
            issuer_url: self.issuer_url.clone(),
            auth_url: self.auth_url.clone(),
            token_url: self.token_url.clone(),
            user_info_url: self.user_info_url.clone(),
            redirect_url: self.redirect_url.clone(),
            signing: self.signing.clone(),
        }
    }
}

/// What the provider's discovery document says.
#[derive(Debug)]
pub struct ProviderMetadata {
    pub issuer_url: String,
    pub auth_url: String,
    pub token_url: Option<String>,
    pub user_info_url: Option<String>,
    pub signing: String,
}

/// What the provider told about itself, with both addresses that are needed.
#[derive(Debug)]
pub struct Endpoints {
    pub issuer_url: String,
    pub auth_url: String,
    pub token_url: String,
    pub user_info_url: String,
    pub signing: String,
}

/// How far the making of a client has come: the work that is due.
#[derive(Debug)]
pub enum BuildPhase {
    AskIssuer,
    BuildHttp { issuer_url: String },
    Discover { issuer_url: String },
    AskRedirect { endpoints: Endpoints },
    Done(Result<Client, SsoError>),
}

/// What became of the work that was due.
#[derive(Debug)]
pub enum BuildEvent {
    /// The issuer URL of the settings, or what is wrong with it.
    Issuer(Result<String, SsoError>),
    /// Whether there is an HTTP client that follows no redirects.
    HttpBuilt(Result<(), String>),
    Discovered(Result<ProviderMetadata, String>),
    /// The redirect URL of the settings, or what is wrong with it.
    Redirect(Result<String, SsoError>),
}

/// A piece of work for others.
#[derive(Debug)]
pub enum BuildAction {
    AskIssuer,
    BuildHttp,
    /// Fetch the provider's discovery document.
    Discover { issuer_url: String },
    AskRedirect,
    Finish,
}

/// A client as its settings and the provider's endpoints make it.
pub open spec fn assembled(
    client_id: String,
    client_secret: String,
    endpoints: Endpoints,
    redirect_url: String,
) -> Client {
    Client {
        client_id,
        client_secret,
        issuer_url: endpoints.issuer_url,
        auth_url: endpoints.auth_url,
        token_url: endpoints.token_url,
        user_info_url: endpoints.user_info_url,
        redirect_url,
        signing: endpoints.signing,
    }
}

/// The phase is that of a client that could not be made, for this reason.
pub open spec fn build_failed(phase: BuildPhase, error: SsoErrorView) -> bool {
    phase matches BuildPhase::Done(Err(e)) && e@ == error
}

/// `after` is where the making of a client stands after `before` was told
/// `event`. An event that does not report on the work that is due changes
/// nothing.
pub open spec fn build_goes(
    client_id: String,
    client_secret: String,
    before: BuildPhase,
    event: BuildEvent,
    after: BuildPhase,
) -> bool {
    match (before, event) {
        (BuildPhase::AskIssuer, BuildEvent::Issuer(Ok(issuer_url))) => after == (
        BuildPhase::BuildHttp { issuer_url }),
        (BuildPhase::AskIssuer, BuildEvent::Issuer(Err(error))) => after == BuildPhase::Done(
            Err(error),
        ),
        (BuildPhase::BuildHttp { issuer_url }, BuildEvent::HttpBuilt(Ok(()))) => after == (
        BuildPhase::Discover { issuer_url }),
        (BuildPhase::BuildHttp { .. }, BuildEvent::HttpBuilt(Err(error))) => build_failed(
            after,
            SsoErrorView { kind: SsoErrorKind::HttpClient, detail: error@ },
        ),
        (BuildPhase::Discover { .. }, BuildEvent::Discovered(Ok(metadata))) => match (
            metadata.token_url,
            metadata.user_info_url,
        ) {
            (None, _) => build_failed(after, plain_error(SsoErrorKind::NoTokenUrl)),
            (Some(_), None) => build_failed(after, plain_error(SsoErrorKind::NoUserInfoUrl)),
            (Some(token_url), Some(user_info_url)) => after == (BuildPhase::AskRedirect {
                endpoints: Endpoints {
                    issuer_url: metadata.issuer_url,
                    auth_url: metadata.auth_url,
                    token_url,
                    user_info_url,
                    signing: metadata.signing,
                },
            }),
        },
        (BuildPhase::Discover { .. }, BuildEvent::Discovered(Err(error))) => build_failed(
            after,
            SsoErrorView { kind: SsoErrorKind::Discovery, detail: error@ },
        ),
        (BuildPhase::AskRedirect { endpoints }, BuildEvent::Redirect(Ok(redirect_url))) => after
            == BuildPhase::Done(Ok(assembled(client_id, client_secret, endpoints, redirect_url))),
        (BuildPhase::AskRedirect { .. }, BuildEvent::Redirect(Err(error))) => after
            == BuildPhase::Done(Err(error)),
        _ => after == before,
    }
}

/// A client in the making, as a value.
pub struct BuildState {
    pub client_id: String,
    pub client_secret: String,
    pub phase: BuildPhase,
}

/// A client in the making.
#[derive(Debug)]
pub struct ClientBuild {
    client_id: String,
    client_secret: String,
    phase: BuildPhase,
}

impl View for ClientBuild {
    type V = BuildState;

    closed spec fn view(&self) -> BuildState {
        BuildState {
            client_id: self.client_id,
            client_secret: self.client_secret,
            phase: self.phase,
        }
    }
}

impl ClientBuild {
    /// How far the making has come.
    pub fn into_phase(self) -> (phase: BuildPhase)
        ensures
            phase == self@.phase,
    {
        self.phase
    }

    /// The work that is due.
    pub fn pending(&self) -> (action: BuildAction)
        ensures
            match self@.phase {
                BuildPhase::AskIssuer => action == BuildAction::AskIssuer,
                BuildPhase::BuildHttp { .. } => action == BuildAction::BuildHttp,
                BuildPhase::Discover { issuer_url } => action == (BuildAction::Discover {
                    issuer_url,
                }),
                BuildPhase::AskRedirect { .. } => action == BuildAction::AskRedirect,
                BuildPhase::Done(_) => action == BuildAction::Finish,
            },
    {
        match &self.phase {
            BuildPhase::AskIssuer => BuildAction::AskIssuer,
            BuildPhase::BuildHttp { .. } => BuildAction::BuildHttp,
            BuildPhase::Discover { issuer_url } => BuildAction::Discover {
                issuer_url: issuer_url.clone(),
            },
            BuildPhase::AskRedirect { .. } => BuildAction::AskRedirect,
            BuildPhase::Done(_) => BuildAction::Finish,
        }
    }

    /// Moves on, now that `event` reports on the work that was due.
    pub fn advance(self, event: BuildEvent) -> (build: ClientBuild)
        ensures
            build@ == (BuildState { phase: build@.phase, ..self@ }),
            build_goes(self@.client_id, self@.client_secret, self@.phase, event, build@.phase),
    {
        let ClientBuild { client_id, client_secret, phase } = self;
        let next = match (phase, event) {
            (BuildPhase::AskIssuer, BuildEvent::Issuer(Ok(issuer_url))) => BuildPhase::BuildHttp {
                issuer_url,
            },
            (BuildPhase::AskIssuer, BuildEvent::Issuer(Err(error))) => BuildPhase::Done(Err(error)),
            (BuildPhase::BuildHttp { issuer_url }, BuildEvent::HttpBuilt(Ok(()))) => {
                BuildPhase::Discover { issuer_url }
            },
            (BuildPhase::BuildHttp { .. }, BuildEvent::HttpBuilt(Err(error))) => BuildPhase::Done(
                Err(SsoError { kind: SsoErrorKind::HttpClient, detail: error }),
            ),
            (BuildPhase::Discover { .. }, BuildEvent::Discovered(Ok(metadata))) => {
                match (metadata.token_url, metadata.user_info_url) {
                    (None, _) => BuildPhase::Done(Err(SsoError::plain(SsoErrorKind::NoTokenUrl))),
                    (Some(_), None) => BuildPhase::Done(
                        Err(SsoError::plain(SsoErrorKind::NoUserInfoUrl)),
                    ),
                    (Some(token_url), Some(user_info_url)) => BuildPhase::AskRedirect {
                        endpoints: Endpoints {
                            issuer_url: metadata.issuer_url,
                            auth_url: metadata.auth_url,
                            token_url,
                            user_info_url,
                            signing: metadata.signing,
                        },
                    },
                }
            },
            (BuildPhase::Discover { .. }, BuildEvent::Discovered(Err(error))) => BuildPhase::Done(
                Err(SsoError { kind: SsoErrorKind::Discovery, detail: error }),
            ),
            (BuildPhase::AskRedirect { endpoints }, BuildEvent::Redirect(Ok(redirect_url))) => {
                BuildPhase::Done(
                    Ok(
                        Client {
                            client_id: client_id.clone(),
                            client_secret: client_secret.clone(),
                            issuer_url: endpoints.issuer_url,
                            auth_url: endpoints.auth_url,
                            token_url: endpoints.token_url,
                            user_info_url: endpoints.user_info_url,
                            redirect_url,
                            signing: endpoints.signing,
                        },
                    ),
                )
            },
            (BuildPhase::AskRedirect { .. }, BuildEvent::Redirect(Err(error))) => BuildPhase::Done(
                Err(error),
            ),
            (phase, _) => phase,
        };
        ClientBuild { client_id, client_secret, phase: next }
    }
}

impl Client {
    /// Starts to make a client with this id and secret.
    pub fn get_client(client_id: String, client_secret: String) -> (build: ClientBuild)
        ensures
            build@ == (BuildState { client_id, client_secret, phase: BuildPhase::AskIssuer }),
    {
        ClientBuild { client_id, client_secret, phase: BuildPhase::AskIssuer }
    }
}

/// What comes of making a client, all told: the error of the first step that
/// fails, or the client.
pub open spec fn build_outcome(
    client_id: String,
    client_secret: String,
    issuer: Result<String, SsoError>,
    http: Result<(), String>,
    discovered: Result<ProviderMetadata, String>,
    redirect: Result<String, SsoError>,
) -> Result<Client, SsoErrorView> {
    match (issuer, http, discovered) {
        (Err(error), _, _) => Err(error@),
        (Ok(_), Err(error), _) => Err(
            SsoErrorView { kind: SsoErrorKind::HttpClient, detail: error@ },
        ),
        (Ok(_), Ok(_), Err(error)) => Err(
            SsoErrorView { kind: SsoErrorKind::Discovery, detail: error@ },
        ),
        (Ok(_), Ok(_), Ok(metadata)) => match (
            metadata.token_url,
            metadata.user_info_url,
            redirect,
        ) {
            (None, _, _) => Err(plain_error(SsoErrorKind::NoTokenUrl)),
            (Some(_), None, _) => Err(plain_error(SsoErrorKind::NoUserInfoUrl)),
            (Some(_), Some(_), Err(error)) => Err(error@),
            (Some(token_url), Some(user_info_url), Ok(redirect_url)) => Ok(
                Client {
                    client_id,
                    client_secret,
                    issuer_url: metadata.issuer_url,
                    auth_url: metadata.auth_url,
                    token_url,
                    user_info_url,
                    redirect_url,
                    signing: metadata.signing,
                },
            ),
        },
    }
}

/// The making of a client that is told of each piece of work in turn ends with
/// the error of the first step that fails, and with the client if none does.
pub proof fn first_failure_decides_a_build(
    client_id: String,
    client_secret: String,
    issuer: Result<String, SsoError>,
    http: Result<(), String>,
    discovered: Result<ProviderMetadata, String>,
    redirect: Result<String, SsoError>,
    phases: Seq<BuildPhase>,
)
    requires
        phases.len() == 5,
        phases[0] == BuildPhase::AskIssuer,
        build_goes(client_id, client_secret, phases[0], BuildEvent::Issuer(issuer), phases[1]),
        build_goes(client_id, client_secret, phases[1], BuildEvent::HttpBuilt(http), phases[2]),
        build_goes(
            client_id,
            client_secret,
            phases[2],
            BuildEvent::Discovered(discovered),
            phases[3],
        ),
        build_goes(client_id, client_secret, phases[3], BuildEvent::Redirect(redirect), phases[4]),
    ensures
        phases[4] matches BuildPhase::Done(res) && build_outcome(
            client_id,
            client_secret,
            issuer,
            http,
            discovered,
            redirect,
        ) == (match res {
            Ok(client) => Ok::<Client, SsoErrorView>(client),
            Err(error) => Err::<Client, SsoErrorView>(error@),
        }),
{
}

/// A client is made only if the settings name an issuer and a redirect URL and
/// the provider was discovered with both a token and a user-info address; it
/// then is the client of those settings at those addresses.
pub proof fn clients_have_all_their_endpoints(
    client_id: String,
    client_secret: String,
    before: BuildPhase,
    event: BuildEvent,
    client: Client,
)
    requires
        !(before is Done),
        build_goes(client_id, client_secret, before, event, BuildPhase::Done(Ok(client))),
    ensures
        before is AskRedirect,
        client.client_id == client_id,
        client.client_secret == client_secret,
        client.token_url == before->endpoints.token_url,
        client.user_info_url == before->endpoints.user_info_url,
        event == BuildEvent::Redirect(Ok(client.redirect_url)),
{
}

/// A client comes of four steps. The first that fails decides what is wrong: the
/// settings' own error for the issuer or the redirect URL, the HTTP client's or
/// the discovery's error with its text, or an address that the provider does not
/// name, where the token endpoint is missed first. If none fails, the client has
/// the settings' id, secret and redirect URL, and everything else from the
/// provider.
pub proof fn clients_come_of_settings_and_discovery(
    client_id: String,
    client_secret: String,
    issuer: Result<String, SsoError>,
    http: Result<(), String>,
    discovered: Result<ProviderMetadata, String>,
    redirect: Result<String, SsoError>,
    phases: Seq<BuildPhase>,
)
    requires
        phases.len() == 5,
        phases[0] == BuildPhase::AskIssuer,
        build_goes(client_id, client_secret, phases[0], BuildEvent::Issuer(issuer), phases[1]),
        build_goes(client_id, client_secret, phases[1], BuildEvent::HttpBuilt(http), phases[2]),
        build_goes(
            client_id,
            client_secret,
            phases[2],
            BuildEvent::Discovered(discovered),
            phases[3],
        ),
        build_goes(client_id, client_secret, phases[3], BuildEvent::Redirect(redirect), phases[4]),
    ensures
        ({
            let failed = |kind: SsoErrorKind, detail: Seq<char>|
                phases[4] matches BuildPhase::Done(Err(e)) && e.kind == kind && e.detail@ == detail;
            let reached = issuer is Ok && http is Ok;
            let metadata = discovered->Ok_0;
            &&& issuer matches Err(error) ==> phases[4] == BuildPhase::Done(Err(error))
            &&& issuer matches Ok(issuer) ==> phases[1] == (BuildPhase::BuildHttp {
                issuer_url: issuer,
            })
            &&& issuer is Ok ==> (http matches Err(detail) ==> failed(
                SsoErrorKind::HttpClient,
                detail@,
            ))
            &&& reached ==> phases[2] == (BuildPhase::Discover { issuer_url: issuer->Ok_0 })
            &&& reached ==> (discovered matches Err(detail) ==> failed(
                SsoErrorKind::Discovery,
                detail@,
            ))
            &&& reached && discovered is Ok && metadata.token_url is None ==> failed(
                SsoErrorKind::NoTokenUrl,
                Seq::empty(),
            )
            &&& reached && discovered is Ok && metadata.token_url is Some
                && metadata.user_info_url is None ==> failed(
                SsoErrorKind::NoUserInfoUrl,
                Seq::empty(),
            )
            &&& reached && discovered is Ok && metadata.token_url is Some
                && metadata.user_info_url is Some ==> {
                &&& redirect matches Err(error) ==> phases[4] == BuildPhase::Done(Err(error))
                &&& redirect matches Ok(redirect_url) ==> (phases[4] matches BuildPhase::Done(
                    Ok(client),
                ) && client.client_id == client_id && client.client_secret == client_secret
                    && client.issuer_url == metadata.issuer_url && client.auth_url
                    == metadata.auth_url && client.token_url == metadata.token_url->0
                    && client.user_info_url == metadata.user_info_url->0 && client.redirect_url
                    == redirect_url && client.signing == metadata.signing)
            }
        }),
{
}

/// A report on work that is not due leaves the making of a client where it is.
pub proof fn stray_reports_leave_the_build(
    client_id: String,
    client_secret: String,
    before: BuildPhase,
    event: BuildEvent,
    after: BuildPhase,
)
    requires
        build_goes(client_id, client_secret, before, event, after),
        !(before is AskIssuer && event is Issuer),
        !(before is BuildHttp && event is HttpBuilt),
        !(before is Discover && event is Discovered),
        !(before is AskRedirect && event is Redirect),
    ensures
        after == before,
{
}

} // verus!
