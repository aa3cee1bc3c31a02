//! Ending sessions at the provider.
//!
//! A [`Logout`] ends the session that a refresh token belongs to, an
//! [`EmailLogout`] all sessions of the user with an email. Either says which
//! piece of work is due and decides on what came back.
use crate::client::Client;
use crate::http::{
    admin_headers, admin_request, form_request, HttpReply, HttpRequest, HttpRequestView, Method,
};
use crate::keycloak::{
    admin_base, admin_token_request_spec, admin_token_spec, extract_admin_base_url,
    find_user_by_email_request, find_user_request_spec, found_user_spec, get_admin_token_request,
    logout_user_reply_spec, logout_user_request_spec, logout_user_sessions_request,
    read_admin_token, read_logout_user_sessions, read_user_id, unit_result,
};
use crate::sso_error::{SsoError, SsoErrorView};
use crate::url_parts::URL_ROOM;
use vstd::prelude::*;

verus! {

/// What became of the work that was due.
#[derive(Debug)]
pub enum LogoutEvent {
    /// The issuer URL of the settings, or what is wrong with it.
    Issuer(Result<String, SsoError>),
    /// Whether there is a client.
    ClientReady(Result<(), SsoError>),
    /// What came of a request.
    Replied(HttpReply),
}

/// A piece of work for others.
#[derive(Debug)]
pub enum LogoutAction {
    AskIssuer,
    AskClient,
    Send(HttpRequest),
    Finish,
}

/// How far a logout by refresh token has come: the work that is due.
#[derive(Debug)]
pub enum LogoutPhase {
    AskIssuer,
    AskClient { issuer: String },
    Send { issuer: String },
    Done(Result<(), SsoError>),
}

/// A logout by refresh token, as a value.
pub struct LogoutState {
    pub refresh_token: Seq<char>,
    pub client_id: Seq<char>,
    pub client_secret: Seq<char>,
    pub phase: LogoutPhase,
}

/// A logout by refresh token on its way.
#[derive(Debug)]
pub struct Logout {
    refresh_token: String,
    client_id: String,
    client_secret: String,
    phase: LogoutPhase,
}

impl View for Logout {
    type V = LogoutState;

    closed spec fn view(&self) -> LogoutState {
        LogoutState {
            refresh_token: self.refresh_token@,
            client_id: self.client_id@,
            client_secret: self.client_secret@,
            phase: self.phase,
        }
    }
}

/// The request to end the session that a refresh token belongs to.
pub open spec fn logout_request_spec(
    issuer: Seq<char>,
    refresh_token: Seq<char>,
    client_id: Seq<char>,
    client_secret: Seq<char>,
) -> HttpRequestView {
    HttpRequestView {
        method: Method::Post,
        url: issuer + "/protocol/openid-connect/logout"@,
        headers: Seq::empty(),
        form: seq![
            ("refresh_token"@, refresh_token),
            ("client_id"@, client_id),
            ("client_secret"@, client_secret),
        ],
        json: Seq::empty(),
    }
}

/// Where a logout by refresh token stands after `phase` was told `event`. Nobody
/// waits for the provider to agree: the user is logged out here already. An
/// event that does not report on the work that is due changes nothing.
pub open spec fn logout_next(phase: LogoutPhase, event: LogoutEvent) -> LogoutPhase {
    match (phase, event) {
        (LogoutPhase::AskIssuer, LogoutEvent::Issuer(Ok(issuer))) => LogoutPhase::AskClient {
            issuer,
        },
        (LogoutPhase::AskIssuer, LogoutEvent::Issuer(Err(error))) => LogoutPhase::Done(Err(error)),
        (LogoutPhase::AskClient { issuer }, LogoutEvent::ClientReady(Ok(_))) => LogoutPhase::Send {
            issuer,
        },
        (LogoutPhase::AskClient { .. }, LogoutEvent::ClientReady(Err(error))) => LogoutPhase::Done(
            Err(error),
        ),
        (LogoutPhase::Send { .. }, LogoutEvent::Replied(_)) => LogoutPhase::Done(Ok(())),
        _ => phase,
    }
}

impl Logout {
    /// How far the logout has come.
    pub fn into_phase(self) -> (phase: LogoutPhase)
        ensures
            phase == self@.phase,
    {
        self.phase
    }

    /// The work that is due.
    pub fn pending(&self) -> (action: LogoutAction)
        ensures
            match self@.phase {
                LogoutPhase::AskIssuer => action is AskIssuer,
                LogoutPhase::AskClient { .. } => action is AskClient,
                LogoutPhase::Send { issuer } => action matches LogoutAction::Send(request)
                    && request@ == logout_request_spec(
                    issuer@,
                    self@.refresh_token,
                    self@.client_id,
                    self@.client_secret,
                ),
                LogoutPhase::Done(_) => action is Finish,
            },
    {
        match &self.phase {
            LogoutPhase::AskIssuer => LogoutAction::AskIssuer,
            LogoutPhase::AskClient { .. } => LogoutAction::AskClient,
            LogoutPhase::Send { issuer } => LogoutAction::Send(
                form_request(
                    issuer.clone().concat("/protocol/openid-connect/logout"),
                    ("refresh_token", self.refresh_token.as_str()),
                    ("client_id", self.client_id.as_str()),
                    ("client_secret", self.client_secret.as_str()),
                ),
            ),
            LogoutPhase::Done(_) => LogoutAction::Finish,
        }
    }

    /// Moves on, now that `event` reports on the work that was due.
    pub fn advance(self, event: LogoutEvent) -> (logout: Logout)
        ensures
            logout@ == (LogoutState { phase: logout_next(self@.phase, event), ..self@ }),
    {
        let phase = match (self.phase, event) {
            (LogoutPhase::AskIssuer, LogoutEvent::Issuer(Ok(issuer))) => LogoutPhase::AskClient {
                issuer,
            },
            (LogoutPhase::AskIssuer, LogoutEvent::Issuer(Err(error))) => LogoutPhase::Done(
                Err(error),
            ),
            (LogoutPhase::AskClient { issuer }, LogoutEvent::ClientReady(Ok(_))) => {
                LogoutPhase::Send { issuer }
            },
            (LogoutPhase::AskClient { .. }, LogoutEvent::ClientReady(Err(error))) => {
                LogoutPhase::Done(Err(error))
            },
            (LogoutPhase::Send { .. }, LogoutEvent::Replied(_)) => LogoutPhase::Done(Ok(())),
            (phase, _) => phase,
        };
        Logout {
            refresh_token: self.refresh_token,
            client_id: self.client_id,
            client_secret: self.client_secret,
            phase,
        }
    }
}

/// How far a logout by email has come: the work that is due.
#[derive(Debug)]
pub enum EmailPhase {
    AskIssuer,
    /// Ask for an administrator's token.
    GetToken { issuer: String, admin_base: String },
    AskClient { admin_base: String, token: String },
    /// Ask for the users with the email.
    FindUser { admin_base: String, token: String, url: String },
    /// Ask for the end of the user's sessions.
    EndSessions { admin_base: String, token: String, user_id: String },
    Done(Result<(), SsoError>),
}

/// A logout by email, as a value.
pub struct EmailState {
    pub email: Seq<char>,
    pub client_id: Seq<char>,
    pub client_secret: Seq<char>,
    pub phase: EmailPhase,
}

/// A logout by email on its way.
#[derive(Debug)]
pub struct EmailLogout {
    email: String,
    client_id: String,
    client_secret: String,
    phase: EmailPhase,
}

impl View for EmailLogout {
    type V = EmailState;

    closed spec fn view(&self) -> EmailState {
        EmailState {
            email: self.email@,
            client_id: self.client_id@,
            client_secret: self.client_secret@,
            phase: self.phase,
        }
    }
}

/// The logout has failed, for this reason.
pub open spec fn email_failed(phase: EmailPhase, error: SsoErrorView) -> bool {
    phase matches EmailPhase::Done(Err(e)) && e@ == error
}

/// The request that is due, if one is.
pub open spec fn email_request(
    client_id: Seq<char>,
    client_secret: Seq<char>,
    phase: EmailPhase,
) -> Option<HttpRequestView> {
    match phase {
        EmailPhase::GetToken { issuer, .. } => Some(
            admin_token_request_spec(issuer@, client_id, client_secret),
        ),
        EmailPhase::FindUser { token, url, .. } => Some(
            HttpRequestView {
                method: Method::Get,
                url: url@,
                headers: admin_headers(token@),
                form: Seq::empty(),
                json: Seq::empty(),
            },
        ),
        EmailPhase::EndSessions { admin_base, token, user_id } => Some(
            logout_user_request_spec(admin_base@, token@, user_id@),
        ),
        _ => None,
    }
}

/// `after` is where a logout by email stands after `before` was told `event`.
/// The first step that fails ends the logout with its error. An event that does
/// not report on the work that is due changes nothing.
pub open spec fn email_goes(
    email: Seq<char>,
    before: EmailPhase,
    event: LogoutEvent,
    after: EmailPhase,
) -> bool {
    match (before, event) {
        (EmailPhase::AskIssuer, LogoutEvent::Issuer(Err(error))) => after == EmailPhase::Done(
            Err(error),
        ),
        (EmailPhase::AskIssuer, LogoutEvent::Issuer(Ok(issuer))) => match admin_base(issuer@) {
            Err(error) => email_failed(after, error),
            Ok(base) => after matches EmailPhase::GetToken { issuer: asked, admin_base } && asked
                == issuer && admin_base@ == base,
        },
        (
            EmailPhase::GetToken { admin_base: base, .. },
            LogoutEvent::Replied(reply),
        ) => match admin_token_spec(reply) {
            Err(error) => email_failed(after, error),
            Ok(text) => after matches EmailPhase::AskClient { admin_base, token } && admin_base
                == base && token@ == text,
        },
        (EmailPhase::AskClient { .. }, LogoutEvent::ClientReady(Err(error))) => after
            == EmailPhase::Done(Err(error)),
        (
            EmailPhase::AskClient { admin_base: base, token: admin },
            LogoutEvent::ClientReady(Ok(_)),
        ) => match find_user_request_spec(base@, admin@, email) {
            Err(error) => email_failed(after, error),
            Ok(request) => after matches EmailPhase::FindUser { admin_base, token, url }
                && admin_base == base && token == admin && url@ == request.url,
        },
        (
            EmailPhase::FindUser { admin_base: base, token: admin, .. },
            LogoutEvent::Replied(reply),
        ) => match found_user_spec(email, reply) {
            Err(error) => email_failed(after, error),
            Ok(id) => after matches EmailPhase::EndSessions { admin_base, token, user_id }
                && admin_base == base && token == admin && user_id@ == id,
        },
        (EmailPhase::EndSessions { .. }, LogoutEvent::Replied(reply)) => after matches EmailPhase::Done(
            res,
        ) && unit_result(res) == logout_user_reply_spec(reply),
        _ => after == before,
    }
}

impl EmailLogout {
    /// How far the logout has come.
    pub fn phase(&self) -> (phase: &EmailPhase)
        ensures
            *phase == self@.phase,
    {
        &self.phase
    }

    /// How far the logout has come.
    pub fn into_phase(self) -> (phase: EmailPhase)
        ensures
            phase == self@.phase,
    {
        self.phase
    }

    /// The work that is due.
    pub fn pending(&self) -> (action: LogoutAction)
        ensures
            match self@.phase {
                EmailPhase::AskIssuer => action is AskIssuer,
                EmailPhase::AskClient { .. } => action is AskClient,
                EmailPhase::Done(_) => action is Finish,
                _ => action matches LogoutAction::Send(request) && Some(request@)
                    == email_request(self@.client_id, self@.client_secret, self@.phase),
            },
    {
        match &self.phase {
            EmailPhase::AskIssuer => LogoutAction::AskIssuer,
            EmailPhase::GetToken { issuer, .. } => LogoutAction::Send(
                get_admin_token_request(
                    issuer.as_str(),
                    self.client_id.as_str(),
                    self.client_secret.as_str(),
                ),
            ),
            EmailPhase::AskClient { .. } => LogoutAction::AskClient,
            EmailPhase::FindUser { token, url, .. } => {
                let request = admin_request(Method::Get, url.clone(), token.as_str(), Vec::new());
                assert(request@.json =~= Seq::empty());
                LogoutAction::Send(request)
            },
            EmailPhase::EndSessions { admin_base, token, user_id } => LogoutAction::Send(
                logout_user_sessions_request(
                    admin_base.as_str(),
                    token.as_str(),
                    user_id.as_str(),
                ),
            ),
            EmailPhase::Done(_) => LogoutAction::Finish,
        }
    }

    /// Moves on, now that `event` reports on the work that was due.
    ///
    /// Address and email have to fit into a URL when the user is to be looked up.
    pub fn advance(self, event: LogoutEvent) -> (logout: EmailLogout)
        requires
            event matches LogoutEvent::ClientReady(Ok(_)) ==> (self@.phase matches
                EmailPhase::AskClient { admin_base, .. } ==> admin_base@.len() + self@.email.len()
                + 10 <= URL_ROOM),
        ensures
            logout@ == (EmailState { phase: logout@.phase, ..self@ }),
            email_goes(self@.email, self@.phase, event, logout@.phase),
    {
        let phase = match (self.phase, event) {
            (EmailPhase::AskIssuer, LogoutEvent::Issuer(Err(error))) => EmailPhase::Done(
                Err(error),
            ),
            (EmailPhase::AskIssuer, LogoutEvent::Issuer(Ok(issuer))) => {
                match extract_admin_base_url(issuer.as_str()) {
                    Err(error) => EmailPhase::Done(Err(error)),
                    Ok(admin_base) => EmailPhase::GetToken { issuer, admin_base },
                }
            },
            (EmailPhase::GetToken { admin_base, .. }, LogoutEvent::Replied(reply)) => {
                match read_admin_token(reply) {
                    Err(error) => EmailPhase::Done(Err(error)),
                    Ok(token) => EmailPhase::AskClient { admin_base, token },
                }
            },
            (EmailPhase::AskClient { .. }, LogoutEvent::ClientReady(Err(error))) => {
                EmailPhase::Done(Err(error))
            },
            (EmailPhase::AskClient { admin_base, token }, LogoutEvent::ClientReady(Ok(_))) => {
                match find_user_by_email_request(
                    admin_base.as_str(),
                    token.as_str(),
                    self.email.as_str(),
                ) {
                    Err(error) => EmailPhase::Done(Err(error)),
                    Ok(request) => EmailPhase::FindUser { admin_base, token, url: request.url },
                }
            },
            (EmailPhase::FindUser { admin_base, token, .. }, LogoutEvent::Replied(reply)) => {
                match read_user_id(self.email.as_str(), reply) {
                    Err(error) => EmailPhase::Done(Err(error)),
                    Ok(user_id) => EmailPhase::EndSessions { admin_base, token, user_id },
                }
            },
            (EmailPhase::EndSessions { .. }, LogoutEvent::Replied(reply)) => EmailPhase::Done(
                read_logout_user_sessions(reply),
            ),
            (phase, _) => phase,
        };
        EmailLogout {
            email: self.email,
            client_id: self.client_id,
            client_secret: self.client_secret,
            phase,
        }
    }
}

impl Client {
    /// Starts to end the session that a refresh token belongs to.
    pub fn logout(refresh_token: String, client_id: String, client_secret: String) -> (logout:
        Logout)
        ensures
            logout@ == (LogoutState {
                refresh_token: refresh_token@,
                client_id: client_id@,
                client_secret: client_secret@,
                phase: LogoutPhase::AskIssuer,
            }),
    {
        Logout { refresh_token, client_id, client_secret, phase: LogoutPhase::AskIssuer }
    }

    /// Starts to end all sessions of the user with an email.
    pub fn logout_by_email(email: &str, client_id: String, client_secret: String) -> (logout:
        EmailLogout)
        ensures
            logout@ == (EmailState {
                email: email@,
                client_id: client_id@,
                client_secret: client_secret@,
                phase: EmailPhase::AskIssuer,
            }),
    {
        EmailLogout {
            email: email.to_owned(),
            client_id,
            client_secret,
            phase: EmailPhase::AskIssuer,
        }
    }
}

/// A logout by refresh token fails only for want of an issuer or of a client:
/// once its request has been sent it is done, whatever came of the request.
pub proof fn logouts_fail_only_before_they_are_sent(
    issuer: Result<String, SsoError>,
    client: Result<(), SsoError>,
    reply: HttpReply,
)
    ensures
        ({
            let asked = logout_next(LogoutPhase::AskIssuer, LogoutEvent::Issuer(issuer));
            let ready = logout_next(asked, LogoutEvent::ClientReady(client));
            let end = logout_next(ready, LogoutEvent::Replied(reply));
            end == LogoutPhase::Done(
                match (issuer, client) {
                    (Err(error), _) => Err(error),
                    (Ok(_), Err(error)) => Err(error),
                    (Ok(_), Ok(_)) => Ok(()),
                },
            )
        }),
{
}

/// What comes of a logout by email, all told: the error of the first step that
/// fails, or success.
pub open spec fn email_outcome(
    email: Seq<char>,
    issuer: Result<String, SsoError>,
    token_reply: HttpReply,
    client: Result<(), SsoError>,
    find_reply: HttpReply,
    end_reply: HttpReply,
) -> Result<(), SsoErrorView> {
    match issuer {
        Err(error) => Err(error@),
        Ok(issuer) => match (admin_base(issuer@), admin_token_spec(token_reply), client) {
            (Err(error), _, _) => Err(error),
            (Ok(_), Err(error), _) => Err(error),
            (Ok(_), Ok(_), Err(error)) => Err(error@),
            (Ok(base), Ok(token), Ok(_)) => match (
                find_user_request_spec(base, token, email),
                found_user_spec(email, find_reply),
            ) {
                (Err(error), _) => Err(error),
                (Ok(_), Err(error)) => Err(error),
                (Ok(_), Ok(_)) => logout_user_reply_spec(end_reply),
            },
        },
    }
}

/// A logout by email that is told of each piece of work in turn ends with the
/// error of the first step that fails, and with success if none does.
pub proof fn first_failure_decides_a_logout_by_email(
    email: Seq<char>,
    issuer: Result<String, SsoError>,
    token_reply: HttpReply,
    client: Result<(), SsoError>,
    find_reply: HttpReply,
    end_reply: HttpReply,
    phases: Seq<EmailPhase>,
)
    requires
        phases.len() == 6,
        phases[0] == EmailPhase::AskIssuer,
        email_goes(email, phases[0], LogoutEvent::Issuer(issuer), phases[1]),
        email_goes(email, phases[1], LogoutEvent::Replied(token_reply), phases[2]),
        email_goes(email, phases[2], LogoutEvent::ClientReady(client), phases[3]),
        email_goes(email, phases[3], LogoutEvent::Replied(find_reply), phases[4]),
        email_goes(email, phases[4], LogoutEvent::Replied(end_reply), phases[5]),
    ensures
        phases[5] matches EmailPhase::Done(res) && unit_result(res) == email_outcome(
            email,
            issuer,
            token_reply,
            client,
            find_reply,
            end_reply,
        ),
{
}

/// Where a logout by email succeeds, the sessions that were asked to end are
/// those of the first user that was found, at the admin API of the issuer's
/// realm, with the administrator's token.
pub proof fn logouts_by_email_end_the_first_users_sessions(
    email: Seq<char>,
    client_id: Seq<char>,
    client_secret: Seq<char>,
    issuer: Result<String, SsoError>,
    token_reply: HttpReply,
    client: Result<(), SsoError>,
    find_reply: HttpReply,
    end_reply: HttpReply,
    phases: Seq<EmailPhase>,
)
    requires
        phases.len() == 6,
        phases[0] == EmailPhase::AskIssuer,
        email_goes(email, phases[0], LogoutEvent::Issuer(issuer), phases[1]),
        email_goes(email, phases[1], LogoutEvent::Replied(token_reply), phases[2]),
        email_goes(email, phases[2], LogoutEvent::ClientReady(client), phases[3]),
        email_goes(email, phases[3], LogoutEvent::Replied(find_reply), phases[4]),
        email_goes(email, phases[4], LogoutEvent::Replied(end_reply), phases[5]),
        phases[5] matches EmailPhase::Done(res) && res is Ok,
    ensures
        issuer is Ok,
        admin_base(issuer->Ok_0@) is Ok,
        admin_token_spec(token_reply) is Ok,
        found_user_spec(email, find_reply) is Ok,
        email_request(client_id, client_secret, phases[4]) == Some(
            logout_user_request_spec(
                admin_base(issuer->Ok_0@)->Ok_0,
                admin_token_spec(token_reply)->Ok_0,
                found_user_spec(email, find_reply)->Ok_0,
            ),
        ),
{
}

/// A logout by refresh token posts the token and the client's credentials to the
/// issuer's logout endpoint.
pub proof fn logouts_post_the_token_to_the_issuer(
    issuer: Seq<char>,
    refresh_token: Seq<char>,
    client_id: Seq<char>,
    client_secret: Seq<char>,
)
    ensures
        ({
            let request = logout_request_spec(issuer, refresh_token, client_id, client_secret);
            &&& request.method is Post
            &&& request.url == issuer + "/protocol/openid-connect/logout"@
            &&& request.headers.len() == 0 && request.json.len() == 0
            &&& request.form =~= seq![
                ("refresh_token"@, refresh_token),
                ("client_id"@, client_id),
                ("client_secret"@, client_secret),
            ]
        }),
{
}

/// A logout by refresh token keeps the issuer until its request is sent, and a
/// report on work that is not due leaves it where it is.
pub proof fn logouts_go_to_their_issuer(phase: LogoutPhase, event: LogoutEvent)
    ensures
        phase is AskIssuer ==> (event matches LogoutEvent::Issuer(Ok(issuer)) ==> logout_next(
            phase,
            event,
        ) == (LogoutPhase::AskClient { issuer })),
        phase matches LogoutPhase::AskClient { issuer } ==> (event matches
            LogoutEvent::ClientReady(Ok(_)) ==> logout_next(phase, event) == (LogoutPhase::Send {
            issuer,
        })),
        !(phase is AskIssuer && event is Issuer) && !(phase is AskClient && event is ClientReady)
            && !(phase is Send && event is Replied) ==> logout_next(phase, event) == phase,
{
}

/// A logout by email asks for a token with the client's credentials, then for the
/// user at the admin API with that token, then for the end of that user's
/// sessions. What goes wrong first ends it: the issuer, the admin address, the
/// token, the client, the address of the lookup, the user, or the last request if
/// it could not be sent.
pub proof fn logouts_by_email_go_step_by_step(
    email: Seq<char>,
    client_id: Seq<char>,
    client_secret: Seq<char>,
    issuer: Result<String, SsoError>,
    token_reply: HttpReply,
    client: Result<(), SsoError>,
    find_reply: HttpReply,
    end_reply: HttpReply,
    phases: Seq<EmailPhase>,
)
    requires
        phases.len() == 6,
        phases[0] == EmailPhase::AskIssuer,
        email_goes(email, phases[0], LogoutEvent::Issuer(issuer), phases[1]),
        email_goes(email, phases[1], LogoutEvent::Replied(token_reply), phases[2]),
        email_goes(email, phases[2], LogoutEvent::ClientReady(client), phases[3]),
        email_goes(email, phases[3], LogoutEvent::Replied(find_reply), phases[4]),
        email_goes(email, phases[4], LogoutEvent::Replied(end_reply), phases[5]),
    ensures
        ({
            let failed = |error: SsoErrorView|
                phases[5] matches EmailPhase::Done(Err(e)) && e.kind == error.kind && e.detail@
                    == error.detail;
            let base = admin_base(issuer->Ok_0@);
            let token = admin_token_spec(token_reply);
            let request = find_user_request_spec(base->Ok_0, token->Ok_0, email);
            let user = found_user_spec(email, find_reply);
            let addressed = issuer is Ok && base is Ok;
            let allowed = addressed && token is Ok;
            let ready = allowed && client is Ok;
            let asked = ready && request is Ok;
            let known = asked && user is Ok;
            &&& issuer matches Err(error) ==> failed(error@)
            &&& issuer is Ok && base is Err ==> failed(base->Err_0)
            &&& addressed ==> email_request(client_id, client_secret, phases[1]) == Some(
                admin_token_request_spec(issuer->Ok_0@, client_id, client_secret),
            )
            &&& addressed && token is Err ==> failed(token->Err_0)
            &&& allowed ==> (client matches Err(error) ==> failed(error@))
            &&& ready && request is Err ==> failed(request->Err_0)
            &&& asked ==> email_request(client_id, client_secret, phases[3]) == Some(request->Ok_0)
            &&& asked && user is Err ==> failed(user->Err_0)
            &&& known ==> email_request(client_id, client_secret, phases[4]) == Some(
                logout_user_request_spec(base->Ok_0, token->Ok_0, user->Ok_0),
            )
            &&& known && !(end_reply is Failed) ==> (phases[5] matches EmailPhase::Done(res)
                && res is Ok)
            &&& known ==> (end_reply matches HttpReply::Failed(detail) ==> (phases[5] matches
                EmailPhase::Done(Err(e)) && e.detail@ == detail@))
        }),
{
}

/// A report on work that is not due leaves a logout by email where it is.
pub proof fn stray_reports_leave_the_logout(
    email: Seq<char>,
    before: EmailPhase,
    event: LogoutEvent,
    after: EmailPhase,
)
    requires
        email_goes(email, before, event, after),
        !(before is AskIssuer && event is Issuer),
        !(before is AskClient && event is ClientReady),
        !((before is GetToken || before is FindUser || before is EndSessions) && event is Replied),
    ensures
        after == before,
{
}

} // verus!
