//! Users in Keycloak: whether there is one, and making one.
//!
//! Both go through the admin API of the issuer's realm, with an administrator's
//! token that the client gets by its own credentials; for that the client needs
//! a service account. A [`UserRun`] says which piece of work is due and decides on
//! what came back.
use crate::http::{
    admin_headers, admin_request, field_views, HttpReply, HttpRequest, HttpRequestView, JsonField,
    JsonFieldView, Method,
};
use crate::json;
use crate::json::{json_list_members, opt_texts};
use crate::keycloak::{
    admin_base, admin_token_request_spec, admin_token_spec, extract_admin_base_url,
    find_user_by_email_request, find_user_request_spec, get_admin_token_request, read_admin_token,
    unit_result,
};
use crate::sso_error::{SsoError, SsoErrorKind, SsoErrorView};
use crate::url_parts::URL_ROOM;
use vstd::prelude::*;

verus! {

/// A result as a value, where success is yes or no.
pub open spec fn flag_result(res: Result<bool, SsoError>) -> Result<bool, SsoErrorView> {
    match res {
        Ok(flag) => Ok(flag),
        Err(error) => Err(error@),
    }
}

/// Whether a parsed reply lists a user.
pub open spec fn lists_users_spec(
    parsed: Result<Seq<Option<Seq<char>>>, Seq<char>>,
) -> Result<bool, SsoErrorView> {
    match parsed {
        Err(error) => Err(SsoErrorView { kind: SsoErrorKind::Reply, detail: error }),
        Ok(users) => Ok(users.len() > 0),
    }
}

/// What the reply to the request for the users with an email says of whether
/// there is one.
pub open spec fn user_exists_spec(reply: HttpReply) -> Result<bool, SsoErrorView> {
    match reply {
        HttpReply::Failed(error) => Err(
            SsoErrorView { kind: SsoErrorKind::Transport, detail: error@ },
        ),
        HttpReply::Refused(body) => Err(
            SsoErrorView { kind: SsoErrorKind::FindUser, detail: body@ },
        ),
        HttpReply::Accepted(body) => lists_users_spec(json_list_members(body@, "id"@)),
    }
}

/// Whether a parsed reply lists a user.
pub fn lists_users(parsed: Result<Vec<Option<String>>, String>) -> (res: Result<bool, SsoError>)
    ensures
        flag_result(res) == lists_users_spec(
            match parsed {
                Ok(users) => Ok(opt_texts(users@)),
                Err(error) => Err(error@),
            },
        ),
{
    match parsed {
        Err(error) => Err(SsoError { kind: SsoErrorKind::Reply, detail: error }),
        Ok(users) => Ok(users.len() > 0),
    }
}

/// Whether there is a user, by the reply to the request for the users with an
/// email.
pub fn read_user_exists(reply: HttpReply) -> (res: Result<bool, SsoError>)
    ensures
        flag_result(res) == user_exists_spec(reply),
{
    match reply {
        HttpReply::Failed(error) => Err(SsoError { kind: SsoErrorKind::Transport, detail: error }),
        HttpReply::Refused(body) => Err(SsoError { kind: SsoErrorKind::FindUser, detail: body }),
        HttpReply::Accepted(body) => lists_users(json::list_members(body.as_slice(), "id")),
    }
}

/// A new user: the email is the user name too, and the user has to set another
/// password at the first login.
pub open spec fn new_user_spec(email: Seq<char>) -> Seq<(Seq<char>, JsonFieldView)> {
    seq![
        ("username"@, JsonFieldView::Text(email)),
        ("email"@, JsonFieldView::Text(email)),
        ("enabled"@, JsonFieldView::Flag(true)),
        ("requiredActions"@, JsonFieldView::Texts(seq!["UPDATE_PASSWORD"@])),
    ]
}

/// A new user: the email is the user name too, and the user has to set another
/// password at the first login.
fn new_user(email: &str) -> (user: Vec<(String, JsonField)>)
    ensures
        field_views(user@) == new_user_spec(email@),
{
    let mut actions: Vec<String> = Vec::new();
    actions.push("UPDATE_PASSWORD".to_owned());
    let mut user: Vec<(String, JsonField)> = Vec::new();
    user.push(("username".to_owned(), JsonField::Text(email.to_owned())));
    user.push(("email".to_owned(), JsonField::Text(email.to_owned())));
    user.push(("enabled".to_owned(), JsonField::Flag(true)));
    user.push(("requiredActions".to_owned(), JsonField::Texts(actions)));
    assert(user@[3].1@ =~= JsonFieldView::Texts(seq!["UPDATE_PASSWORD"@]));
    assert(field_views(user@) =~= new_user_spec(email@));
    user
}

/// The request to make a user.
pub open spec fn create_user_request_spec(
    admin_base_url: Seq<char>,
    admin_token: Seq<char>,
    email: Seq<char>,
) -> HttpRequestView {
    HttpRequestView {
        method: Method::Post,
        url: admin_base_url + "/users"@,
        headers: admin_headers(admin_token),
        form: Seq::empty(),
        json: new_user_spec(email),
    }
}

/// The request to make a user.
pub fn create_user_request(admin_base_url: &str, admin_token: &str, email: &str) -> (request:
    HttpRequest)
    ensures
        request@ == create_user_request_spec(admin_base_url@, admin_token@, email@),
{
    admin_request(
        Method::Post,
        admin_base_url.to_owned().concat("/users"),
        admin_token,
        new_user(email),
    )
}

/// What comes of the request to make a user: the user is there if and only if
/// Keycloak accepts it.
pub open spec fn user_created_spec(reply: HttpReply) -> Result<(), SsoErrorView> {
    match reply {
        HttpReply::Failed(error) => Err(
            SsoErrorView { kind: SsoErrorKind::Transport, detail: error@ },
        ),
        HttpReply::Refused(body) => Err(
            SsoErrorView { kind: SsoErrorKind::CreateUser, detail: body@ },
        ),
        HttpReply::Accepted(_) => Ok(()),
    }
}

/// What the reply to [`create_user_request`] means.
pub fn read_user_created(reply: HttpReply) -> (res: Result<(), SsoError>)
    ensures
        unit_result(res) == user_created_spec(reply),
        res is Ok <==> reply is Accepted,
{
    match reply {
        HttpReply::Failed(error) => Err(SsoError { kind: SsoErrorKind::Transport, detail: error }),
        HttpReply::Refused(body) => Err(SsoError { kind: SsoErrorKind::CreateUser, detail: body }),
        HttpReply::Accepted(_) => Ok(()),
    }
}

/// What is wanted of Keycloak.
#[derive(Clone, Copy, Debug, PartialEq, Eq, Structural)]
pub enum UserTask {
    /// Tell whether the user exists.
    Check,
    /// Make the user.
    Create,
}

/// What became of the work that was due.
#[derive(Debug)]
pub enum UserEvent {
    /// The issuer URL of the settings, or what is wrong with it.
    Issuer(Result<String, SsoError>),
    /// What came of a request.
    Replied(HttpReply),
}

/// A piece of work for others.
#[derive(Debug)]
pub enum UserAction {
    AskIssuer,
    Send(HttpRequest),
    Finish,
}

/// How far the work has come: what is due.
#[derive(Debug)]
pub enum UserPhase {
    AskIssuer,
    /// Ask for an administrator's token.
    GetToken { issuer: String, admin_base: String },
    /// Ask for the users with the email.
    FindUser { token: String, url: String },
    /// Ask for the user to be made.
    CreateUser { admin_base: String, token: String },
    /// Whether the user exists.
    Checked(Result<bool, SsoError>),
    /// Whether the user could be made.
    Created(Result<(), SsoError>),
}

/// The work has failed, for this reason.
pub open spec fn user_failed(task: UserTask, phase: UserPhase, error: SsoErrorView) -> bool {
    match task {
        UserTask::Check => phase matches UserPhase::Checked(Err(e)) && e@ == error,
        UserTask::Create => phase matches UserPhase::Created(Err(e)) && e@ == error,
    }
}

/// The end of work that has failed.
fn failed(task: UserTask, error: SsoError) -> (phase: UserPhase)
    ensures
        user_failed(task, phase, error@),
{
    match task {
        UserTask::Check => UserPhase::Checked(Err(error)),
        UserTask::Create => UserPhase::Created(Err(error)),
    }
}

/// The request that is due, if one is.
pub open spec fn user_request(
    email: Seq<char>,
    client_id: Seq<char>,
    client_secret: Seq<char>,
    phase: UserPhase,
) -> Option<HttpRequestView> {
    match phase {
        UserPhase::GetToken { issuer, .. } => Some(
            admin_token_request_spec(issuer@, client_id, client_secret),
        ),
        UserPhase::FindUser { token, url } => Some(
            HttpRequestView {
                method: Method::Get,
                url: url@,
                headers: admin_headers(token@),
                form: Seq::empty(),
                json: Seq::empty(),
            },
        ),
        UserPhase::CreateUser { admin_base, token } => Some(
            create_user_request_spec(admin_base@, token@, email),
        ),
        _ => None,
    }
}

/// `after` is where the work stands after `before` was told `event`. The first
/// step that fails ends it with its error. An event that does not report on the
/// work that is due changes nothing.
pub open spec fn user_goes(
    task: UserTask,
    email: Seq<char>,
    before: UserPhase,
    event: UserEvent,
    after: UserPhase,
) -> bool {
    match (before, event) {
        (UserPhase::AskIssuer, UserEvent::Issuer(Err(error))) => user_failed(task, after, error@),
        (UserPhase::AskIssuer, UserEvent::Issuer(Ok(issuer))) => match admin_base(issuer@) {
            Err(error) => user_failed(task, after, error),
            Ok(base) => after matches UserPhase::GetToken { issuer: asked, admin_base } && asked
                == issuer && admin_base@ == base,
        },
        (
            UserPhase::GetToken { admin_base: base, .. },
            UserEvent::Replied(reply),
        ) => match admin_token_spec(reply) {
            Err(error) => user_failed(task, after, error),
            Ok(admin) => match task {
                UserTask::Check => match find_user_request_spec(base@, admin, email) {
                    Err(error) => user_failed(task, after, error),
                    Ok(request) => after matches UserPhase::FindUser { token, url } && token@
                        == admin && url@ == request.url,
                },
                UserTask::Create => after matches UserPhase::CreateUser { admin_base, token }
                    && admin_base == base && token@ == admin,
            },
        },
        (UserPhase::FindUser { .. }, UserEvent::Replied(reply)) => after matches UserPhase::Checked(
            res,
        ) && flag_result(res) == user_exists_spec(reply),
        (UserPhase::CreateUser { .. }, UserEvent::Replied(reply)) => after matches UserPhase::Created(
            res,
        ) && unit_result(res) == user_created_spec(reply),
        _ => after == before,
    }
}

/// Work on a user, as a value.
pub struct UserState {
    pub task: UserTask,
    pub email: Seq<char>,
    pub client_id: Seq<char>,
    pub client_secret: Seq<char>,
    pub phase: UserPhase,
}

/// Work on a user on its way.
#[derive(Debug)]
pub struct UserRun {
    task: UserTask,
    email: String,
    client_id: String,
    client_secret: String,
    phase: UserPhase,
}

impl View for UserRun {
    type V = UserState;

    closed spec fn view(&self) -> UserState {
        UserState {
            task: self.task,
            email: self.email@,
            client_id: self.client_id@,
            client_secret: self.client_secret@,
            phase: self.phase,
        }
    }
}

impl UserRun {
    /// How far the work has come.
    pub fn phase(&self) -> (phase: &UserPhase)
        ensures
            *phase == self@.phase,
    {
        &self.phase
    }

    /// How far the work has come.
    pub fn into_phase(self) -> (phase: UserPhase)
        ensures
            phase == self@.phase,
    {
        self.phase
    }

    /// The work that is due.
    pub fn pending(&self) -> (action: UserAction)
        ensures
            match self@.phase {
                UserPhase::AskIssuer => action is AskIssuer,
                UserPhase::Checked(_) => action is Finish,
                UserPhase::Created(_) => action is Finish,
                _ => action matches UserAction::Send(request) && Some(request@) == user_request(
                    self@.email,
                    self@.client_id,
                    self@.client_secret,
                    self@.phase,
                ),
            },
    {
        match &self.phase {
            UserPhase::AskIssuer => UserAction::AskIssuer,
            UserPhase::GetToken { issuer, .. } => UserAction::Send(
                get_admin_token_request(
                    issuer.as_str(),
                    self.client_id.as_str(),
                    self.client_secret.as_str(),
                ),
            ),
            UserPhase::FindUser { token, url } => {
                let request = admin_request(Method::Get, url.clone(), token.as_str(), Vec::new());
                assert(request@.json =~= Seq::empty());
                UserAction::Send(request)
            },
            UserPhase::CreateUser { admin_base, token } => UserAction::Send(
                create_user_request(admin_base.as_str(), token.as_str(), self.email.as_str()),
            ),
            UserPhase::Checked(_) => UserAction::Finish,
            UserPhase::Created(_) => UserAction::Finish,
        }
    }

    /// Moves on, now that `event` reports on the work that was due.
    ///
    /// Address and email have to fit into a URL when the user is to be looked up.
    pub fn advance(self, event: UserEvent) -> (run: UserRun)
        requires
            event is Replied && self@.task is Check ==> (self@.phase matches UserPhase::GetToken {
                admin_base,
                ..
            } ==> admin_base@.len() + self@.email.len() + 10 <= URL_ROOM),
        ensures
            run@ == (UserState { phase: run@.phase, ..self@ }),
            user_goes(self@.task, self@.email, self@.phase, event, run@.phase),
    {
        let UserRun { task, email, client_id, client_secret, phase } = self;
        let phase = match (phase, event) {
            (UserPhase::AskIssuer, UserEvent::Issuer(Err(error))) => failed(task, error),
            (UserPhase::AskIssuer, UserEvent::Issuer(Ok(issuer))) => {
                match extract_admin_base_url(issuer.as_str()) {
                    Err(error) => failed(task, error),
                    Ok(admin_base) => UserPhase::GetToken { issuer, admin_base },
                }
            },
            (UserPhase::GetToken { admin_base, .. }, UserEvent::Replied(reply)) => {
                match (read_admin_token(reply), task) {
                    (Err(error), _) => failed(task, error),
                    (Ok(token), UserTask::Check) => {
                        match find_user_by_email_request(
                            admin_base.as_str(),
                            token.as_str(),
                            email.as_str(),
                        ) {
                            Err(error) => failed(task, error),
                            Ok(request) => UserPhase::FindUser { token, url: request.url },
                        }
                    },
                    (Ok(token), UserTask::Create) => UserPhase::CreateUser { admin_base, token },
                }
            },
            (UserPhase::FindUser { .. }, UserEvent::Replied(reply)) => UserPhase::Checked(
                read_user_exists(reply),
            ),
            (UserPhase::CreateUser { .. }, UserEvent::Replied(reply)) => UserPhase::Created(
                read_user_created(reply),
            ),
            (phase, _) => phase,
        };
        UserRun { task, email, client_id, client_secret, phase }
    }
}

/// Starts to ask Keycloak whether a user with this email exists.
pub fn keycloak_user_exists(email: &str, client_id: String, client_secret: String) -> (run: UserRun)
    ensures
        run@ == (UserState {
            task: UserTask::Check,
            email: email@,
            client_id: client_id@,
            client_secret: client_secret@,
            phase: UserPhase::AskIssuer,
        }),
{
    UserRun {
        task: UserTask::Check,
        email: email.to_owned(),
        client_id,
        client_secret,
        phase: UserPhase::AskIssuer,
    }
}

/// Starts to make a user with this email in Keycloak.
pub fn keycloak_create_user(email: &str, client_id: String, client_secret: String) -> (run: UserRun)
    ensures
        run@ == (UserState {
            task: UserTask::Create,
            email: email@,
            client_id: client_id@,
            client_secret: client_secret@,
            phase: UserPhase::AskIssuer,
        }),
{
    UserRun {
        task: UserTask::Create,
        email: email.to_owned(),
        client_id,
        client_secret,
        phase: UserPhase::AskIssuer,
    }
}

/// What comes of asking whether a user exists, all told: the error of the first
/// step that fails, or whether Keycloak lists a user.
pub open spec fn check_outcome(
    email: Seq<char>,
    issuer: Result<String, SsoError>,
    token_reply: HttpReply,
    reply: HttpReply,
) -> Result<bool, SsoErrorView> {
    match issuer {
        Err(error) => Err(error@),
        Ok(issuer) => match (admin_base(issuer@), admin_token_spec(token_reply)) {
            (Err(error), _) => Err(error),
            (Ok(_), Err(error)) => Err(error),
            (Ok(base), Ok(token)) => match find_user_request_spec(base, token, email) {
                Err(error) => Err(error),
                Ok(_) => user_exists_spec(reply),
            },
        },
    }
}

/// What comes of making a user, all told: the error of the first step that fails,
/// or success.
pub open spec fn create_outcome(
    issuer: Result<String, SsoError>,
    token_reply: HttpReply,
    reply: HttpReply,
) -> Result<(), SsoErrorView> {
    match issuer {
        Err(error) => Err(error@),
        Ok(issuer) => match (admin_base(issuer@), admin_token_spec(token_reply)) {
            (Err(error), _) => Err(error),
            (Ok(_), Err(error)) => Err(error),
            (Ok(_), Ok(_)) => user_created_spec(reply),
        },
    }
}

/// Asking whether a user exists ends with the error of the first step that fails.
/// If none does, the users with the email were asked for at the admin API of the
/// issuer's realm, and the answer is yes if Keycloak lists one and no if it lists
/// none.
pub proof fn users_exist_where_keycloak_lists_them(
    email: Seq<char>,
    client_id: Seq<char>,
    client_secret: Seq<char>,
    issuer: Result<String, SsoError>,
    token_reply: HttpReply,
    reply: HttpReply,
    phases: Seq<UserPhase>,
)
    requires
        phases.len() == 4,
        phases[0] == UserPhase::AskIssuer,
        user_goes(UserTask::Check, email, phases[0], UserEvent::Issuer(issuer), phases[1]),
        user_goes(UserTask::Check, email, phases[1], UserEvent::Replied(token_reply), phases[2]),
        user_goes(UserTask::Check, email, phases[2], UserEvent::Replied(reply), phases[3]),
    ensures
        phases[3] matches UserPhase::Checked(res) && flag_result(res) == check_outcome(
            email,
            issuer,
            token_reply,
            reply,
        ) && (res matches Ok(found) ==> {
            &&& find_user_request_spec(
                admin_base(issuer->Ok_0@)->Ok_0,
                admin_token_spec(token_reply)->Ok_0,
                email,
            ) matches Ok(request) && user_request(email, client_id, client_secret, phases[2])
                == Some(request)
            &&& (reply matches HttpReply::Accepted(body) && (json_list_members(body@, "id"@) matches Ok(
                users,
            ) && found == (users.len() > 0)))
        }),
{
}

/// Making a user ends with the error of the first step that fails. It ends well
/// if and only if every step does; the user with the email was then asked for at
/// the admin API of the issuer's realm, and Keycloak accepted that.
pub proof fn users_are_made_where_keycloak_accepts_them(
    email: Seq<char>,
    client_id: Seq<char>,
    client_secret: Seq<char>,
    issuer: Result<String, SsoError>,
    token_reply: HttpReply,
    reply: HttpReply,
    phases: Seq<UserPhase>,
)
    requires
        phases.len() == 4,
        phases[0] == UserPhase::AskIssuer,
        user_goes(UserTask::Create, email, phases[0], UserEvent::Issuer(issuer), phases[1]),
        user_goes(UserTask::Create, email, phases[1], UserEvent::Replied(token_reply), phases[2]),
        user_goes(UserTask::Create, email, phases[2], UserEvent::Replied(reply), phases[3]),
    ensures
        phases[3] matches UserPhase::Created(res) && unit_result(res) == create_outcome(
            issuer,
            token_reply,
            reply,
        ) && (res is Ok ==> {
            &&& reply is Accepted
            &&& user_request(email, client_id, client_secret, phases[2]) == Some(
                create_user_request_spec(
                    admin_base(issuer->Ok_0@)->Ok_0,
                    admin_token_spec(token_reply)->Ok_0,
                    email,
                ),
            )
        }),
{
}

/// A new user is posted to `users` under the admin API with the administrator's
/// token: the email is both user name and email, the account is enabled, and its
/// password has to be set anew.
pub proof fn new_users_have_to_set_a_password(
    base: Seq<char>,
    token: Seq<char>,
    email: Seq<char>,
)
    ensures
        ({
            let request = create_user_request_spec(base, token, email);
            &&& request.method is Post
            &&& request.url == base + "/users"@
            &&& request.form.len() == 0
            &&& request.headers =~= seq![
                ("Authorization"@, "Bearer "@ + token),
                ("Content-Type"@, "application/json"@),
            ]
            &&& request.json.len() == 4
            &&& request.json[0] == ("username"@, JsonFieldView::Text(email))
            &&& request.json[1] == ("email"@, JsonFieldView::Text(email))
            &&& request.json[2] == ("enabled"@, JsonFieldView::Flag(true))
            &&& request.json[3].0 == "requiredActions"@
            &&& request.json[3].1 matches JsonFieldView::Texts(actions) && actions =~= seq![
                "UPDATE_PASSWORD"@,
            ]
        }),
{
}

/// What replies say of users: an accepted list has a user in it or not, and a user
/// is made where that is accepted. A failed request is its own error, a refused
/// one is told with the body.
pub proof fn replies_tell_of_users(reply: HttpReply)
    ensures
        reply matches HttpReply::Failed(detail) ==> {
            let error = SsoErrorView { kind: SsoErrorKind::Transport, detail: detail@ };
            &&& user_exists_spec(reply) == Err::<bool, SsoErrorView>(error)
            &&& user_created_spec(reply) == Err::<(), SsoErrorView>(error)
        },
        reply matches HttpReply::Refused(body) ==> {
            &&& user_exists_spec(reply) == Err::<bool, SsoErrorView>(
                SsoErrorView { kind: SsoErrorKind::FindUser, detail: body@ },
            )
            &&& user_created_spec(reply) == Err::<(), SsoErrorView>(
                SsoErrorView { kind: SsoErrorKind::CreateUser, detail: body@ },
            )
        },
        reply matches HttpReply::Accepted(body) ==> {
            &&& user_created_spec(reply) is Ok
            &&& match json_list_members(body@, "id"@) {
                Ok(users) => user_exists_spec(reply) == Ok::<bool, SsoErrorView>(users.len() > 0),
                Err(detail) => user_exists_spec(reply) == Err::<bool, SsoErrorView>(
                    SsoErrorView { kind: SsoErrorKind::Reply, detail },
                ),
            }
        },
{
}

/// Work on a user first gets a token with the client's credentials, then asks for
/// the user at the admin API with that token. What goes wrong first ends it: the
/// issuer, the admin address, the token, or for a check the address of the lookup.
pub proof fn work_on_users_goes_step_by_step(
    task: UserTask,
    email: Seq<char>,
    client_id: Seq<char>,
    client_secret: Seq<char>,
    issuer: Result<String, SsoError>,
    token_reply: HttpReply,
    reply: HttpReply,
    phases: Seq<UserPhase>,
)
    requires
        phases.len() == 4,
        phases[0] == UserPhase::AskIssuer,
        user_goes(task, email, phases[0], UserEvent::Issuer(issuer), phases[1]),
        user_goes(task, email, phases[1], UserEvent::Replied(token_reply), phases[2]),
        user_goes(task, email, phases[2], UserEvent::Replied(reply), phases[3]),
    ensures
        ({
            let failed = |error: SsoErrorView|
                match task {
                    UserTask::Check => phases[3] matches UserPhase::Checked(Err(e)) && e.kind
                        == error.kind && e.detail@ == error.detail,
                    UserTask::Create => phases[3] matches UserPhase::Created(Err(e)) && e.kind
                        == error.kind && e.detail@ == error.detail,
                };
            let base = admin_base(issuer->Ok_0@);
            let token = admin_token_spec(token_reply);
            let request = find_user_request_spec(base->Ok_0, token->Ok_0, email);
            let addressed = issuer is Ok && base is Ok;
            let allowed = addressed && token is Ok;
            &&& issuer matches Err(error) ==> failed(error@)
            &&& issuer is Ok && base is Err ==> failed(base->Err_0)
            &&& addressed ==> user_request(email, client_id, client_secret, phases[1]) == Some(
                admin_token_request_spec(issuer->Ok_0@, client_id, client_secret),
            )
            &&& addressed && token is Err ==> failed(token->Err_0)
            &&& allowed && task is Check && request is Err ==> failed(request->Err_0)
            &&& allowed && task is Check && request is Ok ==> user_request(
                email,
                client_id,
                client_secret,
                phases[2],
            ) == Some(request->Ok_0) && (phases[3] matches UserPhase::Checked(res) && (
            match user_exists_spec(reply) {
                Ok(found) => res matches Ok(answer) && answer == found,
                Err(error) => failed(error),
            }))
            &&& allowed && task is Create ==> user_request(
                email,
                client_id,
                client_secret,
                phases[2],
            ) == Some(create_user_request_spec(base->Ok_0, token->Ok_0, email)) && (
            phases[3] matches UserPhase::Created(res) && (match user_created_spec(reply) {
                Ok(_) => res is Ok,
                Err(error) => failed(error),
            }))
        }),
{
}

/// A report on work that is not due leaves work on a user where it is.
pub proof fn stray_reports_leave_the_work(
    task: UserTask,
    email: Seq<char>,
    before: UserPhase,
    event: UserEvent,
    after: UserPhase,
)
    requires
        user_goes(task, email, before, event, after),
        !(before is AskIssuer && event is Issuer),
        !((before is GetToken || before is FindUser || before is CreateUser) && event is Replied),
    ensures
        after == before,
{
}

/// Answers are taken as they are.
pub proof fn answers_are_taken_as_they_are(answer: bool, error: SsoError)
    ensures
        flag_result(Ok(answer)) == Ok::<bool, SsoErrorView>(answer),
        flag_result(Err(error)) == Err::<bool, SsoErrorView>(
            SsoErrorView { kind: error.kind, detail: error.detail@ },
        ),
{
}

} // verus!
