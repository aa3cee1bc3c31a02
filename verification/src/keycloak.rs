//! Ending a user's sessions through the admin API of Keycloak.
//!
//! The admin API of a realm stands under `/admin/realms/{realm}` where the
//! issuer of the realm stands under `/realms/{realm}`.
use crate::http::{
    admin_headers, admin_request, form_request, HttpReply, HttpRequest, HttpRequestView, Method,
};
use crate::json;
use crate::json::{json_list_members, json_member, opt_text, opt_texts};
use crate::sso_error::{plain_error, SsoError, SsoErrorKind, SsoErrorView};
use crate::text;
use crate::text::{address_part_spec, after_last_spec, occurs_at, replace_all_spec};
use crate::url_parts;
use crate::url_parts::{split_view, url_extended, url_path, url_split, UrlSplit, URL_ROOM};
use vstd::prelude::*;

verus! {

/// A result as a value, where success is a text.
pub open spec fn text_result(res: Result<String, SsoError>) -> Result<Seq<char>, SsoErrorView> {
    match res {
        Ok(text) => Ok(text@),
        Err(error) => Err(error@),
    }
}

/// A result as a value, where success is a request.
pub open spec fn request_result(
    res: Result<HttpRequest, SsoError>,
) -> Result<HttpRequestView, SsoErrorView> {
    match res {
        Ok(request) => Ok(request@),
        Err(error) => Err(error@),
    }
}

/// A result as a value, where success is nothing.
pub open spec fn unit_result(res: Result<(), SsoError>) -> Result<(), SsoErrorView> {
    match res {
        Ok(()) => Ok(()),
        Err(error) => Err(error@),
    }
}

/// The realm that the path of an issuer names: what follows its last
/// `/realms/`.
pub open spec fn realm_in_path(
    issuer: Seq<char>,
    path: Result<Seq<char>, Seq<char>>,
) -> Result<Seq<char>, SsoErrorView> {
    match path {
        Err(error) => Err(SsoErrorView { kind: SsoErrorKind::IssuerUrl, detail: error }),
        Ok(path) => match after_last_spec(path, "/realms/"@) {
            None => Err(SsoErrorView { kind: SsoErrorKind::NoRealm, detail: issuer }),
            Some(realm) => if realm.len() == 0 {
                Err(plain_error(SsoErrorKind::EmptyRealm))
            } else {
                Ok(realm)
            },
        },
    }
}

/// The issuer with every `/realms/{realm}` replaced by `/admin/realms/{realm}`.
pub open spec fn admin_url(issuer: Seq<char>, realm: Seq<char>) -> Seq<char> {
    replace_all_spec(issuer, "/realms/"@ + realm, "/admin/realms/"@ + realm)
}

/// The part stands in the issuer, before its query.
pub open spec fn stands_in_address(issuer: Seq<char>, part: Seq<char>) -> bool {
    exists|at: int| occurs_at(address_part_spec(issuer), part, at)
}

/// A path that names a realm, with `/admin` put in front of its last
/// `/realms/`.
pub open spec fn admin_path(path: Seq<char>) -> Seq<char> {
    match after_last_spec(path, "/realms/"@) {
        Some(realm) => path.take(path.len() - realm.len() - 8) + ("/admin/realms/"@ + realm),
        None => path,
    }
}

/// The address of the admin API, from the issuer and the parts that it has as a
/// URL. A URL may read otherwise than its text, as where the realm is written
/// with a space: the address is then put together from the parts.
pub open spec fn admin_base_in_parts(
    issuer: Seq<char>,
    parts: Result<(Seq<char>, Seq<char>, Seq<char>), Seq<char>>,
) -> Result<Seq<char>, SsoErrorView> {
    match parts {
        Err(error) => Err(SsoErrorView { kind: SsoErrorKind::IssuerUrl, detail: error }),
        Ok((before, path, after)) => match realm_in_path(issuer, Ok(path)) {
            Err(error) => Err(error),
            Ok(realm) => Ok(
                if stands_in_address(issuer, "/realms/"@ + realm) {
                    admin_url(issuer, realm)
                } else {
                    before + admin_path(path) + after
                },
            ),
        },
    }
}

/// The realm that an issuer names.
pub open spec fn issuer_realm(issuer: Seq<char>) -> Result<Seq<char>, SsoErrorView> {
    realm_in_path(issuer, url_path(issuer))
}

/// The address of the admin API of the realm that an issuer names.
pub open spec fn admin_base(issuer: Seq<char>) -> Result<Seq<char>, SsoErrorView> {
    admin_base_in_parts(issuer, url_split(issuer))
}

/// The realm that the path of an issuer names.
pub fn realm_from_path(issuer: &str, path: Result<String, String>) -> (res: Result<
    String,
    SsoError,
>)
    ensures
        text_result(res) == realm_in_path(
            issuer@,
            match path {
                Ok(path) => Ok(path@),
                Err(error) => Err(error@),
            },
        ),
{
    match path {
        Err(error) => Err(SsoError { kind: SsoErrorKind::IssuerUrl, detail: error }),
        Ok(path) => match text::after_last(path.as_str(), "/realms/") {
            None => Err(SsoError { kind: SsoErrorKind::NoRealm, detail: issuer.to_owned() }),
            Some(realm) => {
                if realm.is_empty() {
                    Err(SsoError::plain(SsoErrorKind::EmptyRealm))
                } else {
                    Ok(realm.to_owned())
                }
            },
        },
    }
}

/// The realm that an issuer URL names.
pub fn extract_realm_from_issuer(issuer_url: &str) -> (res: Result<String, SsoError>)
    ensures
        text_result(res) == issuer_realm(issuer_url@),
{
    let path = match url_parts::split(issuer_url) {
        Ok(url) => Ok(url.path),
        Err(error) => Err(error),
    };
    realm_from_path(issuer_url, path)
}

/// The address of the admin API, from the issuer and the parts that it has as a
/// URL.
pub fn admin_base_from_parts(issuer: &str, parts: Result<UrlSplit, String>) -> (res: Result<
    String,
    SsoError,
>)
    ensures
        text_result(res) == admin_base_in_parts(issuer@, split_view(parts)),
{
    let url = match parts {
        Ok(url) => url,
        Err(error) => {
            return Err(SsoError { kind: SsoErrorKind::IssuerUrl, detail: error });
        },
    };
    match realm_from_path(issuer, Ok(url.path.clone())) {
        Ok(realm) => {
            proof {
                reveal_strlit("/realms/");
            }
            let from = "/realms/".to_owned().concat(realm.as_str());
            let to = "/admin/realms/".to_owned().concat(realm.as_str());
            match text::last_occurrence(text::address_part(issuer), from.as_str()) {
                Some(at) => {
                    assert(occurs_at(address_part_spec(issuer@), from@, at as int));
                    Ok(text::replace_all(issuer, from.as_str(), to.as_str()))
                },
                None => {
                    proof {
                        lemma_realm_ends_path(url.path@, realm@);
                    }
                    let at: usize = url.path.as_str().unicode_len() - realm.as_str().unicode_len()
                        - 8;
                    let path = url.path.as_str().substring_char(0, at).to_owned().concat(
                        to.as_str(),
                    );
                    assert(url.path@.subrange(0, at as int) =~= url.path@.take(at as int));
                    Ok(url.before.concat(path.as_str()).concat(url.after.as_str()))
                },
            }
        },
        Err(error) => Err(error),
    }
}

/// A path is what stands before its last `/realms/`, that, and the realm.
proof fn lemma_realm_ends_path(path: Seq<char>, realm: Seq<char>)
    requires
        after_last_spec(path, "/realms/"@) == Some(realm),
    ensures
        realm.len() + 8 <= path.len(),
        path == path.take(path.len() - realm.len() - 8) + "/realms/"@ + realm,
        text::is_last_occurrence(path, "/realms/"@, path.len() - realm.len() - 8),
{
    reveal_strlit("/realms/");
    let at = choose|at: int| text::is_last_occurrence(path, "/realms/"@, at);
    assert(text::is_last_occurrence(path, "/realms/"@, at));
    assert(path.len() - realm.len() - 8 == at);
    assert(path.take(at) + path.subrange(at, at + 8) + path.subrange(at + 8, path.len() as int)
        =~= path);
}

/// The address of the admin API of the realm that an issuer URL names.
pub fn extract_admin_base_url(issuer_url: &str) -> (res: Result<String, SsoError>)
    ensures
        text_result(res) == admin_base(issuer_url@),
{
    admin_base_from_parts(issuer_url, url_parts::split(issuer_url))
}

/// The request for an administrator's token by client credentials.
pub open spec fn admin_token_request_spec(
    issuer: Seq<char>,
    client_id: Seq<char>,
    client_secret: Seq<char>,
) -> HttpRequestView {
    HttpRequestView {
        method: Method::Post,
        url: issuer + "/protocol/openid-connect/token"@,
        headers: Seq::empty(),
        form: seq![
            ("grant_type"@, "client_credentials"@),
            ("client_id"@, client_id),
            ("client_secret"@, client_secret),
        ],
        json: Seq::empty(),
    }
}

/// The request for an administrator's token by client credentials.
pub fn get_admin_token_request(issuer_url: &str, client_id: &str, client_secret: &str) -> (request:
    HttpRequest)
    ensures
        request@ == admin_token_request_spec(issuer_url@, client_id@, client_secret@),
{
    form_request(
        issuer_url.to_owned().concat("/protocol/openid-connect/token"),
        ("grant_type", "client_credentials"),
        ("client_id", client_id),
        ("client_secret", client_secret),
    )
}

/// The token in a parsed reply.
pub open spec fn access_token_spec(
    parsed: Result<Option<Seq<char>>, Seq<char>>,
) -> Result<Seq<char>, SsoErrorView> {
    match parsed {
        Err(error) => Err(SsoErrorView { kind: SsoErrorKind::Reply, detail: error }),
        Ok(None) => Err(plain_error(SsoErrorKind::NoAccessToken)),
        Ok(Some(token)) => Ok(token),
    }
}

/// What comes of the request for a token.
pub open spec fn admin_token_spec(reply: HttpReply) -> Result<Seq<char>, SsoErrorView> {
    match reply {
        HttpReply::Failed(error) => Err(
            SsoErrorView { kind: SsoErrorKind::Transport, detail: error@ },
        ),
        HttpReply::Refused(body) => Err(
            SsoErrorView { kind: SsoErrorKind::AdminToken, detail: body@ },
        ),
        HttpReply::Accepted(body) => access_token_spec(json_member(body@, "access_token"@)),
    }
}

/// The token in a parsed reply.
pub fn access_token_of(parsed: Result<Option<String>, String>) -> (res: Result<String, SsoError>)
    ensures
        text_result(res) == access_token_spec(
            match parsed {
                Ok(token) => Ok(opt_text(token)),
                Err(error) => Err(error@),
            },
        ),
{
    match parsed {
        Err(error) => Err(SsoError { kind: SsoErrorKind::Reply, detail: error }),
        Ok(None) => Err(SsoError::plain(SsoErrorKind::NoAccessToken)),
        Ok(Some(token)) => Ok(token),
    }
}

/// The administrator's token in the reply to [`get_admin_token_request`].
pub fn read_admin_token(reply: HttpReply) -> (res: Result<String, SsoError>)
    ensures
        text_result(res) == admin_token_spec(reply),
{
    match reply {
        HttpReply::Failed(error) => Err(SsoError { kind: SsoErrorKind::Transport, detail: error }),
        HttpReply::Refused(body) => Err(SsoError { kind: SsoErrorKind::AdminToken, detail: body }),
        HttpReply::Accepted(body) => access_token_of(json::member(body.as_slice(), "access_token")),
    }
}

/// The request for the users with an email, from the address that the lookup
/// has under the admin API.
pub open spec fn find_user_at(
    url: Result<Option<Seq<char>>, Seq<char>>,
    admin_token: Seq<char>,
) -> Result<HttpRequestView, SsoErrorView> {
    match url {
        Err(error) => Err(SsoErrorView { kind: SsoErrorKind::AdminBaseUrl, detail: error }),
        Ok(None) => Err(plain_error(SsoErrorKind::AdminBaseUrlIsNoBase)),
        Ok(Some(url)) => Ok(
            HttpRequestView {
                method: Method::Get,
                url,
                headers: admin_headers(admin_token),
                form: Seq::empty(),
                json: Seq::empty(),
            },
        ),
    }
}

/// The request for the users with an email.
pub open spec fn find_user_request_spec(
    admin_base_url: Seq<char>,
    admin_token: Seq<char>,
    email: Seq<char>,
) -> Result<HttpRequestView, SsoErrorView> {
    find_user_at(url_extended(admin_base_url, "users"@, "email"@, email), admin_token)
}

/// The request for the users with an email, from the address that the lookup
/// has under the admin API.
pub fn find_user_request_at(url: Result<Option<String>, String>, admin_token: &str) -> (res: Result<
    HttpRequest,
    SsoError,
>)
    ensures
        request_result(res) == find_user_at(
            match url {
                Ok(url) => Ok(opt_text(url)),
                Err(error) => Err(error@),
            },
            admin_token@,
        ),
{
    match url {
        Err(error) => Err(SsoError { kind: SsoErrorKind::AdminBaseUrl, detail: error }),
        Ok(None) => Err(SsoError::plain(SsoErrorKind::AdminBaseUrlIsNoBase)),
        Ok(Some(url)) => {
            let request = admin_request(Method::Get, url, admin_token, Vec::new());
            assert(request@.json =~= Seq::empty());
            Ok(request)
        },
    }
}

/// The request for the users with an email.
///
/// The address and the email have to fit into a URL.
pub fn find_user_by_email_request(admin_base_url: &str, admin_token: &str, email: &str) -> (res: Result<
    HttpRequest,
    SsoError,
>)
    requires
        admin_base_url@.len() + email@.len() + 10 <= URL_ROOM,
    ensures
        request_result(res) == find_user_request_spec(admin_base_url@, admin_token@, email@),
{
    proof {
        reveal_strlit("users");
        reveal_strlit("email");
    }
    find_user_request_at(
        url_parts::extend(admin_base_url, "users", "email", email),
        admin_token,
    )
}

/// The id of the first user in a parsed reply.
pub open spec fn first_user_spec(
    email: Seq<char>,
    parsed: Result<Seq<Option<Seq<char>>>, Seq<char>>,
) -> Result<Seq<char>, SsoErrorView> {
    match parsed {
        Err(error) => Err(SsoErrorView { kind: SsoErrorKind::Reply, detail: error }),
        Ok(ids) => if ids.len() == 0 {
            Err(SsoErrorView { kind: SsoErrorKind::UserNotFound, detail: email })
        } else {
            match ids[0] {
                Some(id) => Ok(id),
                None => Err(plain_error(SsoErrorKind::NoUserId)),
            }
        },
    }
}

/// What comes of the request for the users with an email.
pub open spec fn found_user_spec(
    email: Seq<char>,
    reply: HttpReply,
) -> Result<Seq<char>, SsoErrorView> {
    match reply {
        HttpReply::Failed(error) => Err(
            SsoErrorView { kind: SsoErrorKind::Transport, detail: error@ },
        ),
        HttpReply::Refused(body) => Err(
            SsoErrorView { kind: SsoErrorKind::FindUser, detail: body@ },
        ),
        HttpReply::Accepted(body) => first_user_spec(email, json_list_members(body@, "id"@)),
    }
}

/// The id of the first user in a parsed reply.
pub fn first_user_id(email: &str, parsed: Result<Vec<Option<String>>, String>) -> (res: Result<
    String,
    SsoError,
>)
    ensures
        text_result(res) == first_user_spec(
            email@,
            match parsed {
                Ok(ids) => Ok(opt_texts(ids@)),
                Err(error) => Err(error@),
            },
        ),
{
    match parsed {
        Err(error) => Err(SsoError { kind: SsoErrorKind::Reply, detail: error }),
        Ok(ids) => {
            if ids.is_empty() {
                Err(SsoError { kind: SsoErrorKind::UserNotFound, detail: email.to_owned() })
            } else {
                match &ids[0] {
                    Some(id) => Ok(id.clone()),
                    None => Err(SsoError::plain(SsoErrorKind::NoUserId)),
                }
            }
        },
    }
}

/// The id of the first user in the reply to [`find_user_by_email_request`].
pub fn read_user_id(email: &str, reply: HttpReply) -> (res: Result<String, SsoError>)
    ensures
        text_result(res) == found_user_spec(email@, reply),
{
    match reply {
        HttpReply::Failed(error) => Err(SsoError { kind: SsoErrorKind::Transport, detail: error }),
        HttpReply::Refused(body) => Err(SsoError { kind: SsoErrorKind::FindUser, detail: body }),
        HttpReply::Accepted(body) => first_user_id(
            email,
            json::list_members(body.as_slice(), "id"),
        ),
    }
}

/// The request to end all sessions of a user.
pub open spec fn logout_user_request_spec(
    admin_base_url: Seq<char>,
    admin_token: Seq<char>,
    user_id: Seq<char>,
) -> HttpRequestView {
    HttpRequestView {
        method: Method::Post,
        url: admin_base_url + "/users/"@ + user_id + "/logout"@,
        headers: admin_headers(admin_token),
        form: Seq::empty(),
        json: Seq::empty(),
    }
}

/// The request to end all sessions of a user.
pub fn logout_user_sessions_request(admin_base_url: &str, admin_token: &str, user_id: &str) -> (request:
    HttpRequest)
    ensures
        request@ == logout_user_request_spec(admin_base_url@, admin_token@, user_id@),
{
    let url = admin_base_url.to_owned().concat("/users/").concat(user_id).concat("/logout");
    let request = admin_request(Method::Post, url, admin_token, Vec::new());
    assert(request@.json =~= Seq::empty());
    request
}

/// What comes of the request to end all sessions: it counts as done as soon as
/// Keycloak has replied, whatever the reply.
pub open spec fn logout_user_reply_spec(reply: HttpReply) -> Result<(), SsoErrorView> {
    match reply {
        HttpReply::Failed(error) => Err(
            SsoErrorView { kind: SsoErrorKind::Transport, detail: error@ },
        ),
        _ => Ok(()),
    }
}

/// What the reply to [`logout_user_sessions_request`] means.
pub fn read_logout_user_sessions(reply: HttpReply) -> (res: Result<(), SsoError>)
    ensures
        unit_result(res) == logout_user_reply_spec(reply),
{
    match reply {
        HttpReply::Failed(error) => Err(SsoError { kind: SsoErrorKind::Transport, detail: error }),
        _ => Ok(()),
    }
}

/// An issuer path `.../realms/{realm}` names the realm.
pub proof fn paths_name_their_realm(issuer: Seq<char>, head: Seq<char>, realm: Seq<char>)
    requires
        realm.len() > 0,
        !realm.contains('/'),
    ensures
        realm_in_path(issuer, Ok(head + "/realms/"@ + realm)) == Ok::<Seq<char>, SsoErrorView>(
            realm,
        ),
{
    reveal_strlit("/realms/");
    let pattern = "/realms/"@;
    let path = head + pattern + realm;
    let at = head.len() as int;
    assert(path.subrange(at, at + pattern.len()) =~= pattern);
    assert forall|j: int| at < j implies !occurs_at(path, pattern, j) by {
        if occurs_at(path, pattern, j) {
            assert(path.subrange(j, j + pattern.len())[7] == pattern[7]);
            assert(path[j + 7] == '/');
            assert(path[j + 7] == realm[j + 7 - at - 8]);
        }
    }
    text::lemma_after_last(path, pattern, at);
    assert(path.subrange(at + pattern.len(), path.len() as int) =~= realm);
}

/// The admin API of `{prefix}/realms/{realm}{tail}` is
/// `{prefix}/admin/realms/{realm}{tail}`, where the issuer holds
/// `/realms/{realm}` only once and before its query.
pub proof fn admin_api_stands_beside_the_realm(
    prefix: Seq<char>,
    realm: Seq<char>,
    tail: Seq<char>,
)
    requires
        issuer_realm(prefix + ("/realms/"@ + realm) + tail) == Ok::<Seq<char>, SsoErrorView>(realm),
        !(prefix + ("/realms/"@ + realm)).contains('?'),
        !(prefix + ("/realms/"@ + realm)).contains('#'),
        forall|j: int|
            j != prefix.len() ==> !occurs_at(
                prefix + ("/realms/"@ + realm) + tail,
                "/realms/"@ + realm,
                j,
            ),
    ensures
        admin_base(prefix + ("/realms/"@ + realm) + tail) == Ok::<Seq<char>, SsoErrorView>(
            prefix + ("/admin/realms/"@ + realm) + tail,
        ),
{
    reveal_strlit("/realms/");
    let from = "/realms/"@ + realm;
    let to = "/admin/realms/"@ + realm;
    let issuer = prefix + from + tail;
    let at = prefix.len() as int;
    text::lemma_address_part_of(prefix + from, tail);
    assert(address_part_spec(issuer).subrange(at, at + from.len()) =~= from);
    assert(occurs_at(address_part_spec(issuer), from, at));
    assert(issuer.subrange(at, at + from.len()) =~= from);
    text::lemma_replace_first(issuer, from, to, at);
    assert(issuer.skip(at + from.len()) =~= tail);
    assert(issuer.take(at) =~= prefix);
    assert forall|j: int| !occurs_at(tail, from, j) by {
        if occurs_at(tail, from, j) {
            let k = j + at + from.len();
            assert(issuer.subrange(k, k + from.len()) =~= tail.subrange(j, j + from.len()));
            assert(occurs_at(issuer, from, k));
        }
    }
    text::lemma_replace_nothing(tail, from, to);
}

/// An issuer has an address of the admin API if and only if it names a realm,
/// and else the same error.
pub proof fn realms_have_an_admin_api(issuer: Seq<char>)
    ensures
        admin_base(issuer) is Ok <==> issuer_realm(issuer) is Ok,
        issuer_realm(issuer) matches Err(error) ==> admin_base(issuer) == Err::<
            Seq<char>,
            SsoErrorView,
        >(error),
{
}

/// The address of the admin API holds `/admin/realms/{realm}`, however the
/// issuer is written.
pub proof fn admin_addresses_have_the_admin_form(issuer: Seq<char>, realm: Seq<char>)
    requires
        issuer_realm(issuer) == Ok::<Seq<char>, SsoErrorView>(realm),
    ensures
        admin_base(issuer) is Ok,
        exists|at: int|
            #[trigger] occurs_at(admin_base(issuer)->Ok_0, "/admin/realms/"@ + realm, at),
{
    reveal_strlit("/realms/");
    let from = "/realms/"@ + realm;
    let to = "/admin/realms/"@ + realm;
    let (before, path, after) = url_split(issuer)->Ok_0;
    if stands_in_address(issuer, from) {
        let at = choose|at: int| occurs_at(address_part_spec(issuer), from, at);
        text::lemma_address_part(issuer);
        assert(issuer.subrange(at, at + from.len()) =~= address_part_spec(issuer).subrange(
            at,
            at + from.len(),
        ));
        text::lemma_replacement_stands(issuer, from, to, at);
        let i = choose|i: int| occurs_at(replace_all_spec(issuer, from, to), to, i);
        assert(occurs_at(admin_base(issuer)->Ok_0, to, i));
    } else {
        lemma_realm_ends_path(path, realm);
        let base = before + admin_path(path) + after;
        let at = before.len() + path.len() - realm.len() - 8;
        assert(base.subrange(at, at + to.len()) =~= to);
        assert(occurs_at(admin_base(issuer)->Ok_0, to, at));
    }
}

/// The admin API of a realm names the same realm: a path keeps its realm when
/// `/admin` is put in, so an address whose path has it put in names the realm
/// too.
pub proof fn the_admin_api_names_the_realm(issuer: Seq<char>, path: Seq<char>, realm: Seq<char>)
    requires
        realm_in_path(issuer, Ok(path)) == Ok::<Seq<char>, SsoErrorView>(realm),
    ensures
        realm_in_path(issuer, Ok(admin_path(path))) == Ok::<Seq<char>, SsoErrorView>(realm),
        forall|base: Seq<char>|
            url_path(base) == Ok::<Seq<char>, Seq<char>>(admin_path(path)) ==> #[trigger] issuer_realm(
                base,
            ) == Ok::<Seq<char>, SsoErrorView>(realm),
{
    reveal_strlit("/realms/");
    reveal_strlit("/admin/realms/");
    let pattern = "/realms/"@;
    lemma_realm_ends_path(path, realm);
    let at = path.len() - realm.len() - 8;
    let longer = admin_path(path);
    assert(longer.subrange(at + 6, at + 14) =~= pattern);
    assert forall|j: int| at + 6 < j implies !occurs_at(longer, pattern, j) by {
        if occurs_at(longer, pattern, j) {
            assert(path.subrange(j - 6, j + 2) =~= longer.subrange(j, j + 8));
            assert(occurs_at(path, pattern, j - 6));
        }
    }
    text::lemma_after_last(longer, pattern, at + 6);
    assert(longer.subrange(at + 14, longer.len() as int) =~= realm);
}

/// Whatever reply Keycloak gives to the request to end a user's sessions, the
/// logout counts as done.
pub proof fn any_reply_ends_the_logout(reply: HttpReply)
    requires
        !(reply is Failed),
    ensures
        logout_user_reply_spec(reply) is Ok,
{
}

/// The realm of an issuer is all that follows the last `/realms/` of its path, and
/// must not be empty. An issuer without one names no realm, and what is no URL
/// has none either.
pub proof fn realms_follow_the_last_segment(
    issuer: Seq<char>,
    head: Seq<char>,
    realm: Seq<char>,
    path: Seq<char>,
    error: Seq<char>,
)
    ensures
        (forall|j: int|
            head.len() < j <= head.len() + realm.len() ==> #[trigger] (head + "/realms/"@
                + realm).subrange(j, j + 8) != "/realms/"@) ==> realm_in_path(
            issuer,
            Ok(head + "/realms/"@ + realm),
        ) == (if realm.len() > 0 {
            Ok::<Seq<char>, SsoErrorView>(realm)
        } else {
            Err(SsoErrorView { kind: SsoErrorKind::EmptyRealm, detail: Seq::empty() })
        }),
        (forall|j: int|
            0 <= j <= path.len() - 8 ==> #[trigger] path.subrange(j, j + 8) != "/realms/"@)
            ==> realm_in_path(issuer, Ok(path)) == Err::<Seq<char>, SsoErrorView>(
            SsoErrorView { kind: SsoErrorKind::NoRealm, detail: issuer },
        ),
        realm_in_path(issuer, Err(error)) == Err::<Seq<char>, SsoErrorView>(
            SsoErrorView { kind: SsoErrorKind::IssuerUrl, detail: error },
        ),
{
    reveal_strlit("/realms/");
    text::the_last_occurrence_decides(head, "/realms/"@, realm, path);
}

/// The realm of an issuer is that of the path which the issuer has as a URL.
pub proof fn issuers_are_read_as_urls(issuer: Seq<char>)
    ensures
        url_split(issuer) matches Ok((_, path, _)) ==> issuer_realm(issuer) == realm_in_path(
            issuer,
            Ok(path),
        ),
        url_split(issuer) matches Err(error) ==> issuer_realm(issuer) == Err::<
            Seq<char>,
            SsoErrorView,
        >(SsoErrorView { kind: SsoErrorKind::IssuerUrl, detail: error }) && admin_base(issuer)
            == Err::<Seq<char>, SsoErrorView>(
            SsoErrorView { kind: SsoErrorKind::IssuerUrl, detail: error },
        ),
{
}

/// The address of the admin API is the issuer's with `/admin` put in front of
/// `/realms/{realm}`, wherever that stands in the text; and where the text does
/// not hold the realm as the path does, in front of the last `/realms/` of the
/// path, with the rest of the URL as it is.
pub proof fn admin_addresses_put_admin_in(
    issuer: Seq<char>,
    before: Seq<char>,
    head: Seq<char>,
    realm: Seq<char>,
    after: Seq<char>,
    at: int,
)
    requires
        realm.len() > 0,
        forall|j: int|
            head.len() < j <= head.len() + realm.len() ==> #[trigger] (head + "/realms/"@
                + realm).subrange(j, j + 8) != "/realms/"@,
        url_split(issuer) == Ok::<(Seq<char>, Seq<char>, Seq<char>), Seq<char>>(
            (before, head + "/realms/"@ + realm, after),
        ),
    ensures
        0 <= at <= address_part_spec(issuer).len() - realm.len() - 8 && address_part_spec(
            issuer,
        ).subrange(at, at + 8 + realm.len()) == "/realms/"@ + realm ==> admin_base(issuer) == Ok::<
            Seq<char>,
            SsoErrorView,
        >(
            replace_all_spec(issuer, "/realms/"@ + realm, "/admin/realms/"@ + realm),
        ),
        (forall|i: int|
            0 <= i <= address_part_spec(issuer).len() - realm.len() - 8
                ==> #[trigger] address_part_spec(issuer).subrange(i, i + 8 + realm.len())
                != "/realms/"@ + realm) ==> admin_base(issuer) == Ok::<Seq<char>, SsoErrorView>(
            before + (head + "/admin/realms/"@ + realm) + after,
        ),
{
    reveal_strlit("/realms/");
    reveal_strlit("/admin/realms/");
    let path = head + "/realms/"@ + realm;
    let from = "/realms/"@ + realm;
    let part = address_part_spec(issuer);
    realms_follow_the_last_segment(issuer, head, realm, path, Seq::empty());
    text::the_last_occurrence_decides(head, "/realms/"@, realm, path);
    assert(after_last_spec(path, "/realms/"@) == Some(realm));
    assert(path.take(path.len() - realm.len() - 8) =~= head);
    assert(admin_path(path) =~= head + "/admin/realms/"@ + realm);
    if stands_in_address(issuer, from) {
        let i = choose|i: int| occurs_at(part, from, i);
        assert(part.subrange(i, i + 8 + realm.len()) == from);
    }
    if 0 <= at <= part.len() - realm.len() - 8 && part.subrange(at, at + 8 + realm.len()) == from {
        assert(occurs_at(part, from, at));
    }
}

/// What is sent to Keycloak: the client's credentials to the issuer's token
/// endpoint; the email, as a query of `users` under the admin API; and the user's
/// id, to the user's `logout` under the admin API.
pub proof fn requests_go_to_their_endpoints(
    issuer: Seq<char>,
    client_id: Seq<char>,
    client_secret: Seq<char>,
    base: Seq<char>,
    token: Seq<char>,
    email: Seq<char>,
    user_id: Seq<char>,
)
    ensures
        ({
            let request = admin_token_request_spec(issuer, client_id, client_secret);
            &&& request.method is Post
            &&& request.url == issuer + "/protocol/openid-connect/token"@
            &&& request.headers.len() == 0 && request.json.len() == 0
            &&& request.form =~= seq![
                ("grant_type"@, "client_credentials"@),
                ("client_id"@, client_id),
                ("client_secret"@, client_secret),
            ]
        }),
        match url_extended(base, "users"@, "email"@, email) {
            Ok(Some(url)) => find_user_request_spec(base, token, email) matches Ok(request)
                && request.method is Get && request.url == url && request.form.len() == 0
                && request.json.len() == 0 && request.headers =~= seq![
                ("Authorization"@, "Bearer "@ + token),
                ("Content-Type"@, "application/json"@),
            ],
            Ok(None) => find_user_request_spec(base, token, email) matches Err(error) && error.kind
                == SsoErrorKind::AdminBaseUrlIsNoBase && error.detail.len() == 0,
            Err(detail) => find_user_request_spec(base, token, email) matches Err(error)
                && error.kind == SsoErrorKind::AdminBaseUrl && error.detail == detail,
        },
        ({
            let request = logout_user_request_spec(base, token, user_id);
            &&& request.method is Post
            &&& request.url == base + "/users/"@ + user_id + "/logout"@
            &&& request.form.len() == 0 && request.json.len() == 0
            &&& request.headers =~= seq![
                ("Authorization"@, "Bearer "@ + token),
                ("Content-Type"@, "application/json"@),
            ]
        }),
{
}

/// What a reply of Keycloak means: the access token of an accepted reply, the id
/// of the first user of an accepted list, or what is wrong. A failed request is
/// its own error, a refused one is told with the body.
pub proof fn replies_mean_what_they_hold(email: Seq<char>, reply: HttpReply)
    ensures
        reply matches HttpReply::Failed(detail) ==> {
            let error = SsoErrorView { kind: SsoErrorKind::Transport, detail: detail@ };
            &&& admin_token_spec(reply) == Err::<Seq<char>, SsoErrorView>(error)
            &&& found_user_spec(email, reply) == Err::<Seq<char>, SsoErrorView>(error)
            &&& logout_user_reply_spec(reply) == Err::<(), SsoErrorView>(error)
        },
        reply matches HttpReply::Refused(body) ==> {
            &&& admin_token_spec(reply) == Err::<Seq<char>, SsoErrorView>(
                SsoErrorView { kind: SsoErrorKind::AdminToken, detail: body@ },
            )
            &&& found_user_spec(email, reply) == Err::<Seq<char>, SsoErrorView>(
                SsoErrorView { kind: SsoErrorKind::FindUser, detail: body@ },
            )
            &&& logout_user_reply_spec(reply) is Ok
        },
        reply matches HttpReply::Accepted(body) ==> {
            &&& logout_user_reply_spec(reply) is Ok
            &&& match json_member(body@, "access_token"@) {
                Ok(Some(token)) => admin_token_spec(reply) == Ok::<Seq<char>, SsoErrorView>(token),
                Ok(None) => admin_token_spec(reply) matches Err(error) && error.kind
                    == SsoErrorKind::NoAccessToken && error.detail.len() == 0,
                Err(detail) => admin_token_spec(reply) matches Err(error) && error.kind
                    == SsoErrorKind::Reply && error.detail == detail,
            }
            &&& match json_list_members(body@, "id"@) {
                Ok(ids) => if ids.len() == 0 {
                    found_user_spec(email, reply) matches Err(error) && error.kind
                        == SsoErrorKind::UserNotFound && error.detail == email
                } else if ids[0] is Some {
                    found_user_spec(email, reply) == Ok::<Seq<char>, SsoErrorView>(ids[0]->0)
                } else {
                    found_user_spec(email, reply) matches Err(error) && error.kind
                        == SsoErrorKind::NoUserId && error.detail.len() == 0
                },
                Err(detail) => found_user_spec(email, reply) matches Err(error) && error.kind
                    == SsoErrorKind::Reply && error.detail == detail,
            }
        },
{
}

/// Results are taken as they are: what succeeds with what it gives, and what fails
/// with its kind and its particulars.
pub proof fn results_are_taken_as_they_are(
    text: String,
    request: HttpRequest,
    error: SsoError,
)
    ensures
        text_result(Ok(text)) == Ok::<Seq<char>, SsoErrorView>(text@),
        request_result(Ok(request)) == Ok::<HttpRequestView, SsoErrorView>(request@),
        unit_result(Ok(())) is Ok,
        ({
            let view = SsoErrorView { kind: error.kind, detail: error.detail@ };
            &&& text_result(Err(error)) == Err::<Seq<char>, SsoErrorView>(view)
            &&& request_result(Err(error)) == Err::<HttpRequestView, SsoErrorView>(view)
            &&& unit_result(Err(error)) == Err::<(), SsoErrorView>(view)
        }),
{
}

} // verus!
