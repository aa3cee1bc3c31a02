//! Requests and replies, as far as decisions depend on them.
use vstd::prelude::*;

verus! {

#[derive(Clone, Copy, Debug, PartialEq, Eq, Structural)]
pub enum Method {
    Get,
    Post,
}

/// What a member of a JSON object holds.
#[derive(Debug)]
pub enum JsonField {
    Text(String),
    Flag(bool),
    Texts(Vec<String>),
}

/// What a member of a JSON object holds, as a value.
#[verifier::ext_equal]
pub enum JsonFieldView {
    Text(Seq<char>),
    Flag(bool),
    Texts(Seq<Seq<char>>),
}

impl View for JsonField {
    type V = JsonFieldView;

    open spec fn view(&self) -> JsonFieldView {
        match *self {
            JsonField::Text(text) => JsonFieldView::Text(text@),
            JsonField::Flag(flag) => JsonFieldView::Flag(flag),
            JsonField::Texts(texts) => JsonFieldView::Texts(
                Seq::new(texts@.len(), |i: int| texts@[i]@),
            ),
        }
    }
}

/// A request to be sent. It has a form or a JSON object as its body, or none.
#[derive(Debug)]
pub struct HttpRequest {
    pub method: Method,
    pub url: String,
    pub headers: Vec<(String, String)>,
    /// Fields of the form that is the body; no form if there are none.
    pub form: Vec<(String, String)>,
    /// Members of the JSON object that is the body; no object if there are none.
    pub json: Vec<(String, JsonField)>,
}

/// A request as a value.
#[verifier::ext_equal]
pub struct HttpRequestView {
    pub method: Method,
    pub url: Seq<char>,
    pub headers: Seq<(Seq<char>, Seq<char>)>,
    pub form: Seq<(Seq<char>, Seq<char>)>,
    pub json: Seq<(Seq<char>, JsonFieldView)>,
}

/// What came of a request.
#[derive(Debug)]
pub enum HttpReply {
    /// The request could not be sent, or its reply not be read.
    Failed(String),
    /// The reply has an error status; its body is given as text.
    Refused(String),
    /// The reply has a success status; its body is given.
    Accepted(Vec<u8>),
}

/// Names and values as values.
pub open spec fn pair_views(pairs: Seq<(String, String)>) -> Seq<(Seq<char>, Seq<char>)> {
    Seq::new(pairs.len(), |i: int| (pairs[i].0@, pairs[i].1@))
}

/// Names and JSON members as values.
pub open spec fn field_views(fields: Seq<(String, JsonField)>) -> Seq<(Seq<char>, JsonFieldView)> {
    Seq::new(fields.len(), |i: int| (fields[i].0@, fields[i].1@))
}

impl View for HttpRequest {
    type V = HttpRequestView;

    open spec fn view(&self) -> HttpRequestView {
        HttpRequestView {
            method: self.method,
            url: self.url@,
            headers: pair_views(self.headers@),
            form: pair_views(self.form@),
            json: field_views(self.json@),
        }
    }
}

/// The headers of a call of the admin API.
pub open spec fn admin_headers(token: Seq<char>) -> Seq<(Seq<char>, Seq<char>)> {
    seq![
        ("Authorization"@, "Bearer "@ + token),
        ("Content-Type"@, "application/json"@),
    ]
}

/// A request that carries the token of an administrator, with a JSON object as its
/// body if that has members.
pub(crate) fn admin_request(
    method: Method,
    url: String,
    token: &str,
    json: Vec<(String, JsonField)>,
) -> (request: HttpRequest)
    ensures
        request@ == (HttpRequestView {
            method,
            url: url@,
            headers: admin_headers(token@),
            form: Seq::empty(),
            json: field_views(json@),
        }),
{
    let mut headers: Vec<(String, String)> = Vec::new();
    headers.push(("Authorization".to_owned(), "Bearer ".to_owned().concat(token)));
    headers.push(("Content-Type".to_owned(), "application/json".to_owned()));
    let request = HttpRequest { method, url, headers, form: Vec::new(), json };
    assert(request@.headers =~= admin_headers(token@));
    assert(request@.form =~= Seq::empty());
    request
}

/// A posted form of three fields.
pub(crate) fn form_request(
    url: String,
    first: (&str, &str),
    second: (&str, &str),
    third: (&str, &str),
) -> (request: HttpRequest)
    ensures
        request@ == (HttpRequestView {
            method: Method::Post,
            url: url@,
            headers: Seq::empty(),
            form: seq![
                (first.0@, first.1@),
                (second.0@, second.1@),
                (third.0@, third.1@),
            ],
            json: Seq::empty(),
        }),
{
    let mut form: Vec<(String, String)> = Vec::new();
    form.push((first.0.to_owned(), first.1.to_owned()));
    form.push((second.0.to_owned(), second.1.to_owned()));
    form.push((third.0.to_owned(), third.1.to_owned()));
    let request = HttpRequest {
        method: Method::Post,
        url,
        headers: Vec::new(),
        form,
        json: Vec::new(),
    };
    assert(request@.headers =~= Seq::empty());
    assert(request@.json =~= Seq::empty());
    assert(request@.form =~= seq![
        (first.0@, first.1@),
        (second.0@, second.1@),
        (third.0@, third.1@),
    ]);
    request
}

/// A call of the admin API carries the token as a bearer and says that it is JSON.
pub proof fn admin_calls_carry_the_token(token: Seq<char>)
    ensures
        admin_headers(token).len() == 2,
        admin_headers(token)[0] == ("Authorization"@, "Bearer "@ + token),
        admin_headers(token)[1] == ("Content-Type"@, "application/json"@),
{
}

/// A request as a value has every pair of the request, in order.
pub proof fn requests_keep_their_pairs(request: HttpRequest, i: int)
    ensures
        request@.method == request.method,
        request@.url == request.url@,
        request@.headers.len() == request.headers@.len(),
        request@.form.len() == request.form@.len(),
        request@.json.len() == request.json@.len(),
        0 <= i < request.headers@.len() ==> request@.headers[i] == (
            request.headers@[i].0@,
            request.headers@[i].1@,
        ),
        0 <= i < request.form@.len() ==> request@.form[i] == (
            request.form@[i].0@,
            request.form@[i].1@,
        ),
        0 <= i < request.json@.len() ==> request@.json[i].0 == request.json@[i].0@ && (
        match request.json@[i].1 {
            JsonField::Text(text) => request@.json[i].1 == JsonFieldView::Text(text@),
            JsonField::Flag(flag) => request@.json[i].1 == JsonFieldView::Flag(flag),
            JsonField::Texts(texts) => request@.json[i].1 matches JsonFieldView::Texts(kept)
                && kept.len() == texts@.len() && forall|j: int|
                0 <= j < texts@.len() ==> #[trigger] kept[j] == texts@[j]@,
        }),
{
}

} // verus!
