//! Taking URLs apart and extending them.
use url::{Position, Url};
use vstd::prelude::*;

verus! {

/// How long, in characters, the parts of a URL may be together. The parser
/// addresses URLs with 32 bits, and a character of a part can take up to about
/// a hundred places in the URL.
pub const URL_ROOM: usize = 0x0200_0000;

/// What `Url::parse` makes of a text: what stands before the path of the URL,
/// the path, and what follows it, or why the text is no URL.
pub uninterp spec fn url_split(text: Seq<char>) -> Result<
    (Seq<char>, Seq<char>, Seq<char>),
    Seq<char>,
>;

/// The path of the URL that a text is.
pub open spec fn url_path(text: Seq<char>) -> Result<Seq<char>, Seq<char>> {
    match url_split(text) {
        Ok((_, path, _)) => Ok(path),
        Err(error) => Err(error),
    }
}

/// What `Url::parse` makes of `base`, extended by a path segment and a query
/// parameter: the new URL, nothing if URLs like `base` cannot be extended, or
/// why `base` is no URL.
pub uninterp spec fn url_extended(
    base: Seq<char>,
    segment: Seq<char>,
    name: Seq<char>,
    value: Seq<char>,
) -> Result<Option<Seq<char>>, Seq<char>>;

/// A URL, taken apart around its path.
#[derive(Debug)]
pub struct UrlSplit {
    pub before: String,
    pub path: String,
    pub after: String,
}

/// The parts of a URL as values, or why the text is no URL.
pub open spec fn split_view(split: Result<UrlSplit, String>) -> Result<
    (Seq<char>, Seq<char>, Seq<char>),
    Seq<char>,
> {
    match split {
        Ok(url) => Ok((url.before@, url.path@, url.after@)),
        Err(error) => Err(error@),
    }
}

/// The parts of a URL, or why the text is no URL.
///
/// Calls `Url::parse` and `Url::path` of `url`, and slices the URL before and
/// after its path. Trusted: parts and error text are a function of the text
/// alone.
#[verifier::external_body]
pub(crate) fn split(text: &str) -> (split: Result<UrlSplit, String>)
    ensures
        split_view(split) == url_split(text@),
{
    match Url::parse(text) {
        Ok(url) => Ok(UrlSplit {
            before: url[..Position::BeforePath].to_owned(),
            path: url.path().to_owned(),
            after: url[Position::AfterPath..].to_owned(),
        }),
        Err(error) => Err(error.to_string()),
    }
}

/// `base` with another path segment and another query parameter.
///
/// Calls `Url::parse`, `Url::path_segments_mut`, `PathSegmentsMut::push`,
/// `Url::query_pairs_mut` and `Serializer::append_pair` of `url`. Trusted: the
/// new URL, or the error text, is a function of the four texts alone.
#[verifier::external_body]
pub(crate) fn extend(base: &str, segment: &str, name: &str, value: &str) -> (url: Result<
    Option<String>,
    String,
>)
    requires
        base@.len() + segment@.len() + name@.len() + value@.len() <= URL_ROOM,
    ensures
        match url {
            Ok(Some(url)) => url_extended(base@, segment@, name@, value@) == Ok::<
                Option<Seq<char>>,
                Seq<char>,
            >(Some(url@)),
            Ok(None) => url_extended(base@, segment@, name@, value@) == Ok::<
                Option<Seq<char>>,
                Seq<char>,
            >(None),
            Err(error) => url_extended(base@, segment@, name@, value@) == Err::<
                Option<Seq<char>>,
                Seq<char>,
            >(error@),
        },
{
    let mut url = Url::parse(base).map_err(|error| error.to_string())?;
    match url.path_segments_mut() {
        Ok(mut segments) => {
            segments.push(segment);
        }
        Err(()) => return Ok(None),
    }
    url.query_pairs_mut().append_pair(name, value);
    Ok(Some(url.to_string()))
}

/// The parts of a URL, and what is wrong with a text, are taken as they are.
pub proof fn parts_are_taken_as_they_are(url: UrlSplit, error: String, text: Seq<char>)
    ensures
        split_view(Ok(url)) == Ok::<(Seq<char>, Seq<char>, Seq<char>), Seq<char>>(
            (url.before@, url.path@, url.after@),
        ),
        split_view(Err(error)) == Err::<(Seq<char>, Seq<char>, Seq<char>), Seq<char>>(error@),
        url_split(text) matches Ok((_, path, _)) ==> url_path(text) == Ok::<Seq<char>, Seq<char>>(
            path,
        ),
        url_split(text) matches Err(error) ==> url_path(text) == Err::<Seq<char>, Seq<char>>(error),
{
}

} // verus!
