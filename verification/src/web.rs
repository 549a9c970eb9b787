//! Requests, responses and addresses as plain values.

use vstd::prelude::*;

use crate::error::{any_error, AnyError};
use crate::text::{decimal, glued};

verus! {

/// An address, taken apart.
#[derive(Debug)]
pub struct Url {
    pub text: String,
    pub scheme: String,
    pub host: Option<String>,
    pub port: Option<u16>,
    pub path: String,
    pub query_pairs: Vec<(String, String)>,
}

/// An address, with every text taken by its characters. The port is the one that is meant
/// where none is written.
pub struct UrlView {
    pub text: Seq<char>,
    pub scheme: Seq<char>,
    pub host: Option<Seq<char>>,
    pub port: Option<u16>,
    pub path: Seq<char>,
    pub query_pairs: Seq<(Seq<char>, Seq<char>)>,
}

/// Names and values, with every text taken by its characters.
pub open spec fn pairs_view(pairs: Seq<(String, String)>) -> Seq<(Seq<char>, Seq<char>)> {
    pairs.map_values(|pair: (String, String)| (pair.0@, pair.1@))
}

impl View for Url {
    type V = UrlView;

    open spec fn view(&self) -> UrlView {
        UrlView {
            text: self.text@,
            scheme: self.scheme@,
            host: self.host.deep_view(),
            port: self.port,
            path: self.path@,
            query_pairs: pairs_view(self.query_pairs@),
        }
    }
}

/// What came of a text, as the address or as the complaint about it.
pub open spec fn url_view(url: Result<Url, String>) -> Result<UrlView, Seq<char>> {
    match url {
        Ok(url) => Ok(url@),
        Err(message) => Err(message@),
    }
}

/// What `reqwest::Url::parse` makes of a text.
pub uninterp spec fn url_parsed(text: Seq<char>) -> Result<UrlView, Seq<char>>;

/// What `reqwest::Url::join` makes of a reference, seen from a base address.
pub uninterp spec fn url_joined(base: Seq<char>, reference: Seq<char>) -> Result<
    UrlView,
    Seq<char>,
>;

/// Calls `reqwest::Url::parse` and takes the address apart. How an address is read is left
/// to the URL standard; the claim is that the text alone decides.
#[verifier::external_body]
fn parse_url(text: &str) -> (url: Result<Url, String>)
    ensures
        url_view(url) == url_parsed(text@),
{
    let url = reqwest::Url::parse(text).map_err(|error| error.to_string())?;
    Ok(
        Url {
            text: url.as_str().to_owned(),
            scheme: url.scheme().to_owned(),
            host: url.host_str().map(str::to_owned),
            port: url.port_or_known_default(),
            path: url.path().to_owned(),
            query_pairs: url.query_pairs().into_owned().collect(),
        },
    )
}

/// Calls `reqwest::Url::join` on the base address and takes the outcome apart. How a
/// reference is resolved is left to the URL standard; the claim is that the two texts alone
/// decide.
#[verifier::external_body]
fn join_url(base: &str, reference: &str) -> (url: Result<Url, String>)
    ensures
        url_view(url) == url_joined(base@, reference@),
{
    let base = reqwest::Url::parse(base).map_err(|error| error.to_string())?;
    let url = base.join(reference).map_err(|error| error.to_string())?;
    Ok(
        Url {
            text: url.as_str().to_owned(),
            scheme: url.scheme().to_owned(),
            host: url.host_str().map(str::to_owned),
            port: url.port_or_known_default(),
            path: url.path().to_owned(),
            query_pairs: url.query_pairs().into_owned().collect(),
        },
    )
}

impl Url {
    /// Reads an address.
    pub fn parse(text: &str) -> (url: Result<Url, String>)
        ensures
            url_view(url) == url_parsed(text@),
    {
        parse_url(text)
    }
}

/// Whether the number can be the status of a response.
pub open spec fn is_status(status: u16) -> bool {
    100 <= status < 1000
}

/// Whether the status says that the request succeeded.
pub open spec fn is_success(status: u16) -> bool {
    200 <= status < 300
}

/// Whether the status sends the client to another address.
pub open spec fn is_redirection(status: u16) -> bool {
    300 <= status < 400
}

/// Whether the status says that the request succeeded.
pub fn succeeded(status: u16) -> (yes: bool)
    ensures
        yes == is_success(status),
{
    200 <= status && status < 300
}

/// Whether the status sends the client to another address.
pub fn redirects(status: u16) -> (yes: bool)
    ensures
        yes == is_redirection(status),
{
    300 <= status && status < 400
}

/// The status as `reqwest::StatusCode` displays it.
pub uninterp spec fn status_display(status: u16) -> Seq<char>;

/// Calls the `Display` of `reqwest::StatusCode`: the number, a space, and the phrase that
/// goes with it. Which phrase that is, is left to the table of the HTTP standard.
#[verifier::external_body]
fn display_status(status: u16) -> (text: String)
    requires
        is_status(status),
    ensures
        text@ == status_display(status),
        (decimal(status as nat) + " "@).is_prefix_of(text@),
{
    reqwest::StatusCode::from_u16(status).unwrap().to_string()
}

/// The error for a response whose status is not the one that was hoped for.
pub fn status_error(complaint: &str, status: u16) -> (error: AnyError)
    requires
        is_status(status),
    ensures
        error@ == complaint@ + status_display(status),
        (complaint@ + decimal(status as nat) + " "@).is_prefix_of(error@),
{
    let text = display_status(status);
    let ghost shown = decimal(status as nat) + " "@;
    let message = glued(complaint, text.as_str());
    proof {
        let start = complaint@ + decimal(status as nat) + " "@;
        assert(start == complaint@ + shown);
        assert(message@.subrange(0, start.len() as int) == start) by {
            assert(message@ == complaint@ + text@);
            assert(text@.subrange(0, shown.len() as int) == shown);
            assert(message@.subrange(0, start.len() as int) == complaint@ + text@.subrange(
                0,
                shown.len() as int,
            ));
        }
    }
    any_error(message.as_str())
}

/// A request that is to be sent.
#[derive(Debug)]
pub enum HttpRequest {
    Get { url: String, query: Vec<(String, String)> },
    PostForm { url: String, form: Vec<(String, String)> },
}

/// A request, with every text taken by its characters.
pub enum RequestView {
    Get { url: Seq<char>, query: Seq<(Seq<char>, Seq<char>)> },
    PostForm { url: Seq<char>, form: Seq<(Seq<char>, Seq<char>)> },
}

impl View for HttpRequest {
    type V = RequestView;

    open spec fn view(&self) -> RequestView {
        match self {
            HttpRequest::Get { url, query } => RequestView::Get {
                url: url@,
                query: pairs_view(query@),
            },
            HttpRequest::PostForm { url, form } => RequestView::PostForm {
                url: url@,
                form: pairs_view(form@),
            },
        }
    }
}

/// Puts a name with its value behind the others.
pub fn add_pair(pairs: &mut Vec<(String, String)>, name: &str, value: &str)
    ensures
        pairs_view(final(pairs)@) == pairs_view(old(pairs)@).push((name@, value@)),
{
    pairs.push((name.to_owned(), value.to_owned()));
    assert(pairs_view(pairs@) == pairs_view(old(pairs)@).push((name@, value@)));
}

/// What the login needs of a response: its status, the address that it came from, and the
/// bytes of its location header.
#[derive(Debug)]
pub struct HttpResponse {
    pub status: u16,
    pub url: Url,
    pub location: Option<Vec<u8>>,
}

/// Whether the byte is printable ASCII or a tab.
pub open spec fn is_visible(byte: u8) -> bool {
    32 <= byte < 127 || byte == 9
}

/// The text of a header, where all of it is printable ASCII or tabs.
pub open spec fn header_text(bytes: Seq<u8>) -> Option<Seq<char>> {
    if forall|i: int| 0 <= i < bytes.len() ==> is_visible(#[trigger] bytes[i]) {
        Some(bytes.map_values(|byte: u8| byte as char))
    } else {
        None
    }
}

/// Reads the text of a header.
pub fn header_string(bytes: &Vec<u8>) -> (text: Option<String>)
    ensures
        text.deep_view() == header_text(bytes@),
{
    let mut text = String::new();
    for i in 0..bytes.len()
        invariant
            forall|j: int| 0 <= j < i ==> is_visible(#[trigger] bytes@[j]),
            text@ == bytes@.take(i as int).map_values(|byte: u8| byte as char),
    {
        let byte = bytes[i];
        if !((32 <= byte && byte < 127) || byte == 9) {
            assert(!is_visible(bytes@[i as int]));
            return None;
        }
        text.push(byte as char);
        assert(text@ == bytes@.take(i + 1).map_values(|byte: u8| byte as char));
    }
    assert(bytes@.take(bytes.len() as int) == bytes@);
    Some(text)
}

/// What came of a redirect, given what its location came to on its own and from the address
/// of the response.
pub open spec fn resolved(
    parsed: Result<UrlView, Seq<char>>,
    relative: Result<UrlView, Seq<char>>,
) -> Result<UrlView, Seq<char>> {
    match parsed {
        Ok(url) => Ok(url),
        Err(_) => match relative {
            Ok(url) => Ok(url),
            Err(message) => Err("invalid ITMO redirect: "@ + message),
        },
    }
}

/// Where the response sends the client.
pub open spec fn redirect_target(base: Seq<char>, location: Option<Seq<u8>>) -> Result<
    UrlView,
    Seq<char>,
> {
    match location {
        None => Err("ITMO redirect has no location"@),
        Some(bytes) => match header_text(bytes) {
            None => Err("ITMO redirect location is not valid text"@),
            Some(text) => resolved(url_parsed(text), url_joined(base, text)),
        },
    }
}

/// An address that was found, or the complaint in its place.
pub open spec fn found_url(url: Result<Url, AnyError>) -> Result<UrlView, Seq<char>> {
    match url {
        Ok(url) => Ok(url@),
        Err(error) => Err(error@),
    }
}

/// Takes the location on its own, or else from the address of the response.
pub fn resolve_redirect(parsed: Result<Url, String>, relative: Result<Url, String>) -> (url: Result<
    Url,
    AnyError,
>)
    ensures
        found_url(url) == resolved(url_view(parsed), url_view(relative)),
{
    match parsed {
        Ok(url) => Ok(url),
        Err(_) => match relative {
            Ok(url) => Ok(url),
            Err(message) => Err(
                any_error(glued("invalid ITMO redirect: ", message.as_str()).as_str()),
            ),
        },
    }
}

/// Finds out where the response sends the client.
pub fn redirect_url(response: &HttpResponse) -> (url: Result<Url, AnyError>)
    ensures
        found_url(url) == redirect_target(response.url.text@, response.location.deep_view()),
{
    match &response.location {
        None => Err(any_error("ITMO redirect has no location")),
        Some(bytes) => {
            assert(bytes.deep_view() == bytes@);
            match header_string(bytes) {
                None => Err(any_error("ITMO redirect location is not valid text")),
                Some(location) => {
                    let parsed = parse_url(location.as_str());
                    let relative = join_url(response.url.text.as_str(), location.as_str());
                    resolve_redirect(parsed, relative)
                },
            }
        },
    }
}

} // verus!
