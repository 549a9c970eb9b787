//! The edge of the service: who may see the calendar, what is answered, and what the command
//! line asks for.

use vstd::prelude::*;
use vstd::utf8::encode_utf8;

use crate::cache::{CalendarPayload, CalendarPayloadView};
use crate::error::{any_error, outcome, AnyError};
use crate::text::{chars_of, glued, same_text};
use crate::web::{add_pair, pairs_view};

verus! {

/// The byte at the position, or zero behind the end.
fn byte_or_zero(bytes: &[u8], position: usize) -> (byte: u8)
    ensures
        byte == if position < bytes@.len() {
            bytes@[position as int]
        } else {
            0
        },
{
    if position < bytes.len() {
        bytes[position]
    } else {
        0
    }
}

/// Whether the bytes are the same. All bytes are looked at, whether or not some were found
/// to differ.
pub fn constant_time_eq(left: &[u8], right: &[u8]) -> (same: bool)
    ensures
        same == (left@ == right@),
{
    let max_len = if left.len() > right.len() {
        left.len()
    } else {
        right.len()
    };
    let left_len = left.len();
    let right_len = right.len();
    let mut difference: usize = left_len ^ right_len;
    assert(left_len ^ right_len == 0 <==> left_len == right_len) by (bit_vector);
    for index in 0..max_len
        invariant
            left_len == left@.len(),
            right_len == right@.len(),
            max_len >= left_len,
            max_len >= right_len,
            difference == 0 ==> left_len == right_len,
            difference == 0 ==> forall|i: int| 0 <= i < index && i < left_len ==> left@[i] == right@[i],
            left@ == right@ ==> difference == 0,
    {
        let left_byte = byte_or_zero(left, index);
        let right_byte = byte_or_zero(right, index);
        let byte: u8 = left_byte ^ right_byte;
        let bits: usize = byte as usize;
        let before = difference;
        difference = before | bits;
        proof {
            assert(before | bits == 0 <==> before == 0 && bits == 0) by (bit_vector);
            assert(left_byte ^ right_byte == 0 <==> left_byte == right_byte) by (bit_vector);
        }
    }
    if difference == 0 {
        assert(left@ == right@);
    }
    difference == 0
}

/// The file name without its ending, if it has that ending.
pub open spec fn stripped(name: Seq<char>, ending: Seq<char>) -> Option<Seq<char>> {
    if ending.is_suffix_of(name) {
        Some(name.take(name.len() - ending.len()))
    } else {
        None
    }
}

/// Takes the ending off a file name.
fn strip_suffix(name: &str, ending: &str) -> (rest: Option<String>)
    ensures
        rest.deep_view() == stripped(name@, ending@),
{
    let chars = chars_of(name);
    let last = chars_of(ending);
    if last.len() > chars.len() {
        return None;
    }
    let kept = chars.len() - last.len();
    for i in 0..last.len()
        invariant
            chars@ == name@,
            last@ == ending@,
            kept + last.len() == chars.len(),
            forall|j: int| 0 <= j < i ==> name@[kept + j] == ending@[j],
    {
        if chars[kept + i] != last[i] {
            assert(name@.subrange(name@.len() - ending@.len(), name@.len() as int)[i as int]
                != ending@[i as int]);
            return None;
        }
    }
    assert(name@.subrange(name@.len() - ending@.len(), name@.len() as int) == ending@);
    let mut rest = String::new();
    for i in 0..kept
        invariant
            chars@ == name@,
            kept <= chars.len(),
            rest@ == name@.take(i as int),
    {
        rest.push(chars[i]);
        assert(rest@ == name@.take(i + 1));
    }
    Some(rest)
}

/// Whether the file is the one that the secret word names.
pub open spec fn is_calendar_file(calendar_file: Seq<char>, calendar_token: Seq<char>) -> bool {
    calendar_file == calendar_token + ".ics"@
}

/// Whether a request for the file may see the calendar: the file has to be named by the
/// secret word.
pub fn may_see_calendar(calendar_file: &str, calendar_token: &str) -> (yes: bool)
    ensures
        yes == is_calendar_file(calendar_file@, calendar_token@),
{
    proof {
        let name = calendar_file@;
        let ending = ".ics"@;
        vstd::utf8::encode_utf8_decode_utf8(calendar_token@);
        if ending.is_suffix_of(name) {
            let rest = name.take(name.len() - ending.len());
            vstd::utf8::encode_utf8_decode_utf8(rest);
            assert(name == rest + ending);
            assert((calendar_token@ + ending).take(calendar_token@.len() as int)
                == calendar_token@);
        } else if name == calendar_token@ + ending {
            assert(name.subrange(name.len() - ending.len(), name.len() as int) == ending);
        }
    }
    match strip_suffix(calendar_file, ".ics") {
        None => false,
        Some(token) => constant_time_eq(token.as_str().as_bytes(), calendar_token.as_bytes()),
    }
}

/// An answer to a request.
#[derive(Debug)]
pub struct HttpReply {
    pub status: u16,
    pub headers: Vec<(String, String)>,
    pub body: String,
}

/// An answer, with every text taken by its characters.
pub struct HttpReplyView {
    pub status: u16,
    pub headers: Seq<(Seq<char>, Seq<char>)>,
    pub body: Seq<char>,
}

impl View for HttpReply {
    type V = HttpReplyView;

    open spec fn view(&self) -> HttpReplyView {
        HttpReplyView { status: self.status, headers: pairs_view(self.headers@), body: self.body@ }
    }
}

/// The answer to a request that may not see the calendar, as if there were none.
pub open spec fn not_found_reply() -> HttpReplyView {
    HttpReplyView { status: 404, headers: Seq::empty(), body: Seq::empty() }
}

/// The headers of a calendar.
pub open spec fn calendar_headers(stale: bool) -> Seq<(Seq<char>, Seq<char>)> {
    let headers = seq![
        ("content-type"@, "text/calendar; charset=utf-8"@),
        ("cache-control"@, "no-cache"@),
    ];
    if stale {
        headers.push(("warning"@, "110 - \"Response is stale\""@))
    } else {
        headers
    }
}

/// The answer that serves a calendar, or that says that there is none to serve.
pub open spec fn calendar_reply(served: Result<CalendarPayloadView, Seq<char>>) -> HttpReplyView {
    match served {
        Ok(payload) => HttpReplyView {
            status: 200,
            headers: calendar_headers(payload.stale),
            body: payload.body,
        },
        Err(_) => HttpReplyView {
            status: 502,
            headers: Seq::empty(),
            body: "Schedule is temporarily unavailable"@,
        },
    }
}

/// Answers a request that may not see the calendar.
fn refuse() -> (reply: HttpReply)
    ensures
        reply@ == not_found_reply(),
{
    let headers: Vec<(String, String)> = Vec::new();
    assert(pairs_view(headers@) == Seq::<(Seq<char>, Seq<char>)>::empty());
    HttpReply { status: 404, headers, body: String::new() }
}

/// Lets a request for the file pass, or gives the answer that refuses it. A file without the
/// right ending and a wrong word are refused alike.
pub fn turn_away(calendar_file: &str, calendar_token: &str) -> (refusal: Option<HttpReply>)
    ensures
        refusal is None <==> is_calendar_file(calendar_file@, calendar_token@),
        refusal is Some ==> refusal->0@ == not_found_reply(),
{
    if may_see_calendar(calendar_file, calendar_token) {
        None
    } else {
        Some(refuse())
    }
}

/// Answers a request that may see the calendar.
pub fn serve(served: Result<CalendarPayload, AnyError>) -> (reply: HttpReply)
    ensures
        reply@ == calendar_reply(outcome(served)),
{
    let mut headers: Vec<(String, String)> = Vec::new();
    assert(pairs_view(headers@) == Seq::<(Seq<char>, Seq<char>)>::empty());
    match served {
        Ok(payload) => {
            add_pair(&mut headers, "content-type", "text/calendar; charset=utf-8");
            add_pair(&mut headers, "cache-control", "no-cache");
            if payload.stale {
                add_pair(&mut headers, "warning", "110 - \"Response is stale\"");
            }
            assert(pairs_view(headers@) == calendar_headers(payload.stale));
            HttpReply { status: 200, headers, body: payload.body }
        },
        Err(_) => HttpReply {
            status: 502,
            headers,
            body: "Schedule is temporarily unavailable".to_owned(),
        },
    }
}

/// Whether the service is well, by the first bytes that it answered with.
pub open spec fn is_healthy(response: Seq<u8>) -> bool {
    encode_utf8("HTTP/1.1 200"@).is_prefix_of(response)
}

/// What is complained about a service that is not well.
pub open spec fn health_complaint() -> Seq<char> {
    "healthcheck returned a non-200 response"@
}

/// Decides whether the service is well, by the first bytes that it answered with.
pub fn check_health(response: &[u8]) -> (health: Result<(), AnyError>)
    ensures
        health is Ok <==> is_healthy(response@),
        health is Err ==> health->Err_0@ == health_complaint(),
{
    let expected = "HTTP/1.1 200".as_bytes();
    if response.len() < expected.len() {
        return Err(any_error("healthcheck returned a non-200 response"));
    }
    for i in 0..expected.len()
        invariant
            expected@ == encode_utf8("HTTP/1.1 200"@),
            expected@.len() <= response@.len(),
            forall|j: int| 0 <= j < i ==> response@[j] == expected@[j],
    {
        if response[i] != expected[i] {
            assert(response@.subrange(0, expected@.len() as int)[i as int] != expected@[i as int]);
            return Err(any_error("healthcheck returned a non-200 response"));
        }
    }
    Ok(())
}

/// What the command line asks for.
#[derive(Debug)]
pub enum Command {
    Healthcheck,
    FetchApi { output: String },
    ConvertIcs { input: String, output: String },
    Serve,
}

/// What the command line asks for, with every text taken by its characters.
pub enum CommandView {
    Healthcheck,
    FetchApi { output: Seq<char> },
    ConvertIcs { input: Seq<char>, output: Seq<char> },
    Serve,
}

impl View for Command {
    type V = CommandView;

    open spec fn view(&self) -> CommandView {
        match self {
            Command::Healthcheck => CommandView::Healthcheck,
            Command::FetchApi { output } => CommandView::FetchApi { output: output@ },
            Command::ConvertIcs { input, output } => CommandView::ConvertIcs {
                input: input@,
                output: output@,
            },
            Command::Serve => CommandView::Serve,
        }
    }
}

/// The argument at the position, or what stands for it where it is missing.
pub open spec fn argument(arguments: Seq<Seq<char>>, position: int, default: Seq<char>) -> Seq<
    char,
> {
    if position < arguments.len() {
        arguments[position]
    } else {
        default
    }
}

/// What the arguments behind the name of the program ask for.
pub open spec fn command(arguments: Seq<Seq<char>>) -> Result<CommandView, Seq<char>> {
    if arguments.len() == 0 {
        Ok(CommandView::Serve)
    } else if arguments[0] == "healthcheck"@ {
        Ok(CommandView::Healthcheck)
    } else if arguments[0] == "fetch-api"@ {
        Ok(CommandView::FetchApi { output: argument(arguments, 1, "itmo-api.json"@) })
    } else if arguments[0] == "convert-ics"@ {
        Ok(
            CommandView::ConvertIcs {
                input: argument(arguments, 1, "itmo-api.json"@),
                output: argument(arguments, 2, "schedule.ics"@),
            },
        )
    } else {
        Err("unknown command: "@ + arguments[0])
    }
}

/// The argument at the position, or what stands for it where it is missing.
fn argument_or(arguments: &Vec<String>, position: usize, default: &str) -> (text: String)
    ensures
        text@ == argument(arguments.deep_view(), position as int, default@),
{
    if position < arguments.len() {
        arguments[position].clone()
    } else {
        default.to_owned()
    }
}

/// Reads the arguments behind the name of the program.
pub fn parse_command(arguments: &Vec<String>) -> (asked: Result<Command, AnyError>)
    ensures
        outcome(asked) == command(arguments.deep_view()),
{
    if arguments.len() == 0 {
        return Ok(Command::Serve);
    }
    let name = arguments[0].as_str();
    if same_text(name, "healthcheck") {
        Ok(Command::Healthcheck)
    } else if same_text(name, "fetch-api") {
        Ok(Command::FetchApi { output: argument_or(arguments, 1, "itmo-api.json") })
    } else if same_text(name, "convert-ics") {
        Ok(
            Command::ConvertIcs {
                input: argument_or(arguments, 1, "itmo-api.json"),
                output: argument_or(arguments, 2, "schedule.ics"),
            },
        )
    } else {
        Err(any_error(glued("unknown command: ", name).as_str()))
    }
}

} // verus!
