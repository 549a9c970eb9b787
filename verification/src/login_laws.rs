//! What a login comes to, whatever the provider answers.

use vstd::prelude::*;
use vstd::utf8::encode_utf8;

use crate::auth::{
    after_page, after_response, authorization_code, authorization_request, awaits_response,
    challenge_for, credentials_request, decoded_address, is_callback, is_given_up, is_kept,
    json_string, kept_token, last_value, login_action, quoted_address, regex_group, stepped,
    token_request, usable_token, AuthClient, CachedTokenView, LoginAction, LoginActionView,
    LoginStage, LoginView, TokenResponse, LOGIN_ACTION_PATTERN,
};
use crate::codes::{base64_url, sha256};
use crate::error::AnyError;
use crate::text::replaced;
use crate::web::{
    header_text, is_redirection, is_success, is_visible, redirect_target, resolved, status_display,
    url_joined, url_parsed, RequestView, UrlView,
};

verus! {

/// Whether the address is the one that the provider sends a browser to that has logged in.
pub open spec fn is_genuine(url: UrlView) -> bool {
    url.scheme == "https"@ && url.host == Some("my.itmo.ru"@) && url.port == Some(443u16)
        && url.path == "/login/callback"@
}

/// Whether the value stands under the name, and no other one behind it.
pub open spec fn carries(
    pairs: Seq<(Seq<char>, Seq<char>)>,
    name: Seq<char>,
    value: Seq<char>,
) -> bool {
    exists|i: int|
        0 <= i < pairs.len() && #[trigger] pairs[i] == (name, value) && forall|j: int|
            i < j < pairs.len() ==> (#[trigger] pairs[j]).0 != name
}

/// Whether nothing stands under the name.
pub open spec fn lacks(pairs: Seq<(Seq<char>, Seq<char>)>, name: Seq<char>) -> bool {
    forall|i: int| 0 <= i < pairs.len() ==> (#[trigger] pairs[i]).0 != name
}

/// The value under a name is the one that no other one stands behind.
pub proof fn law_last_value_counts(
    pairs: Seq<(Seq<char>, Seq<char>)>,
    name: Seq<char>,
    value: Seq<char>,
)
    ensures
        last_value(pairs, name) == Some(value) <==> carries(pairs, name, value),
        last_value(pairs, name) is None <==> lacks(pairs, name),
    decreases pairs.len(),
{
    if pairs.len() > 0 {
        let before = pairs.drop_last();
        let n = pairs.len() - 1;
        law_last_value_counts(before, name, value);
        assert(pairs[n] == pairs.last());
        assert forall|i: int| 0 <= i < n implies before[i] == #[trigger] pairs[i] by {}
        if pairs.last().0 == name {
            if pairs.last().1 == value {
                assert(pairs[n] == (name, value));
                assert(carries(pairs, name, value));
            } else if carries(pairs, name, value) {
                let i = choose|i: int|
                    0 <= i < pairs.len() && #[trigger] pairs[i] == (name, value) && forall|j: int|
                        i < j < pairs.len() ==> (#[trigger] pairs[j]).0 != name;
                assert(i < n);
                assert(pairs[n].0 != name);
            }
            assert(!lacks(pairs, name));
        } else {
            if carries(before, name, value) {
                let i = choose|i: int|
                    0 <= i < before.len() && #[trigger] before[i] == (name, value) && forall|
                        j: int,
                    |
                        i < j < before.len() ==> (#[trigger] before[j]).0 != name;
                assert forall|j: int| i < j < pairs.len() implies (#[trigger] pairs[j]).0
                    != name by {
                    if j < n {
                        assert(before[j].0 != name);
                    }
                }
                assert(pairs[i] == (name, value));
            }
            if carries(pairs, name, value) {
                let i = choose|i: int|
                    0 <= i < pairs.len() && #[trigger] pairs[i] == (name, value) && forall|j: int|
                        i < j < pairs.len() ==> (#[trigger] pairs[j]).0 != name;
                assert(i < n);
                assert(before[i] == (name, value));
                assert forall|j: int| i < j < before.len() implies (#[trigger] before[j]).0
                    != name by {
                    assert(pairs[j].0 != name);
                }
            }
            if lacks(before, name) {
                assert forall|i: int| 0 <= i < pairs.len() implies (#[trigger] pairs[i]).0
                    != name by {
                    if i < n {
                        assert(before[i].0 != name);
                    }
                }
            }
            if lacks(pairs, name) {
                assert forall|i: int| 0 <= i < before.len() implies (#[trigger] before[i]).0
                    != name by {
                    assert(pairs[i].0 != name);
                }
            }
        }
    }
}

/// The code of a callback is taken exactly where the callback carries the expected state and
/// a code; a wrong or missing state is complained about before a missing code.
pub proof fn law_code_is_taken_with_the_state(
    url: UrlView,
    state: Seq<char>,
    code: Seq<char>,
)
    ensures
        carries(url.query_pairs, "state"@, state) && carries(url.query_pairs, "code"@, code)
            ==> authorization_code(url, state) == Ok::<Seq<char>, Seq<char>>(code),
        !carries(url.query_pairs, "state"@, state) ==> authorization_code(url, state) == Err::<
            Seq<char>,
            Seq<char>,
        >("ITMO login returned an invalid OAuth state"@),
        carries(url.query_pairs, "state"@, state) && lacks(url.query_pairs, "code"@)
            ==> authorization_code(url, state) == Err::<Seq<char>, Seq<char>>(
            "ITMO login returned no authorization code"@,
        ),
{
    law_last_value_counts(url.query_pairs, "state"@, state);
    law_last_value_counts(url.query_pairs, "code"@, code);
}

/// Whether the login takes a redirect with the status: on its way to the login page any, and
/// behind the login form those that a browser follows with another request.
pub open spec fn takes_redirect(stage: LoginStage, status: u16) -> bool {
    match stage {
        LoginStage::Authorizing { answered } => answered < 10 && 300 <= status <= 399,
        LoginStage::Submitted => status == 302 || status == 303 || status == 307,
        _ => false,
    }
}

/// A redirect to the genuine callback that carries the state of this login and a code
/// completes the login: the code is exchanged with the verifier of this login, whether the
/// provider sent it at once or in answer to the login form.
pub proof fn law_callback_completes_the_login(
    login: LoginView,
    status: u16,
    url: UrlView,
    code: Seq<char>,
)
    requires
        takes_redirect(login.stage, status),
        is_genuine(url),
        carries(url.query_pairs, "state"@, login.state),
        carries(url.query_pairs, "code"@, code),
    ensures
        after_response(login, status, Ok(url)) == Ok::<(LoginActionView, LoginStage), Seq<char>>(
            (LoginActionView::Send(token_request(code, login.verifier)), LoginStage::Exchanging),
        ),
{
    law_code_is_taken_with_the_state(url, login.state, code);
}

/// A genuine callback with another state, or without a code, ends the login.
pub proof fn law_foreign_callback_ends_the_login(login: LoginView, status: u16, url: UrlView)
    requires
        takes_redirect(login.stage, status),
        is_genuine(url),
    ensures
        !carries(url.query_pairs, "state"@, login.state) ==> after_response(login, status, Ok(url))
            == Err::<(LoginActionView, LoginStage), Seq<char>>(
            "ITMO login returned an invalid OAuth state"@,
        ),
        carries(url.query_pairs, "state"@, login.state) && lacks(url.query_pairs, "code"@)
            ==> after_response(login, status, Ok(url)) == Err::<
            (LoginActionView, LoginStage),
            Seq<char>,
        >("ITMO login returned no authorization code"@),
{
    law_code_is_taken_with_the_state(url, login.state, Seq::empty());
}

/// Behind the login form, every other answer ends the login, each with its own complaint.
pub proof fn law_refused_form_ends_the_login(
    login: LoginView,
    status: u16,
    redirect: Result<UrlView, Seq<char>>,
)
    requires
        login.stage == LoginStage::Submitted,
    ensures
        status != 302 && status != 303 && status != 307 ==> after_response(login, status, redirect)
            == Err::<(LoginActionView, LoginStage), Seq<char>>(
            "ITMO login was rejected; check the username, password, or required login action"@,
        ),
        (status == 302 || status == 303 || status == 307) && redirect is Err ==> after_response(
            login,
            status,
            redirect,
        ) == Err::<(LoginActionView, LoginStage), Seq<char>>(redirect->Err_0),
        (status == 302 || status == 303 || status == 307) && redirect is Ok && !is_genuine(
            redirect->Ok_0,
        ) ==> after_response(login, status, redirect) == Err::<
            (LoginActionView, LoginStage),
            Seq<char>,
        >("ITMO login returned an unexpected redirect"@),
{
}

/// On its way to the login page, the login reads the page that it gets, follows every
/// redirect up to the ninth, and ends at every other answer, each with its own complaint.
pub proof fn law_login_finds_the_page(
    login: LoginView,
    answered: u32,
    status: u16,
    redirect: Result<UrlView, Seq<char>>,
)
    requires
        login.stage == (LoginStage::Authorizing { answered }),
        answered < 10,
    ensures
        200 <= status <= 299 ==> after_response(login, status, redirect) == Ok::<
            (LoginActionView, LoginStage),
            Seq<char>,
        >((LoginActionView::ReadPage, LoginStage::ReadingPage)),
        !(200 <= status <= 399) ==> after_response(login, status, redirect) == Err::<
            (LoginActionView, LoginStage),
            Seq<char>,
        >("ITMO authorization page returned "@ + status_display(status)),
        300 <= status <= 399 && redirect is Err ==> after_response(login, status, redirect)
            == Err::<(LoginActionView, LoginStage), Seq<char>>(redirect->Err_0),
        300 <= status <= 399 && redirect is Ok && !is_genuine(redirect->Ok_0) && answered < 9
            ==> after_response(login, status, redirect) == Ok::<
            (LoginActionView, LoginStage),
            Seq<char>,
        >(
            (
                LoginActionView::Send(
                    RequestView::Get { url: redirect->Ok_0.text, query: Seq::empty() },
                ),
                LoginStage::Authorizing { answered: (answered + 1) as u32 },
            ),
        ),
        300 <= status <= 399 && redirect is Ok && !is_genuine(redirect->Ok_0) && answered == 9
            ==> after_response(login, status, redirect) == Err::<
            (LoginActionView, LoginStage),
            Seq<char>,
        >("too many redirects during ITMO authorization"@),
{
}

/// The exchange of the code gives the token exactly where it succeeds.
pub proof fn law_exchange_gives_the_token(
    login: LoginView,
    status: u16,
    redirect: Result<UrlView, Seq<char>>,
)
    requires
        login.stage == LoginStage::Exchanging,
    ensures
        200 <= status <= 299 ==> after_response(login, status, redirect) == Ok::<
            (LoginActionView, LoginStage),
            Seq<char>,
        >((LoginActionView::ReadToken, LoginStage::Finished)),
        !(200 <= status <= 299) ==> after_response(login, status, redirect) == Err::<
            (LoginActionView, LoginStage),
            Seq<char>,
        >("ITMO token endpoint returned "@ + status_display(status)),
{
}

/// The form on the login page is sent to its own address, with the name and the password of
/// the account; without a form the login ends with the complaint about the page.
pub proof fn law_form_is_sent_to_its_address(
    login: LoginView,
    address: Result<Seq<char>, Seq<char>>,
)
    ensures
        match address {
            Err(message) => after_page(login, address) == Err::<
                (LoginActionView, LoginStage),
                Seq<char>,
            >(message),
            Ok(url) => {
                &&& after_page(login, address) is Ok
                &&& after_page(login, address)->Ok_0.1 == LoginStage::Submitted
                &&& after_page(login, address)->Ok_0.0 == LoginActionView::Send(
                    credentials_request(url, login.username, login.password),
                )
            },
        },
{
}

/// A step changes nothing of a login but how far it has come, and a login that fails is
/// over; what the step gives is what is returned.
pub proof fn law_step_changes_only_the_stage(
    before: LoginView,
    step: Result<(LoginActionView, LoginStage), Seq<char>>,
    after: LoginView,
    result: Result<LoginAction, AnyError>,
)
    requires
        stepped(before, step, after, result),
    ensures
        after.username == before.username,
        after.password == before.password,
        after.verifier == before.verifier,
        after.state == before.state,
        result is Ok <==> step is Ok,
        step is Ok ==> after.stage == step->Ok_0.1 && result->Ok_0@ == step->Ok_0.0,
        step is Err ==> after.stage == LoginStage::Finished && result->Err_0@ == step->Err_0,
        !awaits_response(LoginStage::Finished),
{
}

/// The requests of a login hold what they are given, each in its place, beside what is the
/// same in every login.
pub proof fn law_requests_hold_what_they_are_given(
    state: Seq<char>,
    challenge: Seq<char>,
    code: Seq<char>,
    verifier: Seq<char>,
    address: Seq<char>,
    username: Seq<char>,
    password: Seq<char>,
)
    ensures
        authorization_request(state, challenge) == (RequestView::Get {
            url: "https://id.itmo.ru/auth/realms/itmo/protocol/openid-connect/auth"@,
            query: seq![
                ("protocol"@, "oauth2"@),
                ("response_type"@, "code"@),
                ("client_id"@, "student-personal-cabinet"@),
                ("redirect_uri"@, "https://my.itmo.ru/login/callback"@),
                ("scope"@, "openid"@),
                ("state"@, state),
                ("code_challenge_method"@, "S256"@),
                ("code_challenge"@, challenge),
            ],
        }),
        token_request(code, verifier) == (RequestView::PostForm {
            url: "https://id.itmo.ru/auth/realms/itmo/protocol/openid-connect/token"@,
            form: seq![
                ("grant_type"@, "authorization_code"@),
                ("client_id"@, "student-personal-cabinet"@),
                ("redirect_uri"@, "https://my.itmo.ru/login/callback"@),
                ("code"@, code),
                ("code_verifier"@, verifier),
            ],
        }),
        credentials_request(address, username, password) == (RequestView::PostForm {
            url: address,
            form: seq![
                ("username"@, username),
                ("password"@, password),
                ("credentialId"@, Seq::<char>::empty()),
            ],
        }),
        challenge_for(verifier) == base64_url(sha256(encode_utf8(verifier))),
{
}

/// Only the genuine address is taken for a callback.
pub proof fn law_only_the_genuine_callback_counts(url: UrlView)
    ensures
        is_callback(url) <==> is_genuine(url),
{
}

/// Whether the pattern stands in the text at the position.
pub open spec fn occurs_at(text: Seq<char>, pattern: Seq<char>, at: int) -> bool {
    at + pattern.len() <= text.len() && text.subrange(at, at + pattern.len()) == pattern
}

/// What occurs behind the first character occurs one place further on in the whole.
proof fn lemma_occurs_shift(text: Seq<char>, pattern: Seq<char>, at: int)
    requires
        text.len() > 0,
        at >= 0,
    ensures
        occurs_at(text.skip(1), pattern, at) ==> occurs_at(text, pattern, at + 1),
{
    if occurs_at(text.skip(1), pattern, at) {
        assert(text.skip(1).subrange(at, at + pattern.len()) == text.subrange(
            at + 1,
            at + 1 + pattern.len(),
        ));
    }
}

/// A text without an occurrence stays as it is.
pub proof fn law_text_without_occurrence_stays(text: Seq<char>, from: Seq<char>, to: Seq<char>)
    requires
        from.len() > 0,
        forall|at: int| 0 <= at < text.len() ==> !#[trigger] occurs_at(text, from, at),
    ensures
        replaced(text, from, to) == text,
    decreases text.len(),
{
    if text.len() > 0 {
        let rest = text.skip(1);
        assert forall|at: int| 0 <= at < rest.len() implies !#[trigger] occurs_at(
            rest,
            from,
            at,
        ) by {
            assert(!occurs_at(text, from, at + 1));
            lemma_occurs_shift(text, from, at);
        }
        law_text_without_occurrence_stays(rest, from, to);
        assert(!occurs_at(text, from, 0));
        assert(seq![text[0]] + rest == text);
    }
}

/// The first occurrence is replaced, what stands in front of it stays, and what stands behind
/// it is treated alike.
pub proof fn law_first_occurrence_is_replaced(
    before: Seq<char>,
    after: Seq<char>,
    from: Seq<char>,
    to: Seq<char>,
)
    requires
        from.len() > 0,
        forall|at: int|
            0 <= at < before.len() ==> !#[trigger] occurs_at(before + from + after, from, at),
    ensures
        replaced(before + from + after, from, to) == before + to + replaced(after, from, to),
    decreases before.len(),
{
    let text = before + from + after;
    if before.len() == 0 {
        assert(text.subrange(0, from.len() as int) == from);
        assert(text.skip(from.len() as int) == after);
        assert(before + to == to);
    } else {
        let rest = before.skip(1);
        let shorter = rest + from + after;
        assert(text.skip(1) == shorter);
        assert forall|at: int| 0 <= at < rest.len() implies !#[trigger] occurs_at(
            shorter,
            from,
            at,
        ) by {
            assert(!occurs_at(text, from, at + 1));
            lemma_occurs_shift(text, from, at);
        }
        law_first_occurrence_is_replaced(rest, after, from, to);
        assert(!occurs_at(text, from, 0));
        let behind = replaced(after, from, to);
        assert(replaced(text, from, to) == seq![text[0]] + replaced(shorter, from, to));
        assert(seq![text[0]] + (rest + to + behind) == before + to + behind);
    }
}

/// The address of the login form is what the pattern finds on the page, read as a JSON
/// string, with the ampersands of HTML undone; each of these can fail with its own complaint.
pub proof fn law_form_address_is_read_from_the_page(page: Seq<char>)
    ensures
        match regex_group(LOGIN_ACTION_PATTERN@, page, 1) {
            Err(message) => login_action(page) == Err::<Seq<char>, Seq<char>>(
                "cannot prepare login parser: "@ + message,
            ),
            Ok(None) => login_action(page) == Err::<Seq<char>, Seq<char>>(
                "ITMO login form was not found"@,
            ),
            Ok(Some(found)) => match json_string(seq!['"'] + found + seq!['"']) {
                None => login_action(page) == Err::<Seq<char>, Seq<char>>(
                    "ITMO login form address could not be decoded"@,
                ),
                Some(address) => login_action(page) == Ok::<Seq<char>, Seq<char>>(
                    replaced(address, "&amp;"@, "&"@),
                ),
            },
        },
{
}

/// What was found on the page is put between quotes as it is, and what was decoded has the
/// ampersands of HTML undone.
pub proof fn law_found_address_is_decoded(found: Seq<char>)
    ensures
        quoted_address(Ok(Some(found))) == Ok::<Seq<char>, Seq<char>>(
            seq!['"'] + found + seq!['"'],
        ),
        decoded_address(Some(found)) == Ok::<Seq<char>, Seq<char>>(
            replaced(found, "&amp;"@, "&"@),
        ),
{
}

/// An answer sends the client to the address in its location, read on its own, or else from
/// the address of the answer; a location that is missing, unreadable or no address is
/// complained about.
pub proof fn law_redirect_leads_to_the_location(
    base: Seq<char>,
    bytes: Seq<u8>,
    text: Seq<char>,
)
    ensures
        redirect_target(base, None) == Err::<UrlView, Seq<char>>("ITMO redirect has no location"@),
        (exists|i: int|
            0 <= i < bytes.len() && !(32 <= #[trigger] bytes[i] <= 126 || bytes[i] == 9))
            ==> redirect_target(base, Some(bytes)) == Err::<UrlView, Seq<char>>(
            "ITMO redirect location is not valid text"@,
        ),
        is_ascii_text(bytes, text) ==> redirect_target(base, Some(bytes)) == match url_parsed(
            text,
        ) {
            Ok(url) => Ok::<UrlView, Seq<char>>(url),
            Err(_) => match url_joined(base, text) {
                Ok(url) => Ok(url),
                Err(message) => Err("invalid ITMO redirect: "@ + message),
            },
        },
{
    if exists|i: int|
        0 <= i < bytes.len() && !(32 <= #[trigger] bytes[i] <= 126 || bytes[i] == 9) {
        let i = choose|i: int|
            0 <= i < bytes.len() && !(32 <= #[trigger] bytes[i] <= 126 || bytes[i] == 9);
        assert(!is_visible(bytes[i]));
    }
    if is_ascii_text(bytes, text) {
        assert forall|i: int| 0 <= i < bytes.len() implies is_visible(
            #[trigger] bytes[i],
        ) by {
            assert(text[i] as int == bytes[i] as int);
        }
        assert(bytes.map_values(|byte: u8| byte as char) == text) by {
            assert forall|i: int| 0 <= i < bytes.len() implies bytes[i] as char
                == #[trigger] text[i] by {}
        }
        assert(header_text(bytes) == Some(text));
    }
}

/// Whether the bytes are the text in printable ASCII and tabs.
pub open spec fn is_ascii_text(bytes: Seq<u8>, text: Seq<char>) -> bool {
    &&& bytes.len() == text.len()
    &&& forall|i: int|
        0 <= i < bytes.len() ==> (32 <= bytes[i] <= 126 || bytes[i] == 9)
            && #[trigger] text[i] as int == bytes[i] as int
}

/// A token is used from the moment at which it came in until a minute before it is no longer
/// good, but for at least a second; and no token is used where none came in.
pub proof fn law_token_is_given_up_in_time(
    access_token: Seq<char>,
    expires_in: u64,
    stored: u64,
    now: u64,
)
    ensures
        expires_in > 60 && now < stored + (expires_in - 60) * 1_000_000_000 ==> usable_token(
            Some(kept_token(access_token, expires_in as int, stored as int)),
            now as int,
        ) == Some(access_token),
        expires_in <= 60 && now < stored + 1_000_000_000 ==> usable_token(
            Some(kept_token(access_token, expires_in as int, stored as int)),
            now as int,
        ) == Some(access_token),
        expires_in > 60 && now >= stored + (expires_in - 60) * 1_000_000_000 ==> usable_token(
            Some(kept_token(access_token, expires_in as int, stored as int)),
            now as int,
        ) is None,
        expires_in <= 60 && now >= stored + 1_000_000_000 ==> usable_token(
            Some(kept_token(access_token, expires_in as int, stored as int)),
            now as int,
        ) is None,
        usable_token(None::<CachedTokenView>, now as int) is None,
{
}

/// A location that is an address on its own counts first, then the address that it is from
/// the answer, and then the complaint about that.
pub proof fn law_location_counts_on_its_own_first(
    parsed: Result<UrlView, Seq<char>>,
    relative: Result<UrlView, Seq<char>>,
)
    ensures
        parsed is Ok ==> resolved(parsed, relative) == Ok::<UrlView, Seq<char>>(parsed->Ok_0),
        parsed is Err && relative is Ok ==> resolved(parsed, relative) == Ok::<
            UrlView,
            Seq<char>,
        >(relative->Ok_0),
        parsed is Err && relative is Err ==> resolved(parsed, relative) == Err::<
            UrlView,
            Seq<char>,
        >("invalid ITMO redirect: "@ + relative->Err_0),
{
}

/// A token that came in is handed out at once and again for as long as it is used, and none
/// is handed out once it is given up; the account stays the same.
pub proof fn law_kept_token_is_handed_out(
    before: AuthClient,
    fresh: TokenResponse,
    stored: u64,
    after: AuthClient,
    token: Seq<char>,
    now: u64,
    gone: AuthClient,
)
    requires
        is_kept(before, fresh, stored, after, token),
        is_given_up(after, gone),
    ensures
        token == fresh.access_token@,
        now < stored + 1_000_000_000 ==> usable_token(after.token.deep_view(), now as int) == Some(
            token,
        ),
        fresh.expires_in > 60 && now < stored + (fresh.expires_in - 60) * 1_000_000_000
            ==> usable_token(after.token.deep_view(), now as int) == Some(token),
        usable_token(gone.token.deep_view(), now as int) is None,
        gone.username == before.username,
        gone.password == before.password,
{
}

/// A status from 200 to 299 is a success, and one from 300 to 399 sends the client on.
pub proof fn law_statuses_are_told_apart(status: u16)
    ensures
        is_success(status) <==> 200 <= status <= 299,
        is_redirection(status) <==> 300 <= status <= 399,
{
}

} // verus!
