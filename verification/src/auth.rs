//! Logging in to ITMO, and keeping the access token that comes of it.

use regex::Regex;
use vstd::prelude::*;
use vstd::utf8::encode_utf8;

use crate::codes::{base64_url, base64_url_of, random_bytes, sha256, sha256_of};
use crate::error::{any_error, outcome, AnyError};
use crate::text::{glued, replace_all, replaced, same_text};
use crate::web::{
    add_pair, found_url, is_redirection, is_status, is_success, pairs_view, redirect_target,
    redirect_url, redirects, status_display, status_error, succeeded, HttpRequest, HttpResponse,
    RequestView, Url, UrlView,
};

verus! {

/// The name under which the client is known to the provider.
pub const CLIENT_ID: &'static str = "student-personal-cabinet";

/// Where the provider sends the browser once the login is done.
pub const REDIRECT_URI: &'static str = "https://my.itmo.ru/login/callback";

/// Where a login starts.
pub const AUTHORIZATION_URL: &'static str =
    "https://id.itmo.ru/auth/realms/itmo/protocol/openid-connect/auth";

/// Where a code is exchanged for a token.
pub const TOKEN_URL: &'static str =
    "https://id.itmo.ru/auth/realms/itmo/protocol/openid-connect/token";

/// What the address of the login form stands in on the login page.
pub const LOGIN_ACTION_PATTERN: &'static str = r#""loginAction"\s*:\s*"([^"]+)""#;

/// How many answers the client takes on its way to the login page.
pub const MAX_ANSWERS: u32 = 10;

/// Whether the address is the one that a finished login leads to.
pub open spec fn is_callback(url: UrlView) -> bool {
    &&& url.scheme == "https"@
    &&& url.host == Some("my.itmo.ru"@)
    &&& url.port == Some(443u16)
    &&& url.path == "/login/callback"@
}

/// Whether the address is the one that a finished login leads to.
pub fn is_login_callback(url: &Url) -> (yes: bool)
    ensures
        yes == is_callback(url@),
{
    let host_matches = match &url.host {
        Some(host) => same_text(host.as_str(), "my.itmo.ru"),
        None => false,
    };
    let port_matches = match url.port {
        Some(port) => port == 443,
        None => false,
    };
    same_text(url.scheme.as_str(), "https") && host_matches && port_matches && same_text(
        url.path.as_str(),
        "/login/callback",
    )
}

/// The value that stands last under the name.
pub open spec fn last_value(pairs: Seq<(Seq<char>, Seq<char>)>, name: Seq<char>) -> Option<
    Seq<char>,
>
    decreases pairs.len(),
{
    if pairs.len() == 0 {
        None
    } else if pairs.last().0 == name {
        Some(pairs.last().1)
    } else {
        last_value(pairs.drop_last(), name)
    }
}

/// The code that the callback carries, or the complaint about the callback.
pub open spec fn authorization_code(url: UrlView, expected_state: Seq<char>) -> Result<
    Seq<char>,
    Seq<char>,
> {
    if last_value(url.query_pairs, "state"@) != Some(expected_state) {
        Err("ITMO login returned an invalid OAuth state"@)
    } else {
        match last_value(url.query_pairs, "code"@) {
            Some(code) => Ok(code),
            None => Err("ITMO login returned no authorization code"@),
        }
    }
}

/// Takes the code from the callback, if the callback belongs to this login.
pub fn extract_authorization_code(redirect: &Url, expected_state: &str) -> (code: Result<
    String,
    AnyError,
>)
    ensures
        outcome(code) == authorization_code(redirect@, expected_state@),
{
    let mut code: Option<String> = None;
    let mut returned_state: Option<String> = None;
    let ghost pairs = redirect@.query_pairs;
    proof {
        reveal_strlit("code");
        reveal_strlit("state");
        assert("code"@.len() != "state"@.len());
    }
    for i in 0..redirect.query_pairs.len()
        invariant
            pairs == pairs_view(redirect.query_pairs@),
            "code"@ != "state"@,
            code.deep_view() == last_value(pairs.take(i as int), "code"@),
            returned_state.deep_view() == last_value(pairs.take(i as int), "state"@),
    {
        let pair = &redirect.query_pairs[i];
        proof {
            assert(pairs.take(i + 1).drop_last() == pairs.take(i as int));
            assert(pairs.take(i + 1).last() == pairs[i as int]);
        }
        if same_text(pair.0.as_str(), "code") {
            code = Some(pair.1.clone());
        } else if same_text(pair.0.as_str(), "state") {
            returned_state = Some(pair.1.clone());
        }
    }
    assert(pairs.take(pairs.len() as int) == pairs);
    let belongs = match &returned_state {
        Some(state) => same_text(state.as_str(), expected_state),
        None => false,
    };
    if !belongs {
        return Err(any_error("ITMO login returned an invalid OAuth state"));
    }
    match code {
        Some(code) => Ok(code),
        None => Err(any_error("ITMO login returned no authorization code")),
    }
}

/// What a group of a regular expression matches first in a text: the complaint about the
/// pattern, or nothing, or the part of the text.
pub uninterp spec fn regex_group(pattern: Seq<char>, text: Seq<char>, group: int) -> Result<
    Option<Seq<char>>,
    Seq<char>,
>;

/// What a search came to, with every text taken by its characters.
pub open spec fn search_view(found: Result<Option<String>, String>) -> Result<
    Option<Seq<char>>,
    Seq<char>,
> {
    match found {
        Ok(found) => Ok(found.deep_view()),
        Err(message) => Err(message@),
    }
}

/// Calls `regex::Regex::new`, and `captures` on the text, and takes one group of the first
/// match. What a pattern matches is left to `regex`; the claim is that the arguments alone
/// decide.
#[verifier::external_body]
fn search(pattern: &str, text: &str, group: usize) -> (found: Result<Option<String>, String>)
    ensures
        search_view(found) == regex_group(pattern@, text@, group as int),
{
    let regex = Regex::new(pattern).map_err(|error| error.to_string())?;
    let found = regex.captures(text).and_then(|captures| captures.get(group));
    Ok(found.map(|found| found.as_str().to_owned()))
}

/// The string that a JSON text stands for, if it stands for one.
pub uninterp spec fn json_string(text: Seq<char>) -> Option<Seq<char>>;

/// Calls `serde_json::from_str` for a `String`. How JSON is read is left to `serde_json`;
/// the claim is that the text alone decides.
#[verifier::external_body]
fn decode_json_string(text: &str) -> (decoded: Option<String>)
    ensures
        decoded.deep_view() == json_string(text@),
{
    serde_json::from_str::<String>(text).ok()
}

/// The address of the login form between quotes, as it stood on the page, or the complaint
/// about the page.
pub open spec fn quoted_address(found: Result<Option<Seq<char>>, Seq<char>>) -> Result<
    Seq<char>,
    Seq<char>,
> {
    match found {
        Err(message) => Err("cannot prepare login parser: "@ + message),
        Ok(None) => Err("ITMO login form was not found"@),
        Ok(Some(captured)) => Ok(seq!['"'] + captured + seq!['"']),
    }
}

/// The address of the login form, once its JSON is read: ampersands are written as in HTML.
pub open spec fn decoded_address(decoded: Option<Seq<char>>) -> Result<Seq<char>, Seq<char>> {
    match decoded {
        None => Err("ITMO login form address could not be decoded"@),
        Some(text) => Ok(replaced(text, "&amp;"@, "&"@)),
    }
}

/// The address of the login form on a page, or the complaint about the page.
pub open spec fn login_action(page: Seq<char>) -> Result<Seq<char>, Seq<char>> {
    match quoted_address(regex_group(LOGIN_ACTION_PATTERN@, page, 1)) {
        Err(message) => Err(message),
        Ok(quoted) => decoded_address(json_string(quoted)),
    }
}

/// Puts what was found on the page between quotes.
pub fn quote_address(found: Result<Option<String>, String>) -> (quoted: Result<String, AnyError>)
    ensures
        outcome(quoted) == quoted_address(search_view(found)),
{
    match found {
        Err(message) => Err(
            any_error(glued("cannot prepare login parser: ", message.as_str()).as_str()),
        ),
        Ok(None) => Err(any_error("ITMO login form was not found")),
        Ok(Some(captured)) => {
            let mut quoted = String::new();
            quoted.push('"');
            quoted.append(captured.as_str());
            quoted.push('"');
            assert(quoted@ == seq!['"'] + captured@ + seq!['"']);
            Ok(quoted)
        },
    }
}

/// Undoes what HTML does to the ampersands of the address.
pub fn decode_address(decoded: Option<String>) -> (address: Result<String, AnyError>)
    ensures
        outcome(address) == decoded_address(decoded.deep_view()),
{
    match decoded {
        None => Err(any_error("ITMO login form address could not be decoded")),
        Some(text) => {
            proof {
                reveal_strlit("&amp;");
            }
            Ok(replace_all(text.as_str(), "&amp;", "&"))
        },
    }
}

/// Finds the address of the login form on the login page.
pub fn extract_login_action(page: &str) -> (address: Result<String, AnyError>)
    ensures
        outcome(address) == login_action(page@),
{
    match quote_address(search(LOGIN_ACTION_PATTERN, page, 1)) {
        Err(error) => Err(error),
        Ok(quoted) => decode_address(decode_json_string(quoted.as_str())),
    }
}

/// How far a login has come: which answer it waits for.
#[derive(Clone, Copy, Debug, PartialEq, Eq, Structural)]
pub enum LoginStage {
    /// For the answer to the next request on the way to the login page.
    Authorizing { answered: u32 },
    /// For the text of the login page.
    ReadingPage,
    /// For the answer to the login form.
    Submitted,
    /// For the answer to the exchange of the code.
    Exchanging,
    /// For nothing more.
    Finished,
}

/// One attempt to log in.
#[derive(Debug)]
pub struct Login {
    pub username: String,
    pub password: String,
    pub verifier: String,
    pub state: String,
    pub stage: LoginStage,
}

/// A login, with every text taken by its characters.
pub struct LoginView {
    pub username: Seq<char>,
    pub password: Seq<char>,
    pub verifier: Seq<char>,
    pub state: Seq<char>,
    pub stage: LoginStage,
}

impl View for Login {
    type V = LoginView;

    open spec fn view(&self) -> LoginView {
        LoginView {
            username: self.username@,
            password: self.password@,
            verifier: self.verifier@,
            state: self.state@,
            stage: self.stage,
        }
    }
}

/// What is to be done next for a login.
#[derive(Debug)]
pub enum LoginAction {
    /// Send the request, and hand back the answer.
    Send(HttpRequest),
    /// Hand back the text of the page that was answered.
    ReadPage,
    /// Take the token from the answer: the login is done.
    ReadToken,
}

/// What is to be done next, with every text taken by its characters.
pub enum LoginActionView {
    Send(RequestView),
    ReadPage,
    ReadToken,
}

impl View for LoginAction {
    type V = LoginActionView;

    open spec fn view(&self) -> LoginActionView {
        match self {
            LoginAction::Send(request) => LoginActionView::Send(request@),
            LoginAction::ReadPage => LoginActionView::ReadPage,
            LoginAction::ReadToken => LoginActionView::ReadToken,
        }
    }
}

/// Whether an answer to a request is what the login waits for.
pub open spec fn awaits_response(stage: LoginStage) -> bool {
    match stage {
        LoginStage::Authorizing { answered } => answered < MAX_ANSWERS,
        LoginStage::Submitted => true,
        LoginStage::Exchanging => true,
        _ => false,
    }
}

/// The request that starts a login.
pub open spec fn authorization_request(state: Seq<char>, challenge: Seq<char>) -> RequestView {
    RequestView::Get {
        url: AUTHORIZATION_URL@,
        query: seq![
            ("protocol"@, "oauth2"@),
            ("response_type"@, "code"@),
            ("client_id"@, CLIENT_ID@),
            ("redirect_uri"@, REDIRECT_URI@),
            ("scope"@, "openid"@),
            ("state"@, state),
            ("code_challenge_method"@, "S256"@),
            ("code_challenge"@, challenge),
        ],
    }
}

/// The request that follows a redirect.
pub open spec fn follow_request(url: Seq<char>) -> RequestView {
    RequestView::Get { url, query: Seq::empty() }
}

/// The login form, filled in.
pub open spec fn credentials_request(
    address: Seq<char>,
    username: Seq<char>,
    password: Seq<char>,
) -> RequestView {
    RequestView::PostForm {
        url: address,
        form: seq![
            ("username"@, username),
            ("password"@, password),
            ("credentialId"@, Seq::<char>::empty()),
        ],
    }
}

/// The request that exchanges a code for a token.
pub open spec fn token_request(code: Seq<char>, verifier: Seq<char>) -> RequestView {
    RequestView::PostForm {
        url: TOKEN_URL@,
        form: seq![
            ("grant_type"@, "authorization_code"@),
            ("client_id"@, CLIENT_ID@),
            ("redirect_uri"@, REDIRECT_URI@),
            ("code"@, code),
            ("code_verifier"@, verifier),
        ],
    }
}

/// The challenge for a verifier: what the provider is shown of it before the exchange.
pub open spec fn challenge_for(verifier: Seq<char>) -> Seq<char> {
    base64_url(sha256(encode_utf8(verifier)))
}

/// What follows the address that a finished login led to.
pub open spec fn after_callback(login: LoginView, url: UrlView) -> Result<
    (LoginActionView, LoginStage),
    Seq<char>,
> {
    if !is_callback(url) {
        Err("ITMO login returned an unexpected redirect"@)
    } else {
        match authorization_code(url, login.state) {
            Err(message) => Err(message),
            Ok(code) => Ok(
                (
                    LoginActionView::Send(token_request(code, login.verifier)),
                    LoginStage::Exchanging,
                ),
            ),
        }
    }
}

/// What follows an answer on the way to the login page, of which there were `answered`
/// before.
pub open spec fn after_authorization(
    login: LoginView,
    answered: u32,
    status: u16,
    redirect: Result<UrlView, Seq<char>>,
) -> Result<(LoginActionView, LoginStage), Seq<char>> {
    if !is_redirection(status) {
        if is_success(status) {
            Ok((LoginActionView::ReadPage, LoginStage::ReadingPage))
        } else {
            Err("ITMO authorization page returned "@ + status_display(status))
        }
    } else {
        match redirect {
            Err(message) => Err(message),
            Ok(url) => if is_callback(url) {
                after_callback(login, url)
            } else if answered + 1 >= MAX_ANSWERS {
                Err("too many redirects during ITMO authorization"@)
            } else {
                Ok(
                    (
                        LoginActionView::Send(follow_request(url.text)),
                        LoginStage::Authorizing { answered: (answered + 1) as u32 },
                    ),
                )
            },
        }
    }
}

/// Whether the status is one with which the provider sends on a browser that logged in.
pub open spec fn is_login_redirect(status: u16) -> bool {
    status == 302 || status == 303 || status == 307
}

/// What follows the answer to the login form.
pub open spec fn after_submission(
    login: LoginView,
    status: u16,
    redirect: Result<UrlView, Seq<char>>,
) -> Result<(LoginActionView, LoginStage), Seq<char>> {
    if !is_login_redirect(status) {
        Err(
            "ITMO login was rejected; check the username, password, or required login action"@,
        )
    } else {
        match redirect {
            Err(message) => Err(message),
            Ok(url) => after_callback(login, url),
        }
    }
}

/// What follows the answer to the exchange of the code.
pub open spec fn after_exchange(status: u16) -> Result<(LoginActionView, LoginStage), Seq<char>> {
    if is_success(status) {
        Ok((LoginActionView::ReadToken, LoginStage::Finished))
    } else {
        Err("ITMO token endpoint returned "@ + status_display(status))
    }
}

/// What follows an answer, given where it sends the client.
pub open spec fn after_response(
    login: LoginView,
    status: u16,
    redirect: Result<UrlView, Seq<char>>,
) -> Result<(LoginActionView, LoginStage), Seq<char>> {
    match login.stage {
        LoginStage::Authorizing { answered } => after_authorization(
            login,
            answered,
            status,
            redirect,
        ),
        LoginStage::Submitted => after_submission(login, status, redirect),
        _ => after_exchange(status),
    }
}

/// What follows the login page, given the address of the form on it.
pub open spec fn after_page(login: LoginView, address: Result<Seq<char>, Seq<char>>) -> Result<
    (LoginActionView, LoginStage),
    Seq<char>,
> {
    match address {
        Err(message) => Err(message),
        Ok(address) => Ok(
            (
                LoginActionView::Send(
                    credentials_request(address, login.username, login.password),
                ),
                LoginStage::Submitted,
            ),
        ),
    }
}

/// What a step of a login leaves and returns. A login that fails is over.
pub open spec fn stepped(
    before: LoginView,
    step: Result<(LoginActionView, LoginStage), Seq<char>>,
    after: LoginView,
    result: Result<LoginAction, AnyError>,
) -> bool {
    match step {
        Ok((action, stage)) => {
            &&& result is Ok
            &&& result->Ok_0@ == action
            &&& after == (LoginView { stage, ..before })
        },
        Err(message) => {
            &&& result is Err
            &&& result->Err_0@ == message
            &&& after == (LoginView { stage: LoginStage::Finished, ..before })
        },
    }
}

/// The request that starts a login.
pub fn authorization(state: &str, challenge: &str) -> (request: HttpRequest)
    ensures
        request@ == authorization_request(state@, challenge@),
{
    let mut query: Vec<(String, String)> = Vec::new();
    add_pair(&mut query, "protocol", "oauth2");
    add_pair(&mut query, "response_type", "code");
    add_pair(&mut query, "client_id", CLIENT_ID);
    add_pair(&mut query, "redirect_uri", REDIRECT_URI);
    add_pair(&mut query, "scope", "openid");
    add_pair(&mut query, "state", state);
    add_pair(&mut query, "code_challenge_method", "S256");
    add_pair(&mut query, "code_challenge", challenge);
    assert(pairs_view(query@) == authorization_request(state@, challenge@)->query);
    HttpRequest::Get { url: AUTHORIZATION_URL.to_owned(), query }
}

/// The login form, filled in.
fn credentials(address: &str, username: &str, password: &str) -> (request: HttpRequest)
    ensures
        request@ == credentials_request(address@, username@, password@),
{
    let mut form: Vec<(String, String)> = Vec::new();
    add_pair(&mut form, "username", username);
    add_pair(&mut form, "password", password);
    add_pair(&mut form, "credentialId", "");
    proof {
        reveal_strlit("");
        assert(""@ == Seq::<char>::empty());
        assert(pairs_view(form@) == credentials_request(address@, username@, password@)->form);
    }
    HttpRequest::PostForm { url: address.to_owned(), form }
}

/// The request that exchanges a code for a token.
fn exchange(code: &str, verifier: &str) -> (request: HttpRequest)
    ensures
        request@ == token_request(code@, verifier@),
{
    let mut form: Vec<(String, String)> = Vec::new();
    add_pair(&mut form, "grant_type", "authorization_code");
    add_pair(&mut form, "client_id", CLIENT_ID);
    add_pair(&mut form, "redirect_uri", REDIRECT_URI);
    add_pair(&mut form, "code", code);
    add_pair(&mut form, "code_verifier", verifier);
    assert(pairs_view(form@) == token_request(code@, verifier@)->form);
    HttpRequest::PostForm { url: TOKEN_URL.to_owned(), form }
}

impl Login {
    /// Starts a login whose secrets are made from the given bytes.
    pub fn begin(
        username: &str,
        password: &str,
        verifier_bytes: &Vec<u8>,
        state_bytes: &Vec<u8>,
    ) -> (started: (Login, HttpRequest))
        requires
            verifier_bytes@.len() * 4 <= usize::MAX,
            state_bytes@.len() * 4 <= usize::MAX,
        ensures
            started.0@ == (LoginView {
                username: username@,
                password: password@,
                verifier: base64_url(verifier_bytes@),
                state: base64_url(state_bytes@),
                stage: LoginStage::Authorizing { answered: 0 },
            }),
            started.1@ == authorization_request(
                base64_url(state_bytes@),
                challenge_for(base64_url(verifier_bytes@)),
            ),
    {
        let verifier = base64_url_of(verifier_bytes.as_slice());
        let digest = sha256_of(verifier.as_str().as_bytes());
        let challenge = base64_url_of(digest.as_slice());
        let state = base64_url_of(state_bytes.as_slice());
        let request = authorization(state.as_str(), challenge.as_str());
        let login = Login {
            username: username.to_owned(),
            password: password.to_owned(),
            verifier,
            state,
            stage: LoginStage::Authorizing { answered: 0 },
        };
        (login, request)
    }

    /// Follows the address that a finished login led to.
    fn on_callback(&mut self, url: &Url) -> (result: Result<LoginAction, AnyError>)
        ensures
            stepped(old(self)@, after_callback(old(self)@, url@), final(self)@, result),
    {
        self.stage = LoginStage::Finished;
        if !is_login_callback(url) {
            return Err(any_error("ITMO login returned an unexpected redirect"));
        }
        match extract_authorization_code(url, self.state.as_str()) {
            Err(error) => Err(error),
            Ok(code) => {
                self.stage = LoginStage::Exchanging;
                Ok(LoginAction::Send(exchange(code.as_str(), self.verifier.as_str())))
            },
        }
    }

    /// Takes in an answer on the way to the login page.
    fn on_authorization(&mut self, answered: u32, status: u16, redirect: Result<Url, AnyError>) -> (
    result: Result<LoginAction, AnyError>)
        requires
            answered < MAX_ANSWERS,
            is_status(status),
        ensures
            stepped(
                old(self)@,
                after_authorization(old(self)@, answered, status, found_url(redirect)),
                final(self)@,
                result,
            ),
    {
        if !redirects(status) {
            if succeeded(status) {
                self.stage = LoginStage::ReadingPage;
                return Ok(LoginAction::ReadPage);
            }
            self.stage = LoginStage::Finished;
            return Err(status_error("ITMO authorization page returned ", status));
        }
        match redirect {
            Err(error) => {
                self.stage = LoginStage::Finished;
                Err(error)
            },
            Ok(url) => {
                if is_login_callback(&url) {
                    return self.on_callback(&url);
                }
                if answered + 1 >= MAX_ANSWERS {
                    self.stage = LoginStage::Finished;
                    return Err(any_error("too many redirects during ITMO authorization"));
                }
                self.stage = LoginStage::Authorizing { answered: answered + 1 };
                let query: Vec<(String, String)> = Vec::new();
                assert(pairs_view(query@) == Seq::<(Seq<char>, Seq<char>)>::empty());
                Ok(LoginAction::Send(HttpRequest::Get { url: url.text, query }))
            },
        }
    }

    /// Takes in the answer to the login form.
    fn on_submission(&mut self, status: u16, redirect: Result<Url, AnyError>) -> (result: Result<
        LoginAction,
        AnyError,
    >)
        ensures
            stepped(
                old(self)@,
                after_submission(old(self)@, status, found_url(redirect)),
                final(self)@,
                result,
            ),
    {
        if !(status == 302 || status == 303 || status == 307) {
            self.stage = LoginStage::Finished;
            return Err(
                any_error(
                    "ITMO login was rejected; check the username, password, or required login action",
                ),
            );
        }
        match redirect {
            Err(error) => {
                self.stage = LoginStage::Finished;
                Err(error)
            },
            Ok(url) => self.on_callback(&url),
        }
    }

    /// Takes in an answer, given where it sends the client.
    pub fn on_redirect(&mut self, status: u16, redirect: Result<Url, AnyError>) -> (result: Result<
        LoginAction,
        AnyError,
    >)
        requires
            awaits_response(old(self).stage),
            is_status(status),
        ensures
            stepped(
                old(self)@,
                after_response(old(self)@, status, found_url(redirect)),
                final(self)@,
                result,
            ),
    {
        match self.stage {
            LoginStage::Authorizing { answered } => self.on_authorization(
                answered,
                status,
                redirect,
            ),
            LoginStage::Submitted => self.on_submission(status, redirect),
            _ => {
                self.stage = LoginStage::Finished;
                if succeeded(status) {
                    Ok(LoginAction::ReadToken)
                } else {
                    Err(status_error("ITMO token endpoint returned ", status))
                }
            },
        }
    }

    /// Takes in an answer.
    pub fn on_response(&mut self, response: &HttpResponse) -> (result: Result<
        LoginAction,
        AnyError,
    >)
        requires
            awaits_response(old(self).stage),
            is_status(response.status),
        ensures
            stepped(
                old(self)@,
                after_response(
                    old(self)@,
                    response.status,
                    redirect_target(response.url.text@, response.location.deep_view()),
                ),
                final(self)@,
                result,
            ),
    {
        let redirect = redirect_url(response);
        self.on_redirect(response.status, redirect)
    }

    /// Takes in the address of the form on the login page.
    pub fn on_form(&mut self, address: Result<String, AnyError>) -> (result: Result<
        LoginAction,
        AnyError,
    >)
        requires
            old(self).stage == LoginStage::ReadingPage,
        ensures
            stepped(
                old(self)@,
                after_page(old(self)@, outcome(address)),
                final(self)@,
                result,
            ),
    {
        match address {
            Err(error) => {
                self.stage = LoginStage::Finished;
                Err(error)
            },
            Ok(address) => {
                self.stage = LoginStage::Submitted;
                Ok(
                    LoginAction::Send(
                        credentials(
                            address.as_str(),
                            self.username.as_str(),
                            self.password.as_str(),
                        ),
                    ),
                )
            },
        }
    }

    /// Takes in the text of the login page.
    pub fn on_page(&mut self, page: &str) -> (result: Result<LoginAction, AnyError>)
        requires
            old(self).stage == LoginStage::ReadingPage,
        ensures
            stepped(old(self)@, after_page(old(self)@, login_action(page@)), final(self)@, result),
    {
        let address = extract_login_action(page);
        self.on_form(address)
    }
}

/// What the provider gives for a code.
#[derive(Debug)]
pub struct TokenResponse {
    pub access_token: String,
    pub expires_in: u64,
}

/// A token, and the moment up to which it is used, in nanoseconds.
#[derive(Debug)]
pub struct CachedToken {
    pub value: String,
    pub valid_until: u128,
}

/// A token and its end, with the text taken by its characters.
pub struct CachedTokenView {
    pub value: Seq<char>,
    pub valid_until: int,
}

impl DeepView for CachedToken {
    type V = CachedTokenView;

    open spec fn deep_view(&self) -> CachedTokenView {
        CachedTokenView { value: self.value@, valid_until: self.valid_until as int }
    }
}

/// How many nanoseconds make a second.
pub const NANOS_PER_SECOND: u64 = 1_000_000_000;

/// For how many seconds a token is used: a minute less than it is good for, but at least
/// one.
pub open spec fn token_lifetime(expires_in: int) -> int {
    if expires_in > 61 {
        expires_in - 60
    } else {
        1
    }
}

/// What is kept of a token that came in at the given moment.
pub open spec fn kept_token(access_token: Seq<char>, expires_in: int, now: int) -> CachedTokenView {
    CachedTokenView {
        value: access_token,
        valid_until: now + token_lifetime(expires_in) * NANOS_PER_SECOND,
    }
}

/// The token, if it is one that can be used at the given moment.
pub open spec fn usable_token(token: Option<CachedTokenView>, now: int) -> Option<Seq<char>> {
    match token {
        Some(token) if token.valid_until > now => Some(token.value),
        _ => None,
    }
}

/// The account that the schedule belongs to, and its access token. Moments are nanoseconds
/// since some fixed one.
#[derive(Debug)]
pub struct AuthClient {
    pub username: String,
    pub password: String,
    pub token: Option<CachedToken>,
}

/// Whether a token that came in is returned and kept, and the account stays the same.
pub open spec fn is_kept(
    before: AuthClient,
    fresh: TokenResponse,
    now: u64,
    after: AuthClient,
    token: Seq<char>,
) -> bool {
    &&& token == fresh.access_token@
    &&& after.token.deep_view() == Some(
        kept_token(fresh.access_token@, fresh.expires_in as int, now as int),
    )
    &&& after.username == before.username
    &&& after.password == before.password
}

/// Whether the token is gone and the account stays the same.
pub open spec fn is_given_up(before: AuthClient, after: AuthClient) -> bool {
    after.token is None && after.username == before.username && after.password == before.password
}

impl AuthClient {
    /// An account without a token.
    pub fn new(username: String, password: String) -> (client: AuthClient)
        ensures
            client.username@ == username@,
            client.password@ == password@,
            client.token is None,
    {
        AuthClient { username, password, token: None }
    }

    /// The token that can be used at the given moment. Where there is none, a login has to
    /// give one.
    pub fn access_token(&self, now: u64) -> (token: Option<String>)
        ensures
            token.deep_view() == usable_token(self.token.deep_view(), now as int),
    {
        match &self.token {
            Some(token) => {
                if token.valid_until > now as u128 {
                    Some(token.value.clone())
                } else {
                    None
                }
            },
            None => None,
        }
    }

    /// Keeps the token that a login gave at the given moment, and returns it.
    pub fn keep_token(&mut self, fresh: TokenResponse, now: u64) -> (token: String)
        ensures
            is_kept(*old(self), fresh, now, *final(self), token@),
    {
        let lifetime: u64 = if fresh.expires_in > 61 {
            fresh.expires_in - 60
        } else {
            1
        };
        let valid_until: u128 = now as u128 + lifetime as u128 * NANOS_PER_SECOND as u128;
        let value = fresh.access_token.clone();
        self.token = Some(CachedToken { value: fresh.access_token, valid_until });
        value
    }

    /// Gives the token up.
    pub fn invalidate(&mut self)
        ensures
            is_given_up(*old(self), *final(self)),
    {
        self.token = None;
    }

    /// Starts a login with fresh secrets.
    pub fn authenticate(&self) -> (started: (Login, HttpRequest))
        ensures
            exists|verifier_bytes: Seq<u8>, state_bytes: Seq<u8>|
                {
                    &&& verifier_bytes.len() == 48
                    &&& state_bytes.len() == 24
                    &&& started.0@ == (LoginView {
                        username: self.username@,
                        password: self.password@,
                        verifier: #[trigger] base64_url(verifier_bytes),
                        state: #[trigger] base64_url(state_bytes),
                        stage: LoginStage::Authorizing { answered: 0 },
                    })
                },
            started.1@ == authorization_request(
                started.0@.state,
                challenge_for(started.0@.verifier),
            ),
    {
        let verifier_bytes = random_bytes(48);
        let state_bytes = random_bytes(24);
        Login::begin(
            self.username.as_str(),
            self.password.as_str(),
            &verifier_bytes,
            &state_bytes,
        )
    }
}

/// How many more answers a login can take in.
pub open spec fn answers_left(stage: LoginStage) -> int {
    match stage {
        LoginStage::Authorizing { answered } => MAX_ANSWERS - answered + 3,
        LoginStage::ReadingPage => 3,
        LoginStage::Submitted => 2,
        LoginStage::Exchanging => 1,
        LoginStage::Finished => 0,
    }
}

/// Every answer brings a login closer to its end, and so does the text of the page, so that
/// no login goes on for ever.
pub proof fn law_login_ends(
    login: LoginView,
    status: u16,
    redirect: Result<UrlView, Seq<char>>,
    address: Result<Seq<char>, Seq<char>>,
)
    ensures
        awaits_response(login.stage) ==> (after_response(login, status, redirect) matches Ok(
            (_, stage),
        ) ==> 0 <= answers_left(stage) < answers_left(login.stage)),
        login.stage == LoginStage::ReadingPage ==> (after_page(login, address) matches Ok(
            (_, stage),
        ) ==> 0 <= answers_left(stage) < answers_left(login.stage)),
{
}

/// What a login takes in: an answer, with where it sends the client, or what the text of the
/// login page came to.
pub enum LoginEventView {
    Answer { status: u16, redirect: Result<UrlView, Seq<char>> },
    Page { address: Result<Seq<char>, Seq<char>> },
}

/// What follows something that the login waited for, or nothing where it failed or waited
/// for something else.
pub open spec fn after_login_event(login: LoginView, event: LoginEventView) -> Option<
    (LoginActionView, LoginView),
> {
    let step = match event {
        LoginEventView::Answer { status, redirect } => if awaits_response(login.stage) {
            after_response(login, status, redirect)
        } else {
            Err(Seq::empty())
        },
        LoginEventView::Page { address } => if login.stage == LoginStage::ReadingPage {
            after_page(login, address)
        } else {
            Err(Seq::empty())
        },
    };
    match step {
        Ok((action, stage)) => Some((action, LoginView { stage, ..login })),
        Err(_) => None,
    }
}

/// How a login stands after a run of events, and the last thing that it asked for.
pub struct LoginRun {
    pub asked: Option<LoginActionView>,
    pub login: LoginView,
}

/// What a run of events comes to, if the login has not failed.
pub open spec fn after_login_events(login: LoginView, events: Seq<LoginEventView>) -> Option<
    LoginRun,
>
    decreases events.len(),
{
    if events.len() == 0 {
        Some(LoginRun { asked: None, login })
    } else {
        match after_login_events(login, events.drop_last()) {
            None => None,
            Some(run) => match after_login_event(run.login, events.last()) {
                None => None,
                Some((action, later)) => Some(LoginRun { asked: Some(action), login: later }),
            },
        }
    }
}

/// A login goes on for a bounded number of events, and its secrets stay those that it
/// started with.
pub proof fn law_login_run_is_bounded(login: LoginView, events: Seq<LoginEventView>)
    requires
        awaits_response(login.stage),
        after_login_events(login, events) is Some,
    ensures
        events.len() + answers_left(after_login_events(login, events)->0.login.stage) <= answers_left(
            login.stage,
        ),
        answers_left(after_login_events(login, events)->0.login.stage) >= 0,
        after_login_events(login, events)->0.login == (LoginView {
            stage: after_login_events(login, events)->0.login.stage,
            ..login
        }),
    decreases events.len(),
{
    if events.len() > 0 {
        law_login_run_is_bounded(login, events.drop_last());
    }
}

/// Whatever the provider answers, a login that exchanges a code does it with the verifier
/// whose challenge it showed when it started.
pub proof fn law_exchange_answers_the_challenge(
    login: LoginView,
    challenge: Seq<char>,
    events: Seq<LoginEventView>,
)
    requires
        awaits_response(login.stage),
        login.stage != LoginStage::Exchanging,
        challenge == challenge_for(login.verifier),
        after_login_events(login, events) is Some,
        after_login_events(login, events)->0.login.stage == LoginStage::Exchanging,
    ensures
        exists|code: Seq<char>, verifier: Seq<char>|
            challenge_for(verifier) == challenge && after_login_events(login, events)->0.asked
                == Some(LoginActionView::Send(#[trigger] token_request(code, verifier))),
{
    law_login_run_is_bounded(login, events.drop_last());
    let earlier = after_login_events(login, events.drop_last())->0.login;
    match events.last() {
        LoginEventView::Answer { status, redirect } => {
            law_code_comes_from_own_callback(earlier, status, redirect);
            let code = last_value(redirect->Ok_0.query_pairs, "code"@)->0;
            assert(after_login_events(login, events)->0.asked == Some(
                LoginActionView::Send(token_request(code, login.verifier)),
            ));
        },
        LoginEventView::Page { address } => {},
    }
}

/// A login asks the next thing of whoever runs it: it sends a request exactly where it then
/// waits for an answer, and asks for the page exactly where it then waits for the page.
pub proof fn law_login_waits_for_what_it_asked(
    login: LoginView,
    status: u16,
    redirect: Result<UrlView, Seq<char>>,
)
    requires
        awaits_response(login.stage),
    ensures
        after_response(login, status, redirect) matches Ok((action, stage)) ==> {
            &&& action is Send <==> awaits_response(stage)
            &&& action is ReadPage <==> stage == LoginStage::ReadingPage
            &&& action is ReadToken <==> stage == LoginStage::Finished
        },
{
}

/// A code is exchanged only where the provider sent the client to the genuine callback, with
/// the state of this very login; and what is exchanged is the code from there with the
/// verifier of this login.
pub proof fn law_code_comes_from_own_callback(
    login: LoginView,
    status: u16,
    redirect: Result<UrlView, Seq<char>>,
)
    requires
        awaits_response(login.stage),
    ensures
        after_response(login, status, redirect) matches Ok((action, stage)) ==> stage
            == LoginStage::Exchanging ==> {
            &&& redirect is Ok
            &&& is_callback(redirect->Ok_0)
            &&& last_value(redirect->Ok_0.query_pairs, "state"@) == Some(login.state)
            &&& last_value(redirect->Ok_0.query_pairs, "code"@) is Some
            &&& action == LoginActionView::Send(
                token_request(
                    last_value(redirect->Ok_0.query_pairs, "code"@)->0,
                    login.verifier,
                ),
            )
        },
{
}

/// A token that was kept is used up to the end of its lifetime and not beyond.
pub proof fn law_token_is_used_for_its_lifetime(
    access_token: Seq<char>,
    expires_in: u64,
    stored: u64,
    now: u64,
)
    ensures
        usable_token(
            Some(kept_token(access_token, expires_in as int, stored as int)),
            now as int,
        ) == if now < stored + token_lifetime(expires_in as int) * NANOS_PER_SECOND {
            Some(access_token)
        } else {
            None
        },
{
}

/// A token that is good for longer than a minute is given up a minute before its end.
pub proof fn law_token_margin(expires_in: u64)
    requires
        expires_in > 60,
    ensures
        1 <= token_lifetime(expires_in as int) == expires_in - 60,
{
}

} // verus!
