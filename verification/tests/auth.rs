use itmo_calendar_sync::auth::{
    authorization, decode_address, extract_authorization_code, extract_login_action,
    is_login_callback, quote_address, AuthClient, Login, LoginAction, LoginStage, TokenResponse,
};
use itmo_calendar_sync::error::any_error;
use itmo_calendar_sync::web::{HttpRequest, HttpResponse, Url};

#[test]
fn extracts_login_action_from_current_page_format() {
    let page = r#"{
            "url": {
                "loginAction": "https:\/\/id.itmo.ru\/auth\/realms\/itmo\/login-actions\/authenticate?session_code=abc&amp;execution=def"
            }
        }"#;

    let action = extract_login_action(page).expect("login action must be parsed");

    assert_eq!(
        action,
        "https://id.itmo.ru/auth/realms/itmo/login-actions/authenticate?session_code=abc&execution=def"
    );
}

#[test]
fn accepts_direct_sso_callback() {
    let callback = Url::parse(
        "https://my.itmo.ru/login/callback?session_state=session&state=expected&code=auth-code",
    )
    .expect("callback URL must be valid");

    assert!(is_login_callback(&callback));
    assert_eq!(
        extract_authorization_code(&callback, "expected")
            .expect("authorization code must be parsed"),
        "auth-code"
    );
}

#[test]
fn rejects_callback_with_wrong_state() {
    let callback = Url::parse("https://my.itmo.ru/login/callback?state=wrong&code=auth-code")
        .expect("callback URL must be valid");

    let error =
        extract_authorization_code(&callback, "expected").expect_err("wrong state must be rejected");

    assert_eq!(
        error.to_string(),
        "ITMO login returned an invalid OAuth state"
    );
}

#[test]
fn rejects_lookalike_callback_host() {
    let callback = Url::parse("https://my.itmo.ru.attacker.example/login/callback?state=x&code=y")
        .expect("callback URL must be valid");

    assert!(!is_login_callback(&callback));
}

#[test]
fn rejects_wrong_callback_path() {
    let callback = Url::parse("https://my.itmo.ru/login/callback/extra?state=x&code=y")
        .expect("callback URL must be valid");

    assert!(!is_login_callback(&callback));
}

#[test]
fn callback_must_be_https_on_its_port() {
    for (text, genuine) in [
        ("https://my.itmo.ru/login/callback", true),
        ("https://my.itmo.ru:443/login/callback", true),
        ("https://MY.ITMO.RU/login/callback", true),
        ("http://my.itmo.ru/login/callback", false),
        ("http://my.itmo.ru:443/login/callback", false),
        ("https://my.itmo.ru:8443/login/callback", false),
        ("https://user@my.itmo.ru/login/callback#fragment", true),
        ("mailto:my.itmo.ru", false),
    ] {
        let url = Url::parse(text).expect("address must be valid");
        assert_eq!(is_login_callback(&url), genuine, "{text}");
    }
}

#[test]
fn addresses_are_taken_apart() {
    let url = Url::parse("HTTPS://Example.org/a%20b/../c?x=1&y=%D0%96+z&x=2").unwrap();

    assert_eq!(url.text, "https://example.org/c?x=1&y=%D0%96+z&x=2");
    assert_eq!(url.scheme, "https");
    assert_eq!(url.host.as_deref(), Some("example.org"));
    assert_eq!(url.port, Some(443));
    assert_eq!(url.path, "/c");
    assert_eq!(
        url.query_pairs,
        vec![
            ("x".to_owned(), "1".to_owned()),
            ("y".to_owned(), "Ж z".to_owned()),
            ("x".to_owned(), "2".to_owned()),
        ]
    );
    assert_eq!(
        Url::parse("/login").expect_err("a reference is no address"),
        "relative URL without a base"
    );
}

#[test]
fn the_last_code_and_state_count() {
    let url = Url::parse("https://h/?code=a&state=s&code=b&state=t").unwrap();

    assert_eq!(extract_authorization_code(&url, "t").unwrap(), "b");
    assert!(extract_authorization_code(&url, "s").is_err());
}

#[test]
fn callback_without_code_or_state_is_rejected() {
    let no_code = Url::parse("https://h/?state=s").unwrap();
    assert_eq!(
        extract_authorization_code(&no_code, "s").unwrap_err().to_string(),
        "ITMO login returned no authorization code"
    );
    let no_state = Url::parse("https://h/?code=c").unwrap();
    assert_eq!(
        extract_authorization_code(&no_state, "").unwrap_err().to_string(),
        "ITMO login returned an invalid OAuth state"
    );
}

#[test]
fn login_page_without_form_is_rejected() {
    assert_eq!(
        extract_login_action("<html></html>").unwrap_err().to_string(),
        "ITMO login form was not found"
    );
    assert_eq!(
        extract_login_action(r#""loginAction": """#).unwrap_err().to_string(),
        "ITMO login form was not found"
    );
    assert_eq!(
        extract_login_action(r#""loginAction": "\q""#).unwrap_err().to_string(),
        "ITMO login form address could not be decoded"
    );
}

#[test]
fn first_form_on_the_page_counts() {
    let page = "\"loginAction\"\n:\t\"https://a\" \"loginAction\":\"https://b\"";

    assert_eq!(extract_login_action(page).unwrap(), "https://a");
}

#[test]
fn found_address_is_quoted_and_decoded() {
    assert_eq!(quote_address(Ok(Some("a".to_owned()))).unwrap(), "\"a\"");
    assert_eq!(
        quote_address(Err("bad pattern".to_owned())).unwrap_err().to_string(),
        "cannot prepare login parser: bad pattern"
    );
    assert_eq!(
        decode_address(Some("a?b&amp;amp;c&amp;d&amp".to_owned())).unwrap(),
        "a?b&amp;c&d&amp"
    );
}

fn pairs(items: &[(&str, &str)]) -> Vec<(String, String)> {
    items.iter().map(|(name, value)| ((*name).to_owned(), (*value).to_owned())).collect()
}

fn sent(action: LoginAction) -> HttpRequest {
    match action {
        LoginAction::Send(request) => request,
        other => panic!("a request was expected, not {other:?}"),
    }
}

fn get(request: HttpRequest) -> (String, Vec<(String, String)>) {
    match request {
        HttpRequest::Get { url, query } => (url, query),
        other => panic!("{other:?}"),
    }
}

fn post(request: HttpRequest) -> (String, Vec<(String, String)>) {
    match request {
        HttpRequest::PostForm { url, form } => (url, form),
        other => panic!("{other:?}"),
    }
}

fn response(status: u16, url: &str, location: Option<&str>) -> HttpResponse {
    HttpResponse {
        status,
        url: Url::parse(url).unwrap(),
        location: location.map(|text| text.as_bytes().to_vec()),
    }
}

const START: &str = "https://id.itmo.ru/auth/realms/itmo/protocol/openid-connect/auth";

// The example of RFC 7636, appendix B.
const VERIFIER_BYTES: [u8; 32] = [
    116, 24, 223, 180, 151, 153, 224, 37, 79, 250, 96, 125, 216, 173, 187, 186, 22, 212, 37, 77,
    105, 214, 191, 240, 91, 88, 5, 88, 83, 132, 141, 121,
];

fn begin() -> (Login, HttpRequest) {
    Login::begin("user", "secret", &VERIFIER_BYTES.to_vec(), &vec![255, 239, 190])
}

#[test]
fn login_starts_with_the_challenge_for_its_verifier() {
    let (login, request) = begin();

    assert_eq!(login.verifier, "dBjftJeZ4CVP-mB92K27uhbUJU1p1r_wW1gFWFOEjXk");
    assert_eq!(login.state, "_---");
    assert_eq!(login.stage, LoginStage::Authorizing { answered: 0 });
    assert_eq!(
        get(request),
        (
            START.to_owned(),
            pairs(&[
                ("protocol", "oauth2"),
                ("response_type", "code"),
                ("client_id", "student-personal-cabinet"),
                ("redirect_uri", "https://my.itmo.ru/login/callback"),
                ("scope", "openid"),
                ("state", "_---"),
                ("code_challenge_method", "S256"),
                ("code_challenge", "E9Melhoa2OwvFrEMTJguCHaoeK1t8URWbuGJSstw-cM"),
            ])
        )
    );
    let (_, query) = get(authorization("s", "c"));
    assert_eq!(query[7], ("code_challenge".to_owned(), "c".to_owned()));
}

#[test]
fn base64_has_no_padding() {
    for (bytes, text) in [
        (vec![], ""),
        (vec![0], "AA"),
        (vec![102], "Zg"),
        (vec![102, 111], "Zm8"),
        (vec![102, 111, 111], "Zm9v"),
        (vec![102, 111, 111, 98], "Zm9vYg"),
        (vec![251, 255], "-_8"),
    ] {
        let (login, _) = Login::begin("", "", &vec![], &bytes);
        assert_eq!(login.state, text);
    }
}

#[test]
fn logins_have_fresh_secrets() {
    let client = AuthClient::new("user".to_owned(), "secret".to_owned());
    let (first, _) = client.authenticate();
    let (second, _) = client.authenticate();

    assert_eq!(first.username, "user");
    assert_eq!(first.password, "secret");
    assert_eq!(first.verifier.len(), 64);
    assert_eq!(first.state.len(), 32);
    assert_ne!(first.verifier, second.verifier);
    assert_ne!(first.state, second.state);
}

#[test]
fn login_runs_through_page_form_and_exchange() {
    let (mut login, _) = begin();

    let action = login.on_response(&response(302, START, Some("/auth/step?x=1"))).unwrap();
    assert_eq!(get(sent(action)), ("https://id.itmo.ru/auth/step?x=1".to_owned(), vec![]));
    assert_eq!(login.stage, LoginStage::Authorizing { answered: 1 });

    let action = login.on_response(&response(200, START, None)).unwrap();
    assert!(matches!(action, LoginAction::ReadPage));

    let action = login.on_page(r#""loginAction" : "https://id.itmo.ru/form?a&amp;b""#).unwrap();
    assert_eq!(
        post(sent(action)),
        (
            "https://id.itmo.ru/form?a&b".to_owned(),
            pairs(&[("username", "user"), ("password", "secret"), ("credentialId", "")])
        )
    );

    let callback = "https://my.itmo.ru/login/callback?state=_---&code=abc";
    let action = login.on_response(&response(303, START, Some(callback))).unwrap();
    assert_eq!(
        post(sent(action)),
        (
            "https://id.itmo.ru/auth/realms/itmo/protocol/openid-connect/token".to_owned(),
            pairs(&[
                ("grant_type", "authorization_code"),
                ("client_id", "student-personal-cabinet"),
                ("redirect_uri", "https://my.itmo.ru/login/callback"),
                ("code", "abc"),
                ("code_verifier", "dBjftJeZ4CVP-mB92K27uhbUJU1p1r_wW1gFWFOEjXk"),
            ])
        )
    );

    let action = login.on_response(&response(200, START, None)).unwrap();
    assert!(matches!(action, LoginAction::ReadToken));
    assert_eq!(login.stage, LoginStage::Finished);
}

#[test]
fn callback_may_come_without_a_login_page() {
    let (mut login, _) = begin();
    let callback = "https://my.itmo.ru/login/callback?state=_---&code=abc";

    let action = login.on_response(&response(307, START, Some(callback))).unwrap();

    assert_eq!(post(sent(action)).1[3], ("code".to_owned(), "abc".to_owned()));
    assert_eq!(login.stage, LoginStage::Exchanging);
}

#[test]
fn ten_redirects_are_too_many() {
    let (mut login, _) = begin();
    for answered in 1..10 {
        login.on_response(&response(302, START, Some("/next"))).unwrap();
        assert_eq!(login.stage, LoginStage::Authorizing { answered });
    }

    let error = login.on_response(&response(302, START, Some("/next"))).unwrap_err();

    assert_eq!(error.to_string(), "too many redirects during ITMO authorization");
    assert_eq!(login.stage, LoginStage::Finished);
}

#[test]
fn failing_answers_end_the_login() {
    let fails = |response: &HttpResponse, stage: LoginStage| {
        let (mut login, _) = begin();
        login.stage = stage;
        let error = login.on_response(response).unwrap_err();
        assert_eq!(login.stage, LoginStage::Finished);
        error.to_string()
    };
    let start = LoginStage::Authorizing { answered: 0 };

    assert_eq!(
        fails(&response(404, START, None), start),
        "ITMO authorization page returned 404 Not Found"
    );
    assert_eq!(
        fails(&response(599, START, None), start),
        "ITMO authorization page returned 599 <unknown status code>"
    );
    assert_eq!(fails(&response(302, START, None), start), "ITMO redirect has no location");
    assert_eq!(
        fails(&response(302, START, Some("/путь")), start),
        "ITMO redirect location is not valid text"
    );
    assert_eq!(
        fails(&response(302, START, Some("https://[")), start),
        "invalid ITMO redirect: invalid IPv6 address"
    );
    assert_eq!(
        fails(&response(200, START, None), LoginStage::Submitted),
        "ITMO login was rejected; check the username, password, or required login action"
    );
    assert_eq!(
        fails(&response(301, START, Some("/x")), LoginStage::Submitted),
        "ITMO login was rejected; check the username, password, or required login action"
    );
    assert_eq!(
        fails(&response(302, START, Some("/x")), LoginStage::Submitted),
        "ITMO login returned an unexpected redirect"
    );
    assert_eq!(
        fails(&response(400, START, None), LoginStage::Exchanging),
        "ITMO token endpoint returned 400 Bad Request"
    );
}

#[test]
fn failing_page_ends_the_login() {
    let (mut login, _) = begin();
    login.stage = LoginStage::ReadingPage;

    let error = login.on_form(Err(any_error("no form"))).unwrap_err();

    assert_eq!(error.to_string(), "no form");
    assert_eq!(login.stage, LoginStage::Finished);
}

fn token(expires_in: u64) -> TokenResponse {
    TokenResponse { access_token: "token".to_owned(), expires_in }
}

#[test]
fn token_is_used_until_a_minute_before_its_end() {
    const SECOND: u64 = 1_000_000_000;
    for (expires_in, lifetime) in [(0, 1), (1, 1), (60, 1), (61, 1), (62, 2), (300, 240)] {
        let mut client = AuthClient::new("user".to_owned(), "secret".to_owned());
        assert_eq!(client.access_token(0), None);

        assert_eq!(client.keep_token(token(expires_in), 5), "token");

        assert_eq!(client.access_token(5).as_deref(), Some("token"));
        assert_eq!(client.access_token(4 + lifetime * SECOND).as_deref(), Some("token"));
        assert_eq!(client.access_token(5 + lifetime * SECOND), None);
    }
}

#[test]
fn token_can_be_given_up() {
    let mut client = AuthClient::new("user".to_owned(), "secret".to_owned());
    client.keep_token(token(u64::MAX), u64::MAX);
    assert_eq!(client.access_token(u64::MAX).as_deref(), Some("token"));

    client.invalidate();

    assert_eq!(client.access_token(0), None);
    assert_eq!(client.username, "user");
}
