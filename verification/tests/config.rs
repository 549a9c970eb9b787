use itmo_calendar_sync::config::{
    check_ttl, listen_addr_text, optional, parse_bool, required, Config, Environment,
    TelegramConfig,
};

const TOKEN: &str = "0123456789abcdef0123456789abcdef";

fn some(text: &str) -> Option<String> {
    Some(text.to_owned())
}

fn environment() -> Environment {
    Environment {
        listen_addr: None,
        calendar_token: some(TOKEN),
        cache_ttl_seconds: None,
        telegram_bot_token: None,
        telegram_chat_id: None,
        telegram_proxy_url: None,
        telegram_silent: None,
        itmo_username: some(" user "),
        itmo_password: some("secret"),
    }
}

fn complaint(environment: &Environment) -> String {
    Config::<u8>::from_env(environment, Ok(1)).unwrap_err().to_string()
}

#[test]
fn settings_have_defaults() {
    let config = Config::from_env(&environment(), Ok(7_u8)).unwrap();

    assert_eq!(config.listen_addr, 7);
    assert_eq!(config.calendar_token, TOKEN);
    assert_eq!(config.itmo_username, "user");
    assert_eq!(config.itmo_password, "secret");
    assert_eq!(config.cache_ttl, 900);
    assert!(config.telegram.is_none());
    assert_eq!(listen_addr_text(&environment()), "0.0.0.0:3000");
    let mut given = environment();
    given.listen_addr = some(" [::1]:80");
    assert_eq!(listen_addr_text(&given), " [::1]:80");
}

#[test]
fn first_complaint_about_the_settings_counts() {
    let mut broken = Environment {
        listen_addr: None,
        calendar_token: None,
        cache_ttl_seconds: some("0"),
        telegram_bot_token: some("bot"),
        telegram_chat_id: some(" "),
        telegram_proxy_url: None,
        telegram_silent: some("maybe"),
        itmo_username: some("\t"),
        itmo_password: None,
    };

    assert_eq!(
        Config::<u8>::from_env(&broken, Err("no address".to_owned())).unwrap_err().to_string(),
        "invalid LISTEN_ADDR: no address"
    );
    assert_eq!(complaint(&broken), "CALENDAR_TOKEN is required");
    broken.calendar_token = some(&TOKEN[1..]);
    assert_eq!(complaint(&broken), "CALENDAR_TOKEN must contain at least 32 characters");
    broken.calendar_token = some(TOKEN);
    assert_eq!(complaint(&broken), "CACHE_TTL_SECONDS must be greater than zero");
    broken.cache_ttl_seconds = some(" 5");
    assert_eq!(
        complaint(&broken),
        "invalid CACHE_TTL_SECONDS: invalid digit found in string"
    );
    broken.cache_ttl_seconds = some("5");
    assert_eq!(
        complaint(&broken),
        "TELEGRAM_BOT_TOKEN and TELEGRAM_CHAT_ID must be set together"
    );
    broken.telegram_chat_id = some("chat");
    assert_eq!(complaint(&broken), "TELEGRAM_SILENT must be true or false");
    broken.telegram_silent = some(" oN ");
    assert_eq!(complaint(&broken), "ITMO_USERNAME is required");
    broken.itmo_username = some("user");
    assert_eq!(complaint(&broken), "ITMO_PASSWORD is required");
    broken.itmo_password = some("secret");
    let config = Config::from_env(&broken, Ok(1)).unwrap();
    assert_eq!(config.cache_ttl, 5);
    let telegram = config.telegram.unwrap();
    assert_eq!(telegram.bot_token, "bot");
    assert_eq!(telegram.chat_id, "chat");
    assert_eq!(telegram.proxy_url, None);
    assert!(telegram.silent);
}

#[test]
fn chat_without_a_bot_is_refused() {
    let mut settings = environment();
    settings.telegram_chat_id = some("chat");

    assert_eq!(
        complaint(&settings),
        "TELEGRAM_BOT_TOKEN and TELEGRAM_CHAT_ID must be set together"
    );
}

#[test]
fn token_is_measured_in_bytes() {
    let mut settings = environment();
    settings.calendar_token = some(&"ж".repeat(16));
    assert!(Config::from_env(&settings, Ok(1)).is_ok());
    settings.calendar_token = some(&"ж".repeat(15));
    assert!(Config::from_env(&settings, Ok(1)).is_err());
    settings.calendar_token = some(&format!(" {} ", &TOKEN[1..]));
    assert!(Config::from_env(&settings, Ok(1)).is_err());
}

#[test]
fn cache_lifetime_is_a_positive_number() {
    let mut settings = environment();
    for (text, seconds) in [
        ("1", 1),
        ("+900", 900),
        ("007", 7),
        ("18446744073709551615", u64::MAX),
    ] {
        settings.cache_ttl_seconds = some(text);
        assert_eq!(Config::from_env(&settings, Ok(1)).unwrap().cache_ttl, seconds);
    }
    for (text, message) in [
        ("", "invalid CACHE_TTL_SECONDS: cannot parse integer from empty string"),
        ("+", "invalid CACHE_TTL_SECONDS: invalid digit found in string"),
        ("-1", "invalid CACHE_TTL_SECONDS: invalid digit found in string"),
        ("1e3", "invalid CACHE_TTL_SECONDS: invalid digit found in string"),
        (
            "18446744073709551616",
            "invalid CACHE_TTL_SECONDS: number too large to fit in target type",
        ),
        ("+000", "CACHE_TTL_SECONDS must be greater than zero"),
    ] {
        settings.cache_ttl_seconds = some(text);
        assert_eq!(complaint(&settings), message);
    }
    assert_eq!(check_ttl(Ok(1)).unwrap(), 1);
    assert_eq!(
        check_ttl(Err("why".to_owned())).unwrap_err().to_string(),
        "invalid CACHE_TTL_SECONDS: why"
    );
}

#[test]
fn yes_and_no_have_four_words_each() {
    for word in ["true", "1", "yes", "on", "TRUE", " Yes\n"] {
        assert!(parse_bool("X", &some(word), false).unwrap());
    }
    for word in ["false", "0", "no", "off", "OFF", "\u{2003}nO"] {
        assert!(!parse_bool("X", &some(word), true).unwrap());
    }
    for unset in [None, some(""), some("  ")] {
        assert!(parse_bool("X", &unset, true).unwrap());
        assert!(!parse_bool("X", &unset, false).unwrap());
    }
    for word in ["2", "y", "ｏn", "tru e"] {
        assert_eq!(
            parse_bool("X", &some(word), true).unwrap_err().to_string(),
            "X must be true or false"
        );
    }
}

#[test]
fn settings_are_trimmed() {
    assert_eq!(optional(&some("\u{3000}a b\r\n")).as_deref(), Some("a b"));
    assert_eq!(optional(&some(" \t")), None);
    assert_eq!(optional(&None), None);
    assert_eq!(required("X", &some(" v ")).unwrap(), "v");
    assert_eq!(required("X", &some(" ")).unwrap_err().to_string(), "X is required");
}

#[test]
fn credentials_can_be_read_alone() {
    let mut settings = environment();
    settings.calendar_token = None;

    assert_eq!(
        Config::<u8>::itmo_credentials_from_env(&settings).unwrap(),
        ("user".to_owned(), "secret".to_owned())
    );
    settings.itmo_password = some("");
    assert_eq!(
        Config::<u8>::itmo_credentials_from_env(&settings).unwrap_err().to_string(),
        "ITMO_PASSWORD is required"
    );
}

#[test]
fn settings_can_be_cloned() {
    let telegram = TelegramConfig {
        bot_token: "bot".to_owned(),
        chat_id: "chat".to_owned(),
        proxy_url: some("socks5://proxy"),
        silent: true,
    };
    let copy = telegram.clone();

    assert_eq!(copy.bot_token, telegram.bot_token);
    assert_eq!(copy.chat_id, telegram.chat_id);
    assert_eq!(copy.proxy_url, telegram.proxy_url);
    assert_eq!(copy.silent, telegram.silent);
}
