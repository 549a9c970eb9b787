//! The settings, as the environment gives them.

use vstd::prelude::*;
use vstd::utf8::encode_utf8;

use crate::error::{any_error, outcome, AnyError};
use crate::text::{ascii_lower, ascii_lower_text, glued, is_digit, same_text, trim, trimmed};

verus! {

/// How failures are reported by Telegram.
#[derive(Debug)]
pub struct TelegramConfig {
    pub bot_token: String,
    pub chat_id: String,
    pub proxy_url: Option<String>,
    pub silent: bool,
}

/// The settings of the service. The address to listen on is of whatever type the caller
/// binds with; the cache is kept for a number of seconds.
#[derive(Debug, Clone)]
pub struct Config<Address> {
    pub listen_addr: Address,
    pub calendar_token: String,
    pub itmo_username: String,
    pub itmo_password: String,
    pub cache_ttl: u64,
    pub telegram: Option<TelegramConfig>,
}

/// The settings for Telegram, with every text taken by its characters.
pub struct TelegramConfigView {
    pub bot_token: Seq<char>,
    pub chat_id: Seq<char>,
    pub proxy_url: Option<Seq<char>>,
    pub silent: bool,
}

impl DeepView for TelegramConfig {
    type V = TelegramConfigView;

    open spec fn deep_view(&self) -> TelegramConfigView {
        TelegramConfigView {
            bot_token: self.bot_token@,
            chat_id: self.chat_id@,
            proxy_url: self.proxy_url.deep_view(),
            silent: self.silent,
        }
    }
}

impl Clone for TelegramConfig {
    fn clone(&self) -> (copy: TelegramConfig)
        ensures
            copy.deep_view() == self.deep_view(),
    {
        TelegramConfig {
            bot_token: self.bot_token.clone(),
            chat_id: self.chat_id.clone(),
            proxy_url: match &self.proxy_url {
                Some(proxy_url) => Some(proxy_url.clone()),
                None => None,
            },
            silent: self.silent,
        }
    }
}

/// The settings of the service, with every text taken by its characters.
pub struct ConfigView<Address> {
    pub listen_addr: Address,
    pub calendar_token: Seq<char>,
    pub itmo_username: Seq<char>,
    pub itmo_password: Seq<char>,
    pub cache_ttl: u64,
    pub telegram: Option<TelegramConfigView>,
}

impl<Address> View for Config<Address> {
    type V = ConfigView<Address>;

    open spec fn view(&self) -> ConfigView<Address> {
        ConfigView {
            listen_addr: self.listen_addr,
            calendar_token: self.calendar_token@,
            itmo_username: self.itmo_username@,
            itmo_password: self.itmo_password@,
            cache_ttl: self.cache_ttl,
            telegram: self.telegram.deep_view(),
        }
    }
}

/// The variables of the environment that hold the settings, as far as they are set.
#[derive(Debug)]
pub struct Environment {
    pub listen_addr: Option<String>,
    pub calendar_token: Option<String>,
    pub cache_ttl_seconds: Option<String>,
    pub telegram_bot_token: Option<String>,
    pub telegram_chat_id: Option<String>,
    pub telegram_proxy_url: Option<String>,
    pub telegram_silent: Option<String>,
    pub itmo_username: Option<String>,
    pub itmo_password: Option<String>,
}

/// The variables, with every text taken by its characters.
pub struct EnvironmentView {
    pub listen_addr: Option<Seq<char>>,
    pub calendar_token: Option<Seq<char>>,
    pub cache_ttl_seconds: Option<Seq<char>>,
    pub telegram_bot_token: Option<Seq<char>>,
    pub telegram_chat_id: Option<Seq<char>>,
    pub telegram_proxy_url: Option<Seq<char>>,
    pub telegram_silent: Option<Seq<char>>,
    pub itmo_username: Option<Seq<char>>,
    pub itmo_password: Option<Seq<char>>,
}

impl View for Environment {
    type V = EnvironmentView;

    open spec fn view(&self) -> EnvironmentView {
        EnvironmentView {
            listen_addr: self.listen_addr.deep_view(),
            calendar_token: self.calendar_token.deep_view(),
            cache_ttl_seconds: self.cache_ttl_seconds.deep_view(),
            telegram_bot_token: self.telegram_bot_token.deep_view(),
            telegram_chat_id: self.telegram_chat_id.deep_view(),
            telegram_proxy_url: self.telegram_proxy_url.deep_view(),
            telegram_silent: self.telegram_silent.deep_view(),
            itmo_username: self.itmo_username.deep_view(),
            itmo_password: self.itmo_password.deep_view(),
        }
    }
}

/// A variable without the white space around it, if it is set and there is anything else.
pub open spec fn optional_setting(value: Option<Seq<char>>) -> Option<Seq<char>> {
    match value {
        Some(text) if trimmed(text).len() > 0 => Some(trimmed(text)),
        _ => None,
    }
}

/// A variable that has to say something.
pub open spec fn required_setting(name: Seq<char>, value: Option<Seq<char>>) -> Result<
    Seq<char>,
    Seq<char>,
> {
    match optional_setting(value) {
        Some(text) => Ok(text),
        None => Err(name + " is required"@),
    }
}

/// A variable that says yes or no, with the answer where it says nothing.
pub open spec fn bool_setting(name: Seq<char>, value: Option<Seq<char>>, default: bool) -> Result<
    bool,
    Seq<char>,
> {
    match optional_setting(value) {
        None => Ok(default),
        Some(text) => {
            let word = ascii_lower(text);
            if word == "true"@ || word == "1"@ || word == "yes"@ || word == "on"@ {
                Ok(true)
            } else if word == "false"@ || word == "0"@ || word == "no"@ || word == "off"@ {
                Ok(false)
            } else {
                Err(name + " must be true or false"@)
            }
        },
    }
}

/// A variable without the white space around it, if it is set and there is anything else.
pub fn optional(value: &Option<String>) -> (setting: Option<String>)
    ensures
        setting.deep_view() == optional_setting(value.deep_view()),
{
    match value {
        None => None,
        Some(text) => {
            let setting = trim(text.as_str());
            if setting.as_str().is_empty() {
                None
            } else {
                Some(setting)
            }
        },
    }
}

/// A variable that has to say something.
pub fn required(name: &str, value: &Option<String>) -> (setting: Result<String, AnyError>)
    ensures
        outcome(setting) == required_setting(name@, value.deep_view()),
{
    match optional(value) {
        Some(text) => Ok(text),
        None => Err(any_error(glued(name, " is required").as_str())),
    }
}

/// A variable that says yes or no, with the answer where it says nothing.
pub fn parse_bool(name: &str, value: &Option<String>, default: bool) -> (setting: Result<
    bool,
    AnyError,
>)
    ensures
        outcome(setting) == bool_setting(name@, value.deep_view(), default),
{
    match optional(value) {
        None => Ok(default),
        Some(text) => {
            let lower = ascii_lower_text(text.as_str());
            let word = lower.as_str();
            if same_text(word, "true") || same_text(word, "1") || same_text(word, "yes")
                || same_text(word, "on") {
                Ok(true)
            } else if same_text(word, "false") || same_text(word, "0") || same_text(word, "no")
                || same_text(word, "off") {
                Ok(false)
            } else {
                Err(any_error(glued(name, " must be true or false").as_str()))
            }
        },
    }
}

/// The number that the decimal digits stand for.
pub open spec fn number_value(digits: Seq<char>) -> nat
    decreases digits.len(),
{
    if digits.len() == 0 {
        0
    } else {
        number_value(digits.drop_last()) * 10 + (digits.last() as u32 - 48) as nat
    }
}

/// The number that a text stands for: decimal digits, with a plus in front or without, as
/// long as the number has sixty-four bits.
pub open spec fn u64_value(text: Seq<char>) -> Option<u64> {
    let digits = if text.len() > 0 && text[0] == '+' {
        text.skip(1)
    } else {
        text
    };
    if digits.len() > 0 && (forall|i: int| 0 <= i < digits.len() ==> is_digit(#[trigger] digits[i]))
        && number_value(digits) <= u64::MAX {
        Some(number_value(digits) as u64)
    } else {
        None
    }
}

/// What the error of `u64::from_str` says about a text that is no number.
pub uninterp spec fn u64_complaint(text: Seq<char>) -> Seq<char>;

/// What came of a text that should be a number.
pub open spec fn number_view(number: Result<u64, String>) -> Result<u64, Seq<char>> {
    match number {
        Ok(value) => Ok(value),
        Err(message) => Err(message@),
    }
}

/// What comes of a text that should be a number.
pub open spec fn number_setting(text: Seq<char>) -> Result<u64, Seq<char>> {
    match u64_value(text) {
        Some(value) => Ok(value),
        None => Err(u64_complaint(text)),
    }
}

/// Calls `str::parse` for a `u64`. The claims are which texts are numbers and which number
/// each of them is; how the error words its complaint is left to the standard library, and
/// the text alone decides it.
#[verifier::external_body]
fn parse_u64(text: &str) -> (number: Result<u64, String>)
    ensures
        match u64_value(text@) {
            Some(value) => number is Ok && number->Ok_0 == value,
            None => number is Err && number->Err_0@ == u64_complaint(text@),
        },
{
    text.parse::<u64>().map_err(|error| error.to_string())
}

/// How long the cache is kept, given what the variable came to as a number.
pub open spec fn ttl_from(number: Result<u64, Seq<char>>) -> Result<u64, Seq<char>> {
    match number {
        Err(message) => Err("invalid CACHE_TTL_SECONDS: "@ + message),
        Ok(0) => Err("CACHE_TTL_SECONDS must be greater than zero"@),
        Ok(seconds) => Ok(seconds),
    }
}

/// How long the cache is kept, in seconds. The variable is taken as it is, with the white
/// space around it.
pub open spec fn ttl_setting(value: Option<Seq<char>>) -> Result<u64, Seq<char>> {
    ttl_from(
        number_setting(
            match value {
                Some(text) => text,
                None => "900"@,
            },
        ),
    )
}

/// How long the cache is kept, given what the variable came to as a number.
pub fn check_ttl(number: Result<u64, String>) -> (ttl: Result<u64, AnyError>)
    ensures
        outcome(ttl) == ttl_from(number_view(number)),
{
    match number {
        Err(message) => Err(
            any_error(glued("invalid CACHE_TTL_SECONDS: ", message.as_str()).as_str()),
        ),
        Ok(seconds) => {
            if seconds == 0 {
                Err(any_error("CACHE_TTL_SECONDS must be greater than zero"))
            } else {
                Ok(seconds)
            }
        },
    }
}

/// How long the cache is kept, in seconds.
fn cache_ttl(value: &Option<String>) -> (ttl: Result<u64, AnyError>)
    ensures
        outcome(ttl) == ttl_setting(value.deep_view()),
{
    match value {
        Some(text) => check_ttl(parse_u64(text.as_str())),
        None => check_ttl(parse_u64("900")),
    }
}

/// The word that opens the calendar, which has to be long enough.
pub open spec fn calendar_token_setting(value: Option<Seq<char>>) -> Result<Seq<char>, Seq<char>> {
    match required_setting("CALENDAR_TOKEN"@, value) {
        Err(message) => Err(message),
        Ok(token) => if encode_utf8(token).len() < 32 {
            Err("CALENDAR_TOKEN must contain at least 32 characters"@)
        } else {
            Ok(token)
        },
    }
}

/// The word that opens the calendar, which has to be long enough.
fn calendar_token(value: &Option<String>) -> (token: Result<String, AnyError>)
    ensures
        outcome(token) == calendar_token_setting(value.deep_view()),
{
    match required("CALENDAR_TOKEN", value) {
        Err(error) => Err(error),
        Ok(token) => {
            if token.as_str().as_bytes().len() < 32 {
                Err(any_error("CALENDAR_TOKEN must contain at least 32 characters"))
            } else {
                Ok(token)
            }
        },
    }
}

/// The settings for Telegram: a bot and a chat, or neither.
pub open spec fn telegram_setting(environment: EnvironmentView) -> Result<
    Option<TelegramConfigView>,
    Seq<char>,
> {
    match (
        optional_setting(environment.telegram_bot_token),
        optional_setting(environment.telegram_chat_id),
    ) {
        (None, None) => Ok(None),
        (Some(bot_token), Some(chat_id)) => match bool_setting(
            "TELEGRAM_SILENT"@,
            environment.telegram_silent,
            false,
        ) {
            Err(message) => Err(message),
            Ok(silent) => Ok(
                Some(
                    TelegramConfigView {
                        bot_token,
                        chat_id,
                        proxy_url: optional_setting(environment.telegram_proxy_url),
                        silent,
                    },
                ),
            ),
        },
        _ => Err("TELEGRAM_BOT_TOKEN and TELEGRAM_CHAT_ID must be set together"@),
    }
}

/// What came of the settings for Telegram.
pub open spec fn telegram_outcome(telegram: Result<Option<TelegramConfig>, AnyError>) -> Result<
    Option<TelegramConfigView>,
    Seq<char>,
> {
    match telegram {
        Ok(telegram) => Ok(telegram.deep_view()),
        Err(error) => Err(error@),
    }
}

/// The settings for Telegram: a bot and a chat, or neither.
fn telegram(environment: &Environment) -> (telegram: Result<Option<TelegramConfig>, AnyError>)
    ensures
        telegram_outcome(telegram) == telegram_setting(environment@),
{
    let bot_token = optional(&environment.telegram_bot_token);
    let chat_id = optional(&environment.telegram_chat_id);
    match (bot_token, chat_id) {
        (None, None) => Ok(None),
        (Some(bot_token), Some(chat_id)) => match parse_bool(
            "TELEGRAM_SILENT",
            &environment.telegram_silent,
            false,
        ) {
            Err(error) => Err(error),
            Ok(silent) => Ok(
                Some(
                    TelegramConfig {
                        bot_token,
                        chat_id,
                        proxy_url: optional(&environment.telegram_proxy_url),
                        silent,
                    },
                ),
            ),
        },
        _ => Err(any_error("TELEGRAM_BOT_TOKEN and TELEGRAM_CHAT_ID must be set together")),
    }
}

/// The name and the password of the account.
pub open spec fn credentials_setting(environment: EnvironmentView) -> Result<
    (Seq<char>, Seq<char>),
    Seq<char>,
> {
    match required_setting("ITMO_USERNAME"@, environment.itmo_username) {
        Err(message) => Err(message),
        Ok(username) => match required_setting("ITMO_PASSWORD"@, environment.itmo_password) {
            Err(message) => Err(message),
            Ok(password) => Ok((username, password)),
        },
    }
}

/// What came of the name and the password of the account.
pub open spec fn credentials_outcome(credentials: Result<(String, String), AnyError>) -> Result<
    (Seq<char>, Seq<char>),
    Seq<char>,
> {
    match credentials {
        Ok((username, password)) => Ok((username@, password@)),
        Err(error) => Err(error@),
    }
}

/// The address to listen on, as a text.
pub open spec fn listen_addr_setting(environment: EnvironmentView) -> Seq<char> {
    match environment.listen_addr {
        Some(text) => text,
        None => "0.0.0.0:3000"@,
    }
}

/// The address to listen on, as a text that is still to be read.
pub fn listen_addr_text(environment: &Environment) -> (text: String)
    ensures
        text@ == listen_addr_setting(environment@),
{
    match &environment.listen_addr {
        Some(text) => text.clone(),
        None => "0.0.0.0:3000".to_owned(),
    }
}

/// The address that the text of it came to, or the complaint about the text.
pub open spec fn address_view<Address>(address: Result<Address, String>) -> Result<
    Address,
    Seq<char>,
> {
    match address {
        Ok(address) => Ok(address),
        Err(message) => Err(message@),
    }
}

/// The settings that the environment gives, or the first complaint about it.
pub open spec fn configured<Address>(
    environment: EnvironmentView,
    address: Result<Address, Seq<char>>,
) -> Result<ConfigView<Address>, Seq<char>> {
    match address {
        Err(message) => Err("invalid LISTEN_ADDR: "@ + message),
        Ok(listen_addr) => match calendar_token_setting(environment.calendar_token) {
            Err(message) => Err(message),
            Ok(calendar_token) => match ttl_setting(environment.cache_ttl_seconds) {
                Err(message) => Err(message),
                Ok(cache_ttl) => match telegram_setting(environment) {
                    Err(message) => Err(message),
                    Ok(telegram) => match credentials_setting(environment) {
                        Err(message) => Err(message),
                        Ok((itmo_username, itmo_password)) => Ok(
                            ConfigView {
                                listen_addr,
                                calendar_token,
                                itmo_username,
                                itmo_password,
                                cache_ttl,
                                telegram,
                            },
                        ),
                    },
                },
            },
        },
    }
}

impl<Address> Config<Address> {
    /// Takes the settings from the environment, given what the text of the address to listen
    /// on came to.
    pub fn from_env(environment: &Environment, address: Result<Address, String>) -> (config: Result<
        Config<Address>,
        AnyError,
    >)
        ensures
            outcome(config) == configured(environment@, address_view(address)),
    {
        let listen_addr = match address {
            Err(message) => {
                return Err(any_error(glued("invalid LISTEN_ADDR: ", message.as_str()).as_str()));
            },
            Ok(listen_addr) => listen_addr,
        };
        let calendar_token = match calendar_token(&environment.calendar_token) {
            Err(error) => {
                return Err(error);
            },
            Ok(calendar_token) => calendar_token,
        };
        let cache_ttl = match cache_ttl(&environment.cache_ttl_seconds) {
            Err(error) => {
                return Err(error);
            },
            Ok(cache_ttl) => cache_ttl,
        };
        let telegram = match telegram(environment) {
            Err(error) => {
                return Err(error);
            },
            Ok(telegram) => telegram,
        };
        match Self::itmo_credentials_from_env(environment) {
            Err(error) => Err(error),
            Ok((itmo_username, itmo_password)) => Ok(
                Config {
                    listen_addr,
                    calendar_token,
                    itmo_username,
                    itmo_password,
                    cache_ttl,
                    telegram,
                },
            ),
        }
    }

    /// Takes the name and the password of the account from the environment.
    pub fn itmo_credentials_from_env(environment: &Environment) -> (credentials: Result<
        (String, String),
        AnyError,
    >)
        ensures
            credentials_outcome(credentials) == credentials_setting(environment@),
    {
        match required("ITMO_USERNAME", &environment.itmo_username) {
            Err(error) => Err(error),
            Ok(username) => match required("ITMO_PASSWORD", &environment.itmo_password) {
                Err(error) => Err(error),
                Ok(password) => Ok((username, password)),
            },
        }
    }
}

/// Settings that are accepted have a token of at least thirty-two bytes, a cache that lives
/// for at least a second, and a name and a password that say something.
pub proof fn law_accepted_settings_are_sound<Address>(
    environment: EnvironmentView,
    address: Result<Address, Seq<char>>,
)
    requires
        configured(environment, address) is Ok,
    ensures
        encode_utf8(configured(environment, address)->Ok_0.calendar_token).len() >= 32,
        configured(environment, address)->Ok_0.cache_ttl > 0,
        configured(environment, address)->Ok_0.itmo_username.len() > 0,
        configured(environment, address)->Ok_0.itmo_password.len() > 0,
        configured(environment, address)->Ok_0.telegram matches Some(telegram) ==> {
            &&& telegram.bot_token.len() > 0
            &&& telegram.chat_id.len() > 0
        },
{
}

} // verus!
