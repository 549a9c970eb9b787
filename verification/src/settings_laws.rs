//! What the settings come to, whatever the environment holds.

use vstd::prelude::*;
use vstd::utf8::encode_utf8;

use crate::config::{
    bool_setting, calendar_token_setting, configured, credentials_setting, listen_addr_setting,
    number_value, optional_setting, required_setting, telegram_setting, ttl_setting,
    u64_complaint, u64_value, EnvironmentView,
};
use crate::schedule_laws::{law_decimal_is_read_back, read_decimal};
use crate::text::{ascii_lower, decimal, is_digit};
use crate::value_laws::{
    is_blank, is_plain, law_trimming_keeps_the_core, law_trimming_leaves_nothing_of_a_blank,
};

verus! {

/// A setting is its variable without the white space around it, whole; one that is blank is
/// as good as unset, and unset ones are complained about where they are needed.
pub proof fn law_setting_is_kept_whole(
    name: Seq<char>,
    before: Seq<char>,
    core: Seq<char>,
    after: Seq<char>,
    blank: Seq<char>,
)
    requires
        is_blank(before),
        is_plain(core),
        is_blank(after),
        is_blank(blank),
    ensures
        optional_setting(Some(before + core + after)) == Some(core),
        optional_setting(Some(blank)) is None,
        optional_setting(None) is None,
        required_setting(name, Some(before + core + after)) == Ok::<Seq<char>, Seq<char>>(core),
        required_setting(name, Some(blank)) == Err::<Seq<char>, Seq<char>>(name + " is required"@),
        required_setting(name, None) == Err::<Seq<char>, Seq<char>>(name + " is required"@),
{
    law_trimming_keeps_the_core(before, core, after);
    law_trimming_leaves_nothing_of_a_blank(blank);
}

/// Lower case changes `A` to `Z` alone, each to its own small letter.
pub proof fn law_lower_case_is_by_letter(text: Seq<char>, i: int)
    requires
        0 <= i < text.len(),
    ensures
        ascii_lower(text).len() == text.len(),
        'A' <= text[i] <= 'Z' ==> ascii_lower(text)[i] as int == text[i] as int + 32,
        !('A' <= text[i] <= 'Z') ==> ascii_lower(text)[i] == text[i],
{
}

/// Four words say yes and four say no, in any case; nothing said is the default, and every
/// other word is complained about.
pub proof fn law_yes_and_no_are_understood(
    name: Seq<char>,
    value: Option<Seq<char>>,
    default: bool,
)
    ensures
        match optional_setting(value) {
            None => bool_setting(name, value, default) == Ok::<bool, Seq<char>>(default),
            Some(text) => {
                let word = ascii_lower(text);
                let yes = word == "true"@ || word == "1"@ || word == "yes"@ || word == "on"@;
                let no = word == "false"@ || word == "0"@ || word == "no"@ || word == "off"@;
                &&& !(yes && no)
                &&& yes ==> bool_setting(name, value, default) == Ok::<bool, Seq<char>>(true)
                &&& no ==> bool_setting(name, value, default) == Ok::<bool, Seq<char>>(false)
                &&& !yes && !no ==> bool_setting(name, value, default) == Err::<bool, Seq<char>>(
                    name + " must be true or false"@,
                )
            },
        },
{
    reveal_strlit("true");
    reveal_strlit("1");
    reveal_strlit("yes");
    reveal_strlit("on");
    reveal_strlit("false");
    reveal_strlit("0");
    reveal_strlit("no");
    reveal_strlit("off");
    assert("yes"@[0] == 'y' && "off"@[0] == 'o');
    assert("on"@[0] == 'o' && "no"@[0] == 'n');
    assert("1"@[0] == '1' && "0"@[0] == '0');
    assert("yes"@ != "off"@ && "on"@ != "no"@ && "1"@ != "0"@);
    assert("true"@.len() == 4 && "yes"@.len() == 3 && "on"@.len() == 2 && "1"@.len() == 1);
    assert("false"@.len() == 5 && "off"@.len() == 3 && "no"@.len() == 2 && "0"@.len() == 1);
}

/// A number that is written in decimal is read as that number.
pub proof fn law_written_number_is_read(number: nat)
    requires
        number <= u64::MAX,
    ensures
        u64_value(decimal(number)) == Some(number as u64),
{
    let text = decimal(number);
    law_decimal_is_read_back(number);
    assert(text[0] != '+');
    assert forall|i: int| 0 <= i < text.len() implies is_digit(#[trigger] text[i]) by {}
    lemma_same_number(text);
}

proof fn lemma_same_number(text: Seq<char>)
    requires
        forall|i: int| 0 <= i < text.len() ==> is_digit(#[trigger] text[i]),
    ensures
        number_value(text) == read_decimal(text),
    decreases text.len(),
{
    if text.len() > 0 {
        let before = text.drop_last();
        assert forall|i: int| 0 <= i < before.len() implies is_digit(#[trigger] before[i]) by {
            assert(before[i] == text[i]);
        }
        lemma_same_number(before);
        assert(is_digit(text[text.len() - 1]));
    }
}

/// The cache lives for as many seconds as the variable says, or for a quarter of an hour
/// where it says nothing; no time at all and what is no number are complained about.
pub proof fn law_cache_lives_as_long_as_set(text: Seq<char>)
    ensures
        ttl_setting(None) == Ok::<u64, Seq<char>>(900),
        match u64_value(text) {
            None => ttl_setting(Some(text)) == Err::<u64, Seq<char>>(
                "invalid CACHE_TTL_SECONDS: "@ + u64_complaint(text),
            ),
            Some(seconds) => {
                &&& seconds > 0 ==> ttl_setting(Some(text)) == Ok::<u64, Seq<char>>(seconds)
                &&& seconds == 0 ==> ttl_setting(Some(text)) == Err::<u64, Seq<char>>(
                    "CACHE_TTL_SECONDS must be greater than zero"@,
                )
            },
        },
{
    reveal_strlit("900");
    reveal_with_fuel(decimal, 4);
    assert(decimal(900) == "900"@);
    law_written_number_is_read(900);
}

/// The word that opens the calendar is taken exactly where it has thirty-two bytes or more,
/// without the white space around it.
pub proof fn law_calendar_token_is_long_enough(value: Option<Seq<char>>)
    ensures
        match optional_setting(value) {
            None => calendar_token_setting(value) == Err::<Seq<char>, Seq<char>>(
                "CALENDAR_TOKEN"@ + " is required"@,
            ),
            Some(token) => {
                &&& encode_utf8(token).len() >= 32 ==> calendar_token_setting(value) == Ok::<
                    Seq<char>,
                    Seq<char>,
                >(token)
                &&& encode_utf8(token).len() < 32 ==> calendar_token_setting(value) == Err::<
                    Seq<char>,
                    Seq<char>,
                >("CALENDAR_TOKEN must contain at least 32 characters"@)
            },
        },
{
}

/// Telegram is used where both a bot and a chat are set, not used where neither is, and one
/// without the other is complained about.
pub proof fn law_bot_and_chat_belong_together(environment: EnvironmentView)
    ensures
        ({
            let bot = optional_setting(environment.telegram_bot_token);
            let chat = optional_setting(environment.telegram_chat_id);
            let silent = bool_setting("TELEGRAM_SILENT"@, environment.telegram_silent, false);
            let telegram = telegram_setting(environment);
            &&& bot is None && chat is None ==> telegram is Ok && telegram->Ok_0 is None
            &&& bot is Some != chat is Some ==> telegram is Err && telegram->Err_0
                == "TELEGRAM_BOT_TOKEN and TELEGRAM_CHAT_ID must be set together"@
            &&& bot is Some && chat is Some && silent is Err ==> telegram is Err && telegram->Err_0
                == silent->Err_0
            &&& bot is Some && chat is Some && silent is Ok ==> {
                &&& telegram is Ok
                &&& telegram->Ok_0 is Some
                &&& telegram->Ok_0->0.bot_token == bot->0
                &&& telegram->Ok_0->0.chat_id == chat->0
                &&& telegram->Ok_0->0.silent == silent->Ok_0
                &&& telegram->Ok_0->0.proxy_url == optional_setting(environment.telegram_proxy_url)
            }
        }),
{
}

/// The account is taken where both its name and its password are set; a missing name is
/// complained about first.
pub proof fn law_account_has_a_name_and_a_password(environment: EnvironmentView)
    ensures
        ({
            let name = optional_setting(environment.itmo_username);
            let password = optional_setting(environment.itmo_password);
            let account = credentials_setting(environment);
            &&& name is None ==> account == Err::<(Seq<char>, Seq<char>), Seq<char>>(
                "ITMO_USERNAME"@ + " is required"@,
            )
            &&& name is Some && password is None ==> account == Err::<
                (Seq<char>, Seq<char>),
                Seq<char>,
            >("ITMO_PASSWORD"@ + " is required"@)
            &&& name is Some && password is Some ==> account == Ok::<
                (Seq<char>, Seq<char>),
                Seq<char>,
            >((name->0, password->0))
        }),
{
}

/// The settings are accepted exactly where each of them is, and then hold each of them; else
/// the complaint is the first in the order of address, token, cache, Telegram and account.
pub proof fn law_settings_hold_what_was_set<Address>(
    environment: EnvironmentView,
    address: Result<Address, Seq<char>>,
)
    ensures
        ({
            let token = calendar_token_setting(environment.calendar_token);
            let ttl = ttl_setting(environment.cache_ttl_seconds);
            let telegram = telegram_setting(environment);
            let account = credentials_setting(environment);
            let config = configured(environment, address);
            &&& config is Ok <==> address is Ok && token is Ok && ttl is Ok && telegram is Ok
                && account is Ok
            &&& config is Ok ==> {
                &&& config->Ok_0.listen_addr == address->Ok_0
                &&& config->Ok_0.calendar_token == token->Ok_0
                &&& config->Ok_0.cache_ttl == ttl->Ok_0
                &&& config->Ok_0.telegram == telegram->Ok_0
                &&& (config->Ok_0.itmo_username, config->Ok_0.itmo_password) == account->Ok_0
            }
            &&& address is Err ==> config->Err_0 == "invalid LISTEN_ADDR: "@ + address->Err_0
            &&& address is Ok && token is Err ==> config->Err_0 == token->Err_0
            &&& address is Ok && token is Ok && ttl is Err ==> config->Err_0 == ttl->Err_0
            &&& address is Ok && token is Ok && ttl is Ok && telegram is Err ==> config->Err_0
                == telegram->Err_0
            &&& address is Ok && token is Ok && ttl is Ok && telegram is Ok && account is Err
                ==> config->Err_0 == account->Err_0
        }),
        environment.listen_addr is Some ==> listen_addr_setting(environment)
            == environment.listen_addr->0,
        environment.listen_addr is None ==> listen_addr_setting(environment) == "0.0.0.0:3000"@,
{
}

} // verus!
