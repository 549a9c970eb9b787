//! Notices to the operator by Telegram: one when the service starts to fail, one when it
//! works again.

use vstd::prelude::*;

use crate::config::{TelegramConfig, TelegramConfigView};
use crate::error::AnyError;
use crate::text::glued;
use crate::web::{is_status, is_success, status_display, status_error, succeeded};

verus! {

/// How many characters of an error a notice shows.
pub const MAX_ERROR_CHARS: usize = 1500;

/// Who is told, and whether the last thing to tell was a failure.
#[derive(Debug)]
pub struct TelegramNotifier {
    pub bot_token: Option<String>,
    pub chat_id: Option<String>,
    pub silent: bool,
    pub had_error: bool,
}

/// A message that is to be sent.
#[derive(Debug)]
pub struct TelegramMessage {
    pub endpoint: String,
    pub chat_id: String,
    pub text: String,
    pub disable_notification: bool,
}

/// A message, with every text taken by its characters.
pub struct TelegramMessageView {
    pub endpoint: Seq<char>,
    pub chat_id: Seq<char>,
    pub text: Seq<char>,
    pub disable_notification: bool,
}

impl DeepView for TelegramMessage {
    type V = TelegramMessageView;

    open spec fn deep_view(&self) -> TelegramMessageView {
        TelegramMessageView {
            endpoint: self.endpoint@,
            chat_id: self.chat_id@,
            text: self.text@,
            disable_notification: self.disable_notification,
        }
    }
}

/// The text, cut off behind so many characters, with an ellipsis in place of the rest.
pub open spec fn truncated(text: Seq<char>, max_chars: nat) -> Seq<char> {
    if text.len() <= max_chars {
        text
    } else {
        text.take(max_chars as int).push('…')
    }
}

/// Cuts the text off behind so many characters.
pub fn truncate(value: &str, max_chars: usize) -> (result: String)
    ensures
        result@ == truncated(value@, max_chars as nat),
{
    let mut result = String::new();
    let mut count: usize = 0;
    for c in it: value.chars()
        invariant
            it.seq() == value@,
            count == it.index(),
            count <= max_chars,
            result@ == value@.take(count as int),
    {
        if count == max_chars {
            result.push('…');
            return result;
        }
        result.push(c);
        count = count + 1;
        assert(result@ == value@.take(count as int));
    }
    assert(value@.take(value@.len() as int) == value@);
    result
}

/// What the operator is told about a failure.
pub open spec fn failure_text(error: Seq<char>) -> Seq<char> {
    "🔴 ITMO Calendar Sync: не удалось обновить расписание.\n"@ + truncated(
        error,
        MAX_ERROR_CHARS as nat,
    )
}

/// What the operator is told once the service works again.
pub open spec fn recovery_text() -> Seq<char> {
    "🟢 ITMO Calendar Sync: обновление расписания снова работает."@
}

/// What the operator is told about a failure, unless the one before it was told already.
pub open spec fn failure_notice(had_error: bool, error: Seq<char>) -> Option<Seq<char>> {
    if had_error {
        None
    } else {
        Some(failure_text(error))
    }
}

/// What the operator is told about a success, if a failure was told before it.
pub open spec fn recovery_notice(had_error: bool) -> Option<Seq<char>> {
    if had_error {
        Some(recovery_text())
    } else {
        None
    }
}

/// The message that carries a text to the chat by the bot, where both are known.
pub open spec fn message_for(
    bot_token: Option<Seq<char>>,
    chat_id: Option<Seq<char>>,
    silent: bool,
    text: Seq<char>,
) -> Option<TelegramMessageView> {
    match (bot_token, chat_id) {
        (Some(bot_token), Some(chat_id)) => Some(
            TelegramMessageView {
                endpoint: "https://api.telegram.org/bot"@ + bot_token + "/sendMessage"@,
                chat_id,
                text,
                disable_notification: silent,
            },
        ),
        _ => None,
    }
}

/// Whether the notifier tells whom the settings name, in the way that they ask for, and has
/// told nothing yet.
pub open spec fn is_notifier_for(
    config: Option<TelegramConfigView>,
    notifier: TelegramNotifier,
) -> bool {
    &&& !notifier.had_error
    &&& match config {
        None => {
            &&& notifier.bot_token is None
            &&& notifier.chat_id is None
            &&& !notifier.silent
        },
        Some(config) => {
            &&& notifier.bot_token.deep_view() == Some(config.bot_token)
            &&& notifier.chat_id.deep_view() == Some(config.chat_id)
            &&& notifier.silent == config.silent
        },
    }
}

/// What comes of a message, by the status of the answer.
pub open spec fn delivery(status: u16) -> Result<(), Seq<char>> {
    if is_success(status) {
        Ok(())
    } else {
        Err("Telegram Bot API returned "@ + status_display(status))
    }
}

impl TelegramNotifier {
    /// A notifier for the bot and the chat of the settings, or one that tells nobody.
    pub fn new(config: Option<TelegramConfig>) -> (notifier: TelegramNotifier)
        ensures
            match config {
                None => {
                    &&& notifier.bot_token is None
                    &&& notifier.chat_id is None
                    &&& !notifier.silent
                },
                Some(config) => {
                    &&& notifier.bot_token == Some(config.bot_token)
                    &&& notifier.chat_id == Some(config.chat_id)
                    &&& notifier.silent == config.silent
                },
            },
            !notifier.had_error,
            is_notifier_for(config.deep_view(), notifier),
    {
        match config {
            None => TelegramNotifier {
                bot_token: None,
                chat_id: None,
                silent: false,
                had_error: false,
            },
            Some(config) => TelegramNotifier {
                bot_token: Some(config.bot_token),
                chat_id: Some(config.chat_id),
                silent: config.silent,
                had_error: false,
            },
        }
    }

    /// Takes note of a failure. What is returned is to be sent.
    pub fn report_failure(&mut self, error: &str) -> (notice: Option<String>)
        ensures
            notice.deep_view() == failure_notice(old(self).had_error, error@),
            *final(self) == (TelegramNotifier { had_error: true, ..*old(self) }),
    {
        if self.had_error {
            return None;
        }
        self.had_error = true;
        let shown = truncate(error, MAX_ERROR_CHARS);
        Some(
            glued(
                "🔴 ITMO Calendar Sync: не удалось обновить расписание.\n",
                shown.as_str(),
            ),
        )
    }

    /// Takes note of a success. What is returned is to be sent.
    pub fn report_recovery(&mut self) -> (notice: Option<String>)
        ensures
            notice.deep_view() == recovery_notice(old(self).had_error),
            *final(self) == (TelegramNotifier { had_error: false, ..*old(self) }),
    {
        if !self.had_error {
            return None;
        }
        self.had_error = false;
        Some("🟢 ITMO Calendar Sync: обновление расписания снова работает.".to_owned())
    }

    /// The message that carries a text to the chat, or none where there is nobody to tell.
    pub fn send(&self, text: &str) -> (message: Option<TelegramMessage>)
        ensures
            message.deep_view() == message_for(
                self.bot_token.deep_view(),
                self.chat_id.deep_view(),
                self.silent,
                text@,
            ),
    {
        match (&self.bot_token, &self.chat_id) {
            (Some(bot_token), Some(chat_id)) => {
                let mut endpoint = glued("https://api.telegram.org/bot", bot_token.as_str());
                endpoint.append("/sendMessage");
                Some(
                    TelegramMessage {
                        endpoint,
                        chat_id: chat_id.clone(),
                        text: text.to_owned(),
                        disable_notification: self.silent,
                    },
                )
            },
            _ => None,
        }
    }
}

/// Whether a message got through, by the status of the answer.
pub fn check_delivery(status: u16) -> (delivered: Result<(), AnyError>)
    requires
        is_status(status),
    ensures
        delivered is Ok <==> delivery(status) is Ok,
        delivered is Err ==> delivered->Err_0@ == delivery(status)->Err_0,
{
    if succeeded(status) {
        Ok(())
    } else {
        Err(status_error("Telegram Bot API returned ", status))
    }
}

/// The notices for a run of refreshes, of which each succeeded or failed with an error, and
/// whether the last thing to tell is then a failure.
pub open spec fn notices(refreshes: Seq<Result<(), Seq<char>>>) -> (Seq<Seq<char>>, bool)
    decreases refreshes.len(),
{
    if refreshes.len() == 0 {
        (Seq::empty(), false)
    } else {
        let (told, had_error) = notices(refreshes.drop_last());
        match refreshes.last() {
            Ok(_) => match recovery_notice(had_error) {
                Some(notice) => (told.push(notice), false),
                None => (told, false),
            },
            Err(error) => match failure_notice(had_error, error) {
                Some(notice) => (told.push(notice), true),
                None => (told, true),
            },
        }
    }
}

/// Whether the text is a notice of a failure.
pub open spec fn is_failure_text(text: Seq<char>) -> bool {
    exists|error: Seq<char>| text == #[trigger] failure_text(error)
}

/// Failures and recoveries are told in turn, starting with a failure: however often a
/// refresh fails, it is told once until one succeeds, and a success is told only after a
/// failure was.
pub proof fn law_notices_alternate(refreshes: Seq<Result<(), Seq<char>>>)
    ensures
        forall|i: int|
            0 <= i < notices(refreshes).0.len() ==> if i % 2 == 0 {
                is_failure_text(#[trigger] notices(refreshes).0[i])
            } else {
                notices(refreshes).0[i] == recovery_text()
            },
        notices(refreshes).1 <==> notices(refreshes).0.len() % 2 == 1,
        notices(refreshes).1 <==> refreshes.len() > 0 && refreshes.last() is Err,
    decreases refreshes.len(),
{
    if refreshes.len() > 0 {
        law_notices_alternate(refreshes.drop_last());
        let told = notices(refreshes.drop_last()).0;
        if let Err(error) = refreshes.last() {
            assert(is_failure_text(failure_text(error)));
        }
        assert forall|i: int| 0 <= i < notices(refreshes).0.len() implies if i % 2 == 0 {
            is_failure_text(#[trigger] notices(refreshes).0[i])
        } else {
            notices(refreshes).0[i] == recovery_text()
        } by {
            if i < told.len() {
                assert(notices(refreshes).0[i] == told[i]);
            }
        }
    }
}

/// A notice shows at most so many characters of an error and an ellipsis, and all of an
/// error that is short enough.
pub proof fn law_truncated_is_short(text: Seq<char>, max_chars: nat)
    ensures
        truncated(text, max_chars).len() <= max_chars + 1,
        text.len() <= max_chars ==> truncated(text, max_chars) == text,
        text.len() > max_chars ==> truncated(text, max_chars).last() == '…',
        text.take(
            if text.len() <= max_chars {
                text.len() as int
            } else {
                max_chars as int
            },
        ).is_prefix_of(truncated(text, max_chars)),
{
}

} // verus!
