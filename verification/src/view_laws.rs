//! What the views show: every part of a value, each in its own place.

use vstd::prelude::*;

use crate::auth::{CachedToken, Login, LoginAction, LoginActionView};
use crate::cache::{CalendarAction, CalendarActionView, CalendarEvent, CalendarEventView};
use crate::config::{Config, Environment, TelegramConfig};
use crate::error::{outcome, AnyError};
use crate::server::{Command, CommandView, HttpReply};
use crate::telegram::TelegramMessage;
use crate::value_laws::held;
use crate::web::{pairs_view, HttpRequest, RequestView, Url};

verus! {

/// An error shows its message, and what an operation gave is shown as what it gave.
pub proof fn law_outcome_shows_the_result(result: Result<String, AnyError>, error: AnyError)
    ensures
        error@ == error.message@,
        match result {
            Ok(text) => outcome(result) == Ok::<Seq<char>, Seq<char>>(text@),
            Err(error) => outcome(result) == Err::<Seq<char>, Seq<char>>(error.message@),
        },
{
}

/// Names and values are shown in their order, each by its characters.
pub proof fn law_pairs_show_names_and_values(pairs: Seq<(String, String)>)
    ensures
        pairs_view(pairs).len() == pairs.len(),
        forall|i: int|
            0 <= i < pairs.len() ==> #[trigger] pairs_view(pairs)[i] == (pairs[i].0@, pairs[i].1@),
{
}

/// Addresses and requests show every part of them.
pub proof fn law_web_views_show_every_part(url: Url, request: HttpRequest, reply: HttpReply)
    ensures
        url@.text == url.text@,
        url@.scheme == url.scheme@,
        url@.host == held(url.host),
        url@.port == url.port,
        url@.path == url.path@,
        url@.query_pairs == pairs_view(url.query_pairs@),
        match request {
            HttpRequest::Get { url, query } => request@ == (RequestView::Get {
                url: url@,
                query: pairs_view(query@),
            }),
            HttpRequest::PostForm { url, form } => request@ == (RequestView::PostForm {
                url: url@,
                form: pairs_view(form@),
            }),
        },
        reply@.status == reply.status,
        reply@.headers == pairs_view(reply.headers@),
        reply@.body == reply.body@,
{
}

/// A login, what it asks for, and a token show every part of them.
pub proof fn law_login_views_show_every_part(login: Login, action: LoginAction, token: CachedToken)
    ensures
        login@.username == login.username@,
        login@.password == login.password@,
        login@.verifier == login.verifier@,
        login@.state == login.state@,
        login@.stage == login.stage,
        match action {
            LoginAction::Send(request) => action@ == LoginActionView::Send(request@),
            LoginAction::ReadPage => action@ == LoginActionView::ReadPage,
            LoginAction::ReadToken => action@ == LoginActionView::ReadToken,
        },
        token.deep_view().value == token.value@,
        token.deep_view().valid_until == token.valid_until,
{
}

/// Events and actions of the service show every part of them.
pub proof fn law_service_views_show_every_part(event: CalendarEvent, action: CalendarAction)
    ensures
        match event {
            CalendarEvent::Requested => event@ == CalendarEventView::Requested,
            CalendarEvent::Locked => event@ == CalendarEventView::Locked,
            CalendarEvent::Refreshed(Ok(body)) => event@ == CalendarEventView::Refreshed(Ok(body@)),
            CalendarEvent::Refreshed(Err(error)) => event@ == CalendarEventView::Refreshed(
                Err(error@),
            ),
        },
        match action {
            CalendarAction::Lock => action@ == CalendarActionView::Lock,
            CalendarAction::Refresh => action@ == CalendarActionView::Refresh,
            CalendarAction::Reply { notice, reply } => {
                &&& action@ is Reply
                &&& action@->notice == held(notice)
                &&& reply is Ok <==> action@->reply is Ok
                &&& reply is Ok ==> action@->reply->Ok_0 == reply->Ok_0@
                &&& reply is Err ==> action@->reply->Err_0 == reply->Err_0@
            },
        },
{
}

/// Commands, messages and settings show every part of them.
pub proof fn law_settings_views_show_every_part<Address>(
    command: Command,
    message: TelegramMessage,
    telegram: TelegramConfig,
    config: Config<Address>,
    environment: Environment,
)
    ensures
        match command {
            Command::Healthcheck => command@ == CommandView::Healthcheck,
            Command::FetchApi { output } => command@ == (CommandView::FetchApi { output: output@ }),
            Command::ConvertIcs { input, output } => command@ == (CommandView::ConvertIcs {
                input: input@,
                output: output@,
            }),
            Command::Serve => command@ == CommandView::Serve,
        },
        message.deep_view().endpoint == message.endpoint@,
        message.deep_view().chat_id == message.chat_id@,
        message.deep_view().text == message.text@,
        message.deep_view().disable_notification == message.disable_notification,
        telegram.deep_view().bot_token == telegram.bot_token@,
        telegram.deep_view().chat_id == telegram.chat_id@,
        telegram.deep_view().proxy_url == held(telegram.proxy_url),
        telegram.deep_view().silent == telegram.silent,
        config@.listen_addr == config.listen_addr,
        config@.calendar_token == config.calendar_token@,
        config@.itmo_username == config.itmo_username@,
        config@.itmo_password == config.itmo_password@,
        config@.cache_ttl == config.cache_ttl,
        match config.telegram {
            Some(telegram) => config@.telegram == Some(telegram.deep_view()),
            None => config@.telegram is None,
        },
        environment@.listen_addr == held(environment.listen_addr),
        environment@.calendar_token == held(environment.calendar_token),
        environment@.cache_ttl_seconds == held(environment.cache_ttl_seconds),
        environment@.telegram_bot_token == held(environment.telegram_bot_token),
        environment@.telegram_chat_id == held(environment.telegram_chat_id),
        environment@.telegram_proxy_url == held(environment.telegram_proxy_url),
        environment@.telegram_silent == held(environment.telegram_silent),
        environment@.itmo_username == held(environment.itmo_username),
        environment@.itmo_password == held(environment.itmo_password),
{
}

} // verus!
