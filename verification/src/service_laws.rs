//! What the service serves and tells, whatever it has been through.

use vstd::prelude::*;
use vstd::utf8::encode_utf8;

use crate::cache::{
    after_event, after_events, fresh_text, is_refresh_of, is_service_for, last_made,
    law_cache_holds_the_last_calendar, stale_text, CacheEntryView, CalendarActionView,
    CalendarEventView, CalendarPayload, CalendarPayloadView, CalendarService, ServiceView,
};
use crate::calendar::{calendar_lines, calendar_text, document};
use crate::calendar_laws::{event_total, law_one_event_per_lesson};
use crate::config::ConfigView;
use crate::dates::{date_read, is_utc_stamp};
use crate::error::AnyError;
use crate::event_laws::{is_readable, law_calendar_is_refused_only_for_what_cannot_be_read};
use crate::itmo::{lesson_count, ScheduleDay};
use crate::server::{
    calendar_reply, command, health_complaint, is_calendar_file, is_healthy, not_found_reply,
    stripped, CommandView, HttpReplyView,
};
use crate::telegram::{delivery, message_for, truncated};
use crate::web::status_display;

verus! {

/// Whether the calendar, if there is one, was made less than so many seconds ago. A clock
/// that went back makes nothing older.
pub open spec fn is_young(made: Option<CacheEntryView>, cache_ttl: u64, now: u64) -> bool {
    made is Some && (now < made->0.fetched_at && cache_ttl > 0 || now >= made->0.fetched_at && now
        - made->0.fetched_at < cache_ttl * 1_000_000_000)
}

/// Whatever the service has been through, failures included, a request is answered from the
/// cache exactly where the calendar that was made last is young enough; else it waits its
/// turn, and then the calendar is made anew. Nothing else happens to the service by that.
pub proof fn law_cache_answers_only_while_young(
    service: ServiceView,
    events: Seq<(CalendarEventView, u64)>,
    now: u64,
)
    requires
        service.cache is None,
    ensures
        ({
            let known = after_events(service, events);
            let made = last_made(events);
            let asked = after_event(known, CalendarEventView::Requested, now);
            let locked = after_event(known, CalendarEventView::Locked, now);
            &&& asked.1 == known
            &&& locked.1 == known
            &&& is_young(made, service.cache_ttl, now) ==> {
                &&& asked.0 == (CalendarActionView::Reply {
                    notice: None,
                    reply: Ok(CalendarPayloadView { body: made->0.body, stale: false }),
                })
                &&& locked.0 == asked.0
            }
            &&& !is_young(made, service.cache_ttl, now) ==> {
                &&& asked.0 == CalendarActionView::Lock
                &&& locked.0 == CalendarActionView::Refresh
            }
        }),
{
    law_cache_holds_the_last_calendar(service, events);
}

/// Whatever the service has been through, a calendar that was just made is served as fresh
/// and kept with its moment, and a refresh that failed is answered with the calendar that was
/// made last, marked as stale, or with an error where there is none.
pub proof fn law_refresh_is_answered(
    service: ServiceView,
    events: Seq<(CalendarEventView, u64)>,
    body: Seq<char>,
    error: Seq<char>,
    now: u64,
)
    requires
        service.cache is None,
    ensures
        ({
            let known = after_events(service, events);
            let made = after_event(known, CalendarEventView::Refreshed(Ok(body)), now);
            let failed = after_event(known, CalendarEventView::Refreshed(Err(error)), now);
            &&& made.0 is Reply
            &&& made.0->reply == Ok::<CalendarPayloadView, Seq<char>>(
                CalendarPayloadView { body, stale: false },
            )
            &&& made.1.cache == Some(CacheEntryView { body, fetched_at: now })
            &&& made.1.cache_ttl == service.cache_ttl
            &&& failed.0 is Reply
            &&& failed.0->reply == match last_made(events) {
                Some(entry) => Ok::<CalendarPayloadView, Seq<char>>(
                    CalendarPayloadView { body: entry.body, stale: true },
                ),
                None => Err("schedule is temporarily unavailable"@),
            }
            &&& failed.1.cache == last_made(events)
            &&& failed.1.cache_ttl == service.cache_ttl
        }),
{
    law_cache_holds_the_last_calendar(service, events);
}

/// Whether the last refresh in a run of events failed.
pub open spec fn is_failing(events: Seq<(CalendarEventView, u64)>) -> bool
    decreases events.len(),
{
    if events.len() == 0 {
        false
    } else {
        match events.last().0 {
            CalendarEventView::Refreshed(refreshed) => refreshed is Err,
            _ => is_failing(events.drop_last()),
        }
    }
}

/// What a notice shows of an error: all of it, or its first fifteen hundred characters and an
/// ellipsis.
pub open spec fn shown_error(error: Seq<char>) -> Seq<char> {
    if error.len() <= 1500 {
        error
    } else {
        error.take(1500) + seq!['…']
    }
}

/// The operator is told of a failure exactly where the refresh before it did not fail, and of
/// a success exactly where the refresh before it failed.
pub proof fn law_operator_is_told_at_every_turn(
    service: ServiceView,
    events: Seq<(CalendarEventView, u64)>,
    body: Seq<char>,
    error: Seq<char>,
    now: u64,
)
    requires
        !service.had_error,
    ensures
        ({
            let known = after_events(service, events);
            let made = after_event(known, CalendarEventView::Refreshed(Ok(body)), now).0;
            let failed = after_event(known, CalendarEventView::Refreshed(Err(error)), now).0;
            &&& is_failing(events) ==> {
                &&& made->notice == Some(
                    "🟢 ITMO Calendar Sync: обновление расписания снова работает."@,
                )
                &&& failed->notice is None
            }
            &&& !is_failing(events) ==> {
                &&& made->notice is None
                &&& failed->notice == Some(
                    "🔴 ITMO Calendar Sync: не удалось обновить расписание.\n"@ + shown_error(
                        error,
                    ),
                )
            }
        }),
        after_events(service, events).had_error == is_failing(events),
    decreases events.len(),
{
    if events.len() > 0 {
        law_operator_is_told_at_every_turn(service, events.drop_last(), body, error, now);
    }
    assert(truncated(error, 1500) == shown_error(error));
}

/// A text that is short enough is shown whole, a longer one as its beginning and an ellipsis.
pub proof fn law_text_is_cut_behind_its_beginning(text: Seq<char>, max_chars: nat)
    ensures
        text.len() <= max_chars ==> truncated(text, max_chars) == text,
        text.len() > max_chars ==> truncated(text, max_chars) == text.take(max_chars as int) + seq![
            '…',
        ],
{
}

/// What the cache gives on its own: the calendar in it, or the calendar in it while that is
/// young enough.
pub proof fn law_cache_gives_what_it_holds(entry: CacheEntryView, cache_ttl: u64, now: u64)
    ensures
        stale_text(Some(entry)) == Some(entry.body),
        stale_text(None) is None,
        fresh_text(None, cache_ttl, now) is None,
        is_young(Some(entry), cache_ttl, now) ==> fresh_text(Some(entry), cache_ttl, now) == Some(
            entry.body,
        ),
        !is_young(Some(entry), cache_ttl, now) ==> fresh_text(Some(entry), cache_ttl, now) is None,
{
}

/// The views of the service and of what it serves show what they are of.
pub proof fn law_service_view_shows_the_service(
    service: CalendarService,
    payload: CalendarPayload,
)
    ensures
        service@.cache_ttl == service.cache_ttl,
        service@.had_error == service.notifier.had_error,
        match service.cache {
            Some(entry) => service@.cache == Some(
                CacheEntryView { body: entry.body@, fetched_at: entry.fetched_at },
            ),
            None => service@.cache is None,
        },
        payload@.body == payload.body@,
        payload@.stale == payload.stale,
{
}

/// A calendar is served whole, as a calendar that is not to be cached, and it carries a
/// warning exactly where it is stale. Where there is none the answer says so, and who may not
/// see it gets an empty answer.
pub proof fn law_reply_carries_the_calendar(payload: CalendarPayloadView, error: Seq<char>)
    ensures
        ({
            let reply = calendar_reply(Ok(payload));
            &&& reply.status == 200
            &&& reply.body == payload.body
            &&& reply.headers.len() == if payload.stale {
                3nat
            } else {
                2nat
            }
            &&& reply.headers[0] == ("content-type"@, "text/calendar; charset=utf-8"@)
            &&& reply.headers[1] == ("cache-control"@, "no-cache"@)
            &&& payload.stale ==> reply.headers[2] == (
                "warning"@,
                "110 - \"Response is stale\""@,
            )
        }),
        calendar_reply(Err(error)) == (HttpReplyView {
            status: 502,
            headers: Seq::empty(),
            body: "Schedule is temporarily unavailable"@,
        }),
        not_found_reply() == (HttpReplyView {
            status: 404,
            headers: Seq::empty(),
            body: Seq::empty(),
        }),
{
}

/// An ending is taken off exactly where the name has it.
pub proof fn law_ending_is_taken_off(name: Seq<char>, ending: Seq<char>, rest: Seq<char>)
    ensures
        stripped(name, ending) == Some(rest) <==> name == rest + ending,
{
    if name == rest + ending {
        assert(name.subrange(name.len() - ending.len(), name.len() as int) == ending);
        assert(name.take(rest.len() as int) == rest);
    }
    if stripped(name, ending) == Some(rest) {
        assert(name.subrange(name.len() - ending.len(), name.len() as int) == ending);
        assert(name == rest + ending);
    }
}

/// The service is well exactly where its answer starts with the status of a success.
pub proof fn law_health_is_in_the_first_bytes(response: Seq<u8>, rest: Seq<u8>)
    ensures
        is_healthy(encode_utf8("HTTP/1.1 200"@) + rest),
        is_healthy(response) ==> response == encode_utf8("HTTP/1.1 200"@) + response.skip(
            encode_utf8("HTTP/1.1 200"@).len() as int,
        ),
{
    let start = encode_utf8("HTTP/1.1 200"@);
    assert((start + rest).subrange(0, start.len() as int) == start);
    if is_healthy(response) {
        assert(response.subrange(0, start.len() as int) == start);
        assert(response == start + response.skip(start.len() as int));
    }
}

/// The command line asks for the server, for one of the three commands, with the names of
/// the files that are given or else the usual ones, or for nothing that is known.
pub proof fn law_command_line_is_understood(arguments: Seq<Seq<char>>)
    ensures
        arguments.len() == 0 ==> command(arguments) == Ok::<CommandView, Seq<char>>(
            CommandView::Serve,
        ),
        arguments.len() > 0 && arguments[0] == "healthcheck"@ ==> command(arguments) == Ok::<
            CommandView,
            Seq<char>,
        >(CommandView::Healthcheck),
        arguments.len() > 0 && arguments[0] == "fetch-api"@ ==> {
            &&& command(arguments) matches Ok(CommandView::FetchApi { output })
            &&& arguments.len() > 1 ==> output == arguments[1]
            &&& arguments.len() == 1 ==> output == "itmo-api.json"@
        },
        arguments.len() > 0 && arguments[0] == "convert-ics"@ ==> {
            &&& command(arguments) matches Ok(CommandView::ConvertIcs { input, output })
            &&& arguments.len() > 1 ==> input == arguments[1]
            &&& arguments.len() == 1 ==> input == "itmo-api.json"@
            &&& arguments.len() > 2 ==> output == arguments[2]
            &&& arguments.len() <= 2 ==> output == "schedule.ics"@
        },
        arguments.len() > 0 && arguments[0] != "healthcheck"@ && arguments[0] != "fetch-api"@
            && arguments[0] != "convert-ics"@ ==> command(arguments) == Err::<
            CommandView,
            Seq<char>,
        >("unknown command: "@ + arguments[0]),
{
    reveal_strlit("healthcheck");
    reveal_strlit("fetch-api");
    reveal_strlit("convert-ics");
    assert("healthcheck"@[0] == 'h' && "fetch-api"@[0] == 'f' && "convert-ics"@[0] == 'c');
}

/// A word opens one file alone, the one that has it in front of its ending, and no other word
/// opens that file.
pub proof fn law_word_opens_its_own_file(
    file: Seq<char>,
    token: Seq<char>,
    other: Seq<char>,
)
    ensures
        is_calendar_file(token + ".ics"@, token),
        is_calendar_file(file, token) ==> file == token + ".ics"@,
        is_calendar_file(file, token) && is_calendar_file(file, other) ==> token == other,
        health_complaint() == "healthcheck returned a non-200 response"@,
{
    if is_calendar_file(file, token) && is_calendar_file(file, other) {
        assert(token == file.take(token.len() as int));
        assert(other == file.take(other.len() as int));
    }
}

/// A message goes by the bot to the chat, with the text as it is, and there is none where bot
/// or chat is unknown.
pub proof fn law_message_goes_to_the_chat(
    bot_token: Option<Seq<char>>,
    chat_id: Option<Seq<char>>,
    silent: bool,
    text: Seq<char>,
    status: u16,
)
    ensures
        bot_token is None || chat_id is None ==> message_for(bot_token, chat_id, silent, text)
            is None,
        bot_token is Some && chat_id is Some ==> {
            &&& message_for(bot_token, chat_id, silent, text) is Some
            &&& message_for(bot_token, chat_id, silent, text)->0.endpoint
                == "https://api.telegram.org/bot"@ + bot_token->0 + "/sendMessage"@
            &&& message_for(bot_token, chat_id, silent, text)->0.chat_id == chat_id->0
            &&& message_for(bot_token, chat_id, silent, text)->0.text == text
            &&& message_for(bot_token, chat_id, silent, text)->0.disable_notification == silent
        },
        200 <= status <= 299 ==> delivery(status) == Ok::<(), Seq<char>>(()),
        !(200 <= status <= 299) ==> delivery(status) == Err::<(), Seq<char>>(
            "Telegram Bot API returned "@ + status_display(status),
        ),
{
}

/// A service is for the account, the chat and the lifetime of its settings.
pub proof fn law_service_follows_its_settings<Address>(
    config: ConfigView<Address>,
    service: CalendarService,
)
    requires
        is_service_for(config, service),
    ensures
        service.auth.username@ == config.itmo_username,
        service.auth.password@ == config.itmo_password,
        service.auth.token is None,
        service@ == (ServiceView { cache_ttl: config.cache_ttl, cache: None, had_error: false }),
        config.telegram is None ==> service.notifier.bot_token is None
            && service.notifier.chat_id is None,
        config.telegram matches Some(telegram) ==> {
            &&& service.notifier.bot_token is Some
            &&& service.notifier.bot_token->0@ == telegram.bot_token
            &&& service.notifier.chat_id is Some
            &&& service.notifier.chat_id->0@ == telegram.chat_id
            &&& service.notifier.silent == telegram.silent
        },
{
}

/// A refresh fails with the complaint about the schedule where that could not be had, and
/// else gives a calendar exactly where every date and every time in the schedule can be read;
/// that calendar has one event for each lesson.
pub proof fn law_refresh_gives_the_calendar_of_the_schedule(
    fetched: Result<Vec<ScheduleDay>, AnyError>,
    refreshed: Result<Seq<char>, Seq<char>>,
)
    requires
        is_refresh_of(fetched, refreshed),
    ensures
        fetched is Err ==> refreshed == Err::<Seq<char>, Seq<char>>(fetched->Err_0@),
        fetched is Ok ==> {
            let days = fetched->Ok_0.deep_view();
            refreshed is Ok <==> forall|i: int|
                0 <= i < days.len() ==> {
                    &&& date_read((#[trigger] days[i]).date) is Some
                    &&& forall|j: int|
                        0 <= j < days[i].lessons.len() ==> is_readable(
                            #[trigger] days[i].lessons[j],
                        )
                }
        },
        fetched is Ok && refreshed is Ok ==> exists|lines: Seq<Seq<char>>|
            refreshed->Ok_0 == #[trigger] document(lines) && event_total(lines) == lesson_count(
                fetched->Ok_0.deep_view(),
            ),
{
    if let Ok(days) = fetched {
        let now = choose|now: Seq<char>| #[trigger]
            calendar_text(days.deep_view(), now) == refreshed && is_utc_stamp(now);
        law_calendar_is_refused_only_for_what_cannot_be_read(days.deep_view(), now);
        if refreshed is Ok {
            law_one_event_per_lesson(days.deep_view(), now);
            assert(refreshed->Ok_0 == document(calendar_lines(days.deep_view(), now)->Ok_0));
        }
    }
}

} // verus!
