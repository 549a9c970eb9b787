//! The calendar that is served, and when it is made anew.

use vstd::prelude::*;

use crate::auth::{AuthClient, NANOS_PER_SECOND};
use crate::calendar::{build_calendar, calendar_text};
use crate::config::{Config, ConfigView};
use crate::dates::is_utc_stamp;
use crate::error::{any_error, outcome, AnyError};
use crate::itmo::ScheduleDay;
use crate::telegram::{failure_notice, is_notifier_for, recovery_notice, TelegramNotifier};

verus! {

/// A calendar, and the moment at which it was made, in nanoseconds.
#[derive(Debug)]
pub struct CacheEntry {
    pub body: String,
    pub fetched_at: u64,
}

/// A calendar and its moment, with the text taken by its characters.
pub struct CacheEntryView {
    pub body: Seq<char>,
    pub fetched_at: u64,
}

impl DeepView for CacheEntry {
    type V = CacheEntryView;

    open spec fn deep_view(&self) -> CacheEntryView {
        CacheEntryView { body: self.body@, fetched_at: self.fetched_at }
    }
}

/// A calendar to serve, and whether it is older than it should be.
#[derive(Debug)]
pub struct CalendarPayload {
    pub body: String,
    pub stale: bool,
}

/// A calendar to serve, with the text taken by its characters.
pub struct CalendarPayloadView {
    pub body: Seq<char>,
    pub stale: bool,
}

impl View for CalendarPayload {
    type V = CalendarPayloadView;

    open spec fn view(&self) -> CalendarPayloadView {
        CalendarPayloadView { body: self.body@, stale: self.stale }
    }
}

/// How much time lies between two moments, none where the clock went back.
pub open spec fn elapsed(from: int, to: int) -> int {
    if to >= from {
        to - from
    } else {
        0
    }
}

/// The calendar in the cache, if it is younger than so many seconds.
pub open spec fn fresh_text(cache: Option<CacheEntryView>, cache_ttl: u64, now: u64) -> Option<
    Seq<char>,
> {
    match cache {
        Some(entry) if elapsed(entry.fetched_at as int, now as int) < cache_ttl
            * NANOS_PER_SECOND => Some(entry.body),
        _ => None,
    }
}

/// The calendar in the cache, however old it is.
pub open spec fn stale_text(cache: Option<CacheEntryView>) -> Option<Seq<char>> {
    match cache {
        Some(entry) => Some(entry.body),
        None => None,
    }
}

/// What happened to a request for the calendar.
#[derive(Debug)]
pub enum CalendarEvent {
    /// It came in.
    Requested,
    /// It is now the only one that may refresh the calendar.
    Locked,
    /// The calendar was made anew, or that failed.
    Refreshed(Result<String, AnyError>),
}

/// What happened to a request, with every text taken by its characters.
pub enum CalendarEventView {
    Requested,
    Locked,
    Refreshed(Result<Seq<char>, Seq<char>>),
}

impl View for CalendarEvent {
    type V = CalendarEventView;

    open spec fn view(&self) -> CalendarEventView {
        match self {
            CalendarEvent::Requested => CalendarEventView::Requested,
            CalendarEvent::Locked => CalendarEventView::Locked,
            CalendarEvent::Refreshed(refreshed) => CalendarEventView::Refreshed(
                outcome(*refreshed),
            ),
        }
    }
}

/// What is to be done next for a request.
#[derive(Debug)]
pub enum CalendarAction {
    /// Wait until no other request refreshes the calendar.
    Lock,
    /// Make the calendar anew.
    Refresh,
    /// Send the notice, if there is one, and then answer.
    Reply { notice: Option<String>, reply: Result<CalendarPayload, AnyError> },
}

/// What is to be done next, with every text taken by its characters.
pub enum CalendarActionView {
    Lock,
    Refresh,
    Reply { notice: Option<Seq<char>>, reply: Result<CalendarPayloadView, Seq<char>> },
}

impl View for CalendarAction {
    type V = CalendarActionView;

    open spec fn view(&self) -> CalendarActionView {
        match self {
            CalendarAction::Lock => CalendarActionView::Lock,
            CalendarAction::Refresh => CalendarActionView::Refresh,
            CalendarAction::Reply { notice, reply } => CalendarActionView::Reply {
                notice: notice.deep_view(),
                reply: outcome(*reply),
            },
        }
    }
}

/// What the service knows of the calendar: what it made last, for how many seconds that is
/// good, and whether the operator was told of a failure.
pub struct ServiceView {
    pub cache_ttl: u64,
    pub cache: Option<CacheEntryView>,
    pub had_error: bool,
}

/// The answer out of the cache.
pub open spec fn answer(body: Seq<char>, stale: bool) -> Result<CalendarPayloadView, Seq<char>> {
    Ok(CalendarPayloadView { body, stale })
}

/// What follows something that happened to a request, and what the service then knows.
pub open spec fn after_event(service: ServiceView, event: CalendarEventView, now: u64) -> (
    CalendarActionView,
    ServiceView,
) {
    match event {
        CalendarEventView::Requested => match fresh_text(service.cache, service.cache_ttl, now) {
            Some(body) => (
                CalendarActionView::Reply { notice: None, reply: answer(body, false) },
                service,
            ),
            None => (CalendarActionView::Lock, service),
        },
        CalendarEventView::Locked => match fresh_text(service.cache, service.cache_ttl, now) {
            Some(body) => (
                CalendarActionView::Reply { notice: None, reply: answer(body, false) },
                service,
            ),
            None => (CalendarActionView::Refresh, service),
        },
        CalendarEventView::Refreshed(Ok(body)) => (
            CalendarActionView::Reply {
                notice: recovery_notice(service.had_error),
                reply: answer(body, false),
            },
            ServiceView {
                cache: Some(CacheEntryView { body, fetched_at: now }),
                had_error: false,
                ..service
            },
        ),
        CalendarEventView::Refreshed(Err(error)) => (
            CalendarActionView::Reply {
                notice: failure_notice(service.had_error, error),
                reply: match stale_text(service.cache) {
                    Some(body) => answer(body, true),
                    None => Err("schedule is temporarily unavailable"@),
                },
            },
            ServiceView { had_error: true, ..service },
        ),
    }
}

/// The service: the account, the notices, and the calendar that was made last. Moments are
/// nanoseconds since some fixed one.
#[derive(Debug)]
pub struct CalendarService {
    pub auth: AuthClient,
    pub notifier: TelegramNotifier,
    pub cache_ttl: u64,
    pub cache: Option<CacheEntry>,
}

impl View for CalendarService {
    type V = ServiceView;

    open spec fn view(&self) -> ServiceView {
        ServiceView {
            cache_ttl: self.cache_ttl,
            cache: self.cache.deep_view(),
            had_error: self.notifier.had_error,
        }
    }
}

/// Whether the service is for the account and the chat of the settings, keeps a calendar for
/// as long as they say, and has made none yet.
pub open spec fn is_service_for<Address>(
    config: ConfigView<Address>,
    service: CalendarService,
) -> bool {
    &&& service.auth.username@ == config.itmo_username
    &&& service.auth.password@ == config.itmo_password
    &&& service.auth.token is None
    &&& service.cache_ttl == config.cache_ttl
    &&& service.cache is None
    &&& is_notifier_for(config.telegram, service.notifier)
}

/// Whether that is what comes of the schedule, if it could be had: its calendar at some
/// moment, or the complaint.
pub open spec fn is_refresh_of(
    fetched: Result<Vec<ScheduleDay>, AnyError>,
    refreshed: Result<Seq<char>, Seq<char>>,
) -> bool {
    match fetched {
        Err(error) => refreshed is Err && refreshed->Err_0 == error@,
        Ok(days) => exists|now: Seq<char>| #[trigger]
            calendar_text(days.deep_view(), now) == refreshed && is_utc_stamp(now),
    }
}

/// Makes the calendar anew from the schedule, if that could be had.
pub fn refresh(fetched: Result<Vec<ScheduleDay>, AnyError>) -> (refreshed: Result<String, AnyError>)
    ensures
        is_refresh_of(fetched, outcome(refreshed)),
{
    match fetched {
        Err(error) => Err(error),
        Ok(days) => {
            let slice = days.as_slice();
            assert(slice.deep_view() == days.deep_view());
            build_calendar(slice)
        },
    }
}

impl CalendarService {
    /// A service that has not made a calendar yet.
    pub fn new<Address>(config: &Config<Address>) -> (service: CalendarService)
        ensures
            service@ == (ServiceView {
                cache_ttl: config.cache_ttl,
                cache: None,
                had_error: false,
            }),
            service.auth.username@ == config.itmo_username@,
            service.auth.password@ == config.itmo_password@,
            service.auth.token is None,
            is_service_for(config@, service),
    {
        let telegram = match &config.telegram {
            None => None,
            Some(telegram) => Some(telegram.clone()),
        };
        CalendarService {
            auth: AuthClient::new(config.itmo_username.clone(), config.itmo_password.clone()),
            notifier: TelegramNotifier::new(telegram),
            cache_ttl: config.cache_ttl,
            cache: None,
        }
    }

    /// The calendar in the cache, if it is young enough.
    pub fn fresh_body(&self, now: u64) -> (body: Option<String>)
        ensures
            body.deep_view() == fresh_text(self.cache.deep_view(), self.cache_ttl, now),
    {
        match &self.cache {
            None => None,
            Some(entry) => {
                let age: u64 = if now >= entry.fetched_at {
                    now - entry.fetched_at
                } else {
                    0
                };
                let limit: u128 = self.cache_ttl as u128 * NANOS_PER_SECOND as u128;
                if (age as u128) < limit {
                    Some(entry.body.clone())
                } else {
                    None
                }
            },
        }
    }

    /// The calendar in the cache, however old it is.
    pub fn stale_body(&self) -> (body: Option<String>)
        ensures
            body.deep_view() == stale_text(self.cache.deep_view()),
    {
        match &self.cache {
            None => None,
            Some(entry) => Some(entry.body.clone()),
        }
    }

    /// Takes in what happened to a request for the calendar, and says what is to be done
    /// next.
    pub fn calendar(&mut self, event: CalendarEvent, now: u64) -> (action: CalendarAction)
        ensures
            (action@, final(self)@) == after_event(old(self)@, event@, now),
            final(self).auth == old(self).auth,
            final(self).notifier.bot_token == old(self).notifier.bot_token,
            final(self).notifier.chat_id == old(self).notifier.chat_id,
            final(self).notifier.silent == old(self).notifier.silent,
    {
        match event {
            CalendarEvent::Requested => match self.fresh_body(now) {
                Some(body) => CalendarAction::Reply {
                    notice: None,
                    reply: Ok(CalendarPayload { body, stale: false }),
                },
                None => CalendarAction::Lock,
            },
            CalendarEvent::Locked => match self.fresh_body(now) {
                Some(body) => CalendarAction::Reply {
                    notice: None,
                    reply: Ok(CalendarPayload { body, stale: false }),
                },
                None => CalendarAction::Refresh,
            },
            CalendarEvent::Refreshed(Ok(body)) => {
                self.cache = Some(CacheEntry { body: body.clone(), fetched_at: now });
                let notice = self.notifier.report_recovery();
                CalendarAction::Reply { notice, reply: Ok(CalendarPayload { body, stale: false }) }
            },
            CalendarEvent::Refreshed(Err(error)) => {
                let notice = self.notifier.report_failure(error.message.as_str());
                let reply = match self.stale_body() {
                    Some(body) => Ok(CalendarPayload { body, stale: true }),
                    None => Err(any_error("schedule is temporarily unavailable")),
                };
                CalendarAction::Reply { notice, reply }
            },
        }
    }
}

/// A calendar that was made is served to every request for as long as it is good, and
/// nothing is fetched for them.
pub proof fn law_fresh_calendar_is_served(
    service: ServiceView,
    body: Seq<char>,
    made: u64,
    now: u64,
)
    requires
        made <= now,
        now - made < service.cache_ttl * NANOS_PER_SECOND,
    ensures
        after_event(
            after_event(service, CalendarEventView::Refreshed(Ok(body)), made).1,
            CalendarEventView::Requested,
            now,
        ).0 == (CalendarActionView::Reply { notice: None, reply: answer(body, false) }),
{
}

/// A calendar that is no longer good is not served as if it were: the request has to wait
/// its turn and then refresh it.
pub proof fn law_old_calendar_is_refreshed(
    service: ServiceView,
    body: Seq<char>,
    made: u64,
    now: u64,
)
    requires
        made <= now,
        now - made >= service.cache_ttl * NANOS_PER_SECOND,
    ensures
        after_event(
            after_event(service, CalendarEventView::Refreshed(Ok(body)), made).1,
            CalendarEventView::Requested,
            now,
        ).0 == CalendarActionView::Lock,
        after_event(
            after_event(service, CalendarEventView::Refreshed(Ok(body)), made).1,
            CalendarEventView::Locked,
            now,
        ).0 == CalendarActionView::Refresh,
{
}

/// A refresh that fails leaves the calendar as it was, and what is served is that calendar,
/// marked as stale; there is an error only where no calendar was ever made.
pub proof fn law_failure_keeps_the_calendar(service: ServiceView, error: Seq<char>, now: u64)
    ensures
        after_event(service, CalendarEventView::Refreshed(Err(error)), now).1.cache
            == service.cache,
        after_event(service, CalendarEventView::Refreshed(Err(error)), now).0->reply
            == match service.cache {
            Some(entry) => answer(entry.body, true),
            None => Err("schedule is temporarily unavailable"@),
        },
{
}

/// Once a calendar was made, every request is answered with one.
pub proof fn law_service_never_forgets(service: ServiceView, event: CalendarEventView, now: u64)
    requires
        service.cache is Some,
    ensures
        after_event(service, event, now).1.cache is Some,
        after_event(service, event, now).0 is Reply ==> after_event(service, event, now).0->reply
            is Ok,
{
}

/// A calendar is marked as stale only where a refresh has just failed.
pub proof fn law_stale_means_failed(service: ServiceView, event: CalendarEventView, now: u64)
    ensures
        (after_event(service, event, now).0 matches CalendarActionView::Reply {
            reply: Ok(payload),
            ..
        } && payload.stale) ==> (event matches CalendarEventView::Refreshed(Err(_))),
{
}

/// What the service knows after a run of events, each at its moment.
pub open spec fn after_events(
    service: ServiceView,
    events: Seq<(CalendarEventView, u64)>,
) -> ServiceView
    decreases events.len(),
{
    if events.len() == 0 {
        service
    } else {
        after_event(
            after_events(service, events.drop_last()),
            events.last().0,
            events.last().1,
        ).1
    }
}

/// The calendar that was made last in a run of events, if any was.
pub open spec fn last_made(events: Seq<(CalendarEventView, u64)>) -> Option<CacheEntryView>
    decreases events.len(),
{
    if events.len() == 0 {
        None
    } else {
        match events.last().0 {
            CalendarEventView::Refreshed(Ok(body)) => Some(
                CacheEntryView { body, fetched_at: events.last().1 },
            ),
            _ => last_made(events.drop_last()),
        }
    }
}

/// Whatever happens to the requests, in whatever order, a service that started without a
/// calendar knows the one that was made last.
pub proof fn law_cache_holds_the_last_calendar(
    service: ServiceView,
    events: Seq<(CalendarEventView, u64)>,
)
    requires
        service.cache is None,
    ensures
        after_events(service, events).cache == last_made(events),
        after_events(service, events).cache_ttl == service.cache_ttl,
    decreases events.len(),
{
    if events.len() > 0 {
        law_cache_holds_the_last_calendar(service, events.drop_last());
    }
}

/// Whatever happened before, a request is served the calendar that was made last: the one
/// that was just made for it, or the one from the cache.
pub proof fn law_last_calendar_is_served(
    service: ServiceView,
    events: Seq<(CalendarEventView, u64)>,
)
    requires
        service.cache is None,
        events.len() > 0,
    ensures
        after_event(
            after_events(service, events.drop_last()),
            events.last().0,
            events.last().1,
        ).0 matches CalendarActionView::Reply { reply: Ok(payload), .. } ==> {
            &&& last_made(events) is Some
            &&& payload.body == last_made(events)->0.body
        },
{
    law_cache_holds_the_last_calendar(service, events.drop_last());
    law_cache_holds_the_last_calendar(service, events);
}

} // verus!
