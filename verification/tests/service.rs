use itmo_calendar_sync::auth::TokenResponse;
use itmo_calendar_sync::cache::{
    refresh, CalendarAction, CalendarEvent, CalendarPayload, CalendarService,
};
use itmo_calendar_sync::config::{Config, TelegramConfig};
use itmo_calendar_sync::error::any_error;
use itmo_calendar_sync::itmo::ScheduleDay;
use itmo_calendar_sync::server::{
    check_health, constant_time_eq, may_see_calendar, parse_command, serve, turn_away, Command,
};
use itmo_calendar_sync::telegram::{check_delivery, truncate, TelegramNotifier};

const SECOND: u64 = 1_000_000_000;

fn config(cache_ttl: u64) -> Config<u8> {
    Config {
        listen_addr: 0,
        calendar_token: "token".to_owned(),
        itmo_username: "user".to_owned(),
        itmo_password: "secret".to_owned(),
        cache_ttl,
        telegram: Some(TelegramConfig {
            bot_token: "bot".to_owned(),
            chat_id: "chat".to_owned(),
            proxy_url: None,
            silent: true,
        }),
    }
}

fn reply(action: CalendarAction) -> (Option<String>, Result<(String, bool), String>) {
    match action {
        CalendarAction::Reply { notice, reply } => (
            notice,
            match reply {
                Ok(payload) => Ok((payload.body, payload.stale)),
                Err(error) => Err(error.to_string()),
            },
        ),
        other => panic!("a reply was expected, not {other:?}"),
    }
}

fn served(body: &str, stale: bool) -> Result<(String, bool), String> {
    Ok((body.to_owned(), stale))
}

fn made(body: &str) -> CalendarEvent {
    CalendarEvent::Refreshed(Ok(body.to_owned()))
}

fn failed(message: &str) -> CalendarEvent {
    CalendarEvent::Refreshed(Err(any_error(message)))
}

const FAILURE: &str = "🔴 ITMO Calendar Sync: не удалось обновить расписание.\n";
const RECOVERY: &str = "🟢 ITMO Calendar Sync: обновление расписания снова работает.";

#[test]
fn calendar_is_made_once_while_it_is_good() {
    let mut service = CalendarService::new(&config(10));
    assert!(matches!(service.calendar(CalendarEvent::Requested, 0), CalendarAction::Lock));
    assert!(matches!(service.calendar(CalendarEvent::Locked, 0), CalendarAction::Refresh));
    assert_eq!(reply(service.calendar(made("one"), 5)), (None, served("one", false)));

    let last = 4 + 10 * SECOND;
    assert_eq!(service.fresh_body(last).as_deref(), Some("one"));
    assert_eq!(
        reply(service.calendar(CalendarEvent::Requested, last)),
        (None, served("one", false))
    );
    assert_eq!(
        reply(service.calendar(CalendarEvent::Locked, last)),
        (None, served("one", false))
    );
    assert_eq!(service.fresh_body(last + 1), None);
    assert!(matches!(
        service.calendar(CalendarEvent::Requested, last + 1),
        CalendarAction::Lock
    ));
    assert!(matches!(
        service.calendar(CalendarEvent::Locked, last + 1),
        CalendarAction::Refresh
    ));
    assert_eq!(reply(service.calendar(made("two"), last + 1)), (None, served("two", false)));
    assert_eq!(service.stale_body().as_deref(), Some("two"));
}

#[test]
fn clock_that_goes_back_makes_nothing_old() {
    let mut service = CalendarService::new(&config(u64::MAX));
    service.calendar(made("one"), 100);

    assert_eq!(service.fresh_body(0).as_deref(), Some("one"));
    assert_eq!(service.fresh_body(u64::MAX).as_deref(), Some("one"));
}

#[test]
fn failures_are_told_once_and_the_old_calendar_is_served() {
    let mut service = CalendarService::new(&config(1));
    assert_eq!(
        reply(service.calendar(failed("down"), 0)),
        (
            Some(format!("{FAILURE}down")),
            Err("schedule is temporarily unavailable".to_owned())
        )
    );
    assert_eq!(
        reply(service.calendar(failed("still down"), 1)),
        (None, Err("schedule is temporarily unavailable".to_owned()))
    );
    assert_eq!(
        reply(service.calendar(made("one"), 2)),
        (Some(RECOVERY.to_owned()), served("one", false))
    );
    assert_eq!(
        reply(service.calendar(failed("again"), 3)),
        (Some(format!("{FAILURE}again")), served("one", true))
    );
    assert_eq!(service.stale_body().as_deref(), Some("one"));
    assert_eq!(reply(service.calendar(failed("again"), 4)), (None, served("one", true)));
    assert_eq!(service.fresh_body(4).as_deref(), Some("one"));
}

#[test]
fn service_keeps_account_and_chat() {
    let mut service = CalendarService::new(&config(1));
    assert_eq!(service.auth.username, "user");
    assert_eq!(service.auth.password, "secret");
    service.auth.keep_token(
        TokenResponse { access_token: "t".to_owned(), expires_in: 100 },
        0,
    );
    service.calendar(failed("down"), 0);

    assert_eq!(service.auth.access_token(0).as_deref(), Some("t"));
    let message = service.notifier.send("hello").unwrap();
    assert_eq!(message.endpoint, "https://api.telegram.org/botbot/sendMessage");
    assert_eq!(message.chat_id, "chat");
    assert_eq!(message.text, "hello");
    assert!(message.disable_notification);
}

#[test]
fn calendar_is_made_from_the_schedule() {
    assert_eq!(
        refresh(Err(any_error("no schedule"))).unwrap_err().to_string(),
        "no schedule"
    );
    let empty = refresh(Ok(vec![])).unwrap();
    assert!(empty.starts_with("BEGIN:VCALENDAR\r\n"));
    assert!(empty.ends_with("END:VCALENDAR\r\n"));
    let broken = ScheduleDay { date: "today".to_owned(), lessons: vec![] };
    assert_eq!(
        refresh(Ok(vec![broken])).unwrap_err().to_string(),
        "ITMO returned an invalid lesson date: today"
    );
}

#[test]
fn nobody_is_told_without_a_chat() {
    let mut notifier = TelegramNotifier::new(None);

    assert!(notifier.send("hello").is_none());
    assert_eq!(notifier.report_recovery(), None);
    assert_eq!(notifier.report_failure("x"), Some(format!("{FAILURE}x")));
    assert_eq!(notifier.report_failure("x"), None);
    assert_eq!(notifier.report_recovery().as_deref(), Some(RECOVERY));
    assert_eq!(notifier.report_recovery(), None);
}

#[test]
fn long_errors_are_cut() {
    let mut notifier = TelegramNotifier::new(None);
    let notice = notifier.report_failure(&"ж".repeat(1501)).unwrap();
    assert_eq!(notice, format!("{FAILURE}{}…", "ж".repeat(1500)));

    assert_eq!(truncate("абв", 3), "абв");
    assert_eq!(truncate("абвг", 3), "абв…");
    assert_eq!(truncate("a", 0), "…");
    assert_eq!(truncate("", 0), "");
    assert_eq!(truncate("abc", usize::MAX), "abc");
}

#[test]
fn refused_messages_are_reported() {
    assert!(check_delivery(200).is_ok());
    assert_eq!(
        check_delivery(429).unwrap_err().to_string(),
        "Telegram Bot API returned 429 Too Many Requests"
    );
}

#[test]
fn bytes_are_compared() {
    assert!(constant_time_eq(b"", b""));
    assert!(constant_time_eq(b"secret", b"secret"));
    assert!(!constant_time_eq(b"secret", b"secres"));
    assert!(!constant_time_eq(b"secret", b"secre"));
    assert!(!constant_time_eq(b"a", b"a\0"));
    assert!(!constant_time_eq(b"\0", b""));
    assert!(!constant_time_eq(&[1; 300], &[1; 44]));
}

#[test]
fn only_the_secret_file_is_served() {
    for (file, yes) in [
        ("token.ics", true),
        ("token", false),
        ("token.ics.ics", false),
        ("Token.ics", false),
        ("toke.ics", false),
        (".ics", false),
        ("ics", false),
        ("", false),
    ] {
        assert_eq!(may_see_calendar(file, "token"), yes, "{file}");
        assert_eq!(turn_away(file, "token").is_none(), yes, "{file}");
    }
    assert!(may_see_calendar("жa.ics", "жa"));
    let refusal = turn_away("x", "token").unwrap();
    assert_eq!(refusal.status, 404);
    assert_eq!(refusal.body, "");
    assert_eq!(refusal.headers, vec![]);
}

#[test]
fn calendar_is_served_with_its_headers() {
    let pair = |name: &str, value: &str| (name.to_owned(), value.to_owned());
    let fresh = serve(Ok(CalendarPayload { body: "one".to_owned(), stale: false }));
    assert_eq!(fresh.status, 200);
    assert_eq!(fresh.body, "one");
    assert_eq!(
        fresh.headers,
        vec![
            pair("content-type", "text/calendar; charset=utf-8"),
            pair("cache-control", "no-cache"),
        ]
    );
    let stale = serve(Ok(CalendarPayload { body: "one".to_owned(), stale: true }));
    assert_eq!(stale.headers[..2], fresh.headers[..]);
    assert_eq!(stale.headers[2], pair("warning", "110 - \"Response is stale\""));
    let none = serve(Err(any_error("hidden")));
    assert_eq!(none.status, 502);
    assert_eq!(none.body, "Schedule is temporarily unavailable");
    assert_eq!(none.headers, vec![]);
}

#[test]
fn health_is_read_from_the_status_line() {
    assert!(check_health(b"HTTP/1.1 200 OK\r\n").is_ok());
    assert!(check_health(b"HTTP/1.1 200").is_ok());
    assert!(check_health(b"HTTP/1.1 200\xff").is_ok());
    for response in [&b""[..], b"HTTP/1.1 20", b"HTTP/1.0 200 OK", b"HTTP/1.1 500"] {
        assert_eq!(
            check_health(response).unwrap_err().to_string(),
            "healthcheck returned a non-200 response"
        );
    }
}

fn arguments(texts: &[&str]) -> Vec<String> {
    texts.iter().map(|text| (*text).to_owned()).collect()
}

#[test]
fn command_line_is_read() {
    assert!(matches!(parse_command(&arguments(&[])), Ok(Command::Serve)));
    assert!(matches!(
        parse_command(&arguments(&["healthcheck", "more"])),
        Ok(Command::Healthcheck)
    ));
    for (given, expected) in [
        (&["fetch-api"][..], "itmo-api.json"),
        (&["fetch-api", "a.json"], "a.json"),
    ] {
        match parse_command(&arguments(given)) {
            Ok(Command::FetchApi { output }) => assert_eq!(output, expected),
            other => panic!("{other:?}"),
        }
    }
    for (given, from, to) in [
        (&["convert-ics"][..], "itmo-api.json", "schedule.ics"),
        (&["convert-ics", "a.json"], "a.json", "schedule.ics"),
        (&["convert-ics", "a.json", "b.ics", "c"], "a.json", "b.ics"),
    ] {
        match parse_command(&arguments(given)) {
            Ok(Command::ConvertIcs { input, output }) => {
                assert_eq!((input.as_str(), output.as_str()), (from, to));
            }
            other => panic!("{other:?}"),
        }
    }
    assert_eq!(
        parse_command(&arguments(&["Serve"])).unwrap_err().to_string(),
        "unknown command: Serve"
    );
    assert_eq!(
        parse_command(&arguments(&[""])).unwrap_err().to_string(),
        "unknown command: "
    );
}
