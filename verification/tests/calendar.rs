use itmo_calendar_sync::calendar::{
    add_detail, append_day, append_event, append_timed_event, build_calendar, build_calendar_at,
    build_calendar_of_moment, choose_time, escape_text, event_uid, parse_time, push_line, render_event, uid_from_digest,
    uid_source,
};
use itmo_calendar_sync::dates::{Date, TimeOfDay, FIRST_MOMENT, LAST_MOMENT};
use itmo_calendar_sync::error::any_error;
use itmo_calendar_sync::itmo::{Lesson, ScheduleDay};

#[test]
fn escapes_ical_text() {
    assert_eq!(escape_text("A, B; C\\D\nE"), "A\\, B\\; C\\\\D\\nE");
}

const FIRST: Date = Date { year: 2026, month: 9, day: 1 };

fn at(hour: u32, minute: u32, second: u32) -> TimeOfDay {
    TimeOfDay { seconds: hour * 3600 + minute * 60 + second, nanos: 0 }
}

fn some(text: &str) -> Option<String> {
    Some(text.to_owned())
}

fn lesson() -> Lesson {
    Lesson {
        id: some("42"),
        subject: "Математика".to_owned(),
        lesson_type: some("Лекция"),
        time_start: "09:00".to_owned(),
        time_end: "10:30".to_owned(),
        building: some("Кронверкский пр., 49"),
        room: some("101"),
        teacher_name: some("Иванов И. И."),
        group: some("M0000"),
        note: None,
    }
}

fn bare_lesson() -> Lesson {
    Lesson {
        id: None,
        subject: String::new(),
        lesson_type: None,
        time_start: "23:59:60".to_owned(),
        time_end: "00:00:07".to_owned(),
        building: None,
        room: some(""),
        teacher_name: None,
        group: some(""),
        note: None,
    }
}

fn day(date: &str, lessons: Vec<Lesson>) -> ScheduleDay {
    ScheduleDay { date: date.to_owned(), lessons }
}

fn unfold(text: &str) -> String {
    text.replace("\r\n ", "")
}

#[test]
fn escaping_can_be_undone() {
    let text = "a\\n;,\nb\\\\,;";
    let mut read = String::new();
    let escaped = escape_text(text);
    let mut rest = escaped.chars();
    while let Some(c) = rest.next() {
        if c == '\\' {
            let next = rest.next().unwrap();
            read.push(if next == 'n' { '\n' } else { next });
        } else {
            read.push(c);
        }
    }

    assert_eq!(read, text);
    assert!(!escaped.contains('\n'));
    assert_eq!(escape_text("a\rb"), "a\rb");
    assert_eq!(escape_text(""), "");
}

#[test]
fn short_lines_are_not_folded() {
    let mut output = "x".to_owned();
    push_line(&mut output, "");
    push_line(&mut output, &"a".repeat(73));

    assert_eq!(output, format!("x\r\n{}\r\n", "a".repeat(73)));
}

#[test]
fn long_lines_are_folded_by_bytes() {
    let mut output = String::new();
    push_line(&mut output, &"a".repeat(146));
    assert_eq!(
        output,
        format!("{}\r\n {}\r\n {}\r\n", "a".repeat(73), "a".repeat(72), "a")
    );

    let mut output = String::new();
    push_line(&mut output, &"Ж".repeat(40));
    assert_eq!(output, format!("{}\r\n {}\r\n", "Ж".repeat(36), "Ж".repeat(4)));

    let mut output = String::new();
    push_line(&mut output, &"🔴".repeat(20));
    assert_eq!(output, format!("{}\r\n {}\r\n", "🔴".repeat(18), "🔴".repeat(2)));
}

#[test]
fn folding_can_be_undone_and_keeps_lines_short() {
    let line = "Ж🔴a€".repeat(100);
    let mut output = String::new();
    push_line(&mut output, &line);

    assert_eq!(unfold(&output), format!("{line}\r\n"));
    for physical in output.split("\r\n") {
        assert!(physical.len() <= 73);
    }
}

#[test]
fn details_need_a_value() {
    let mut details = vec!["first".to_owned()];
    add_detail(&mut details, "Тип", Some("Лекция"));
    add_detail(&mut details, "Группа", Some(""));
    add_detail(&mut details, "Примечание", None);

    assert_eq!(details, vec!["first".to_owned(), "Тип: Лекция".to_owned()]);
}

#[test]
fn times_are_read_with_and_without_seconds() {
    assert_eq!(parse_time("09:05").unwrap(), at(9, 5, 0));
    assert_eq!(parse_time("09:05:59").unwrap(), at(9, 5, 59));
    assert_eq!(parse_time("00:00").unwrap(), at(0, 0, 0));
    assert_eq!(
        parse_time("23:59:60").unwrap(),
        TimeOfDay { seconds: 86_399, nanos: 1_000_000_000 }
    );
    for text in ["", "24:00", "09:60", "9", "09:00:61", "09:00:00:00", "утро"] {
        assert_eq!(
            parse_time(text).unwrap_err().to_string(),
            format!("ITMO returned an invalid lesson time: {text}")
        );
    }
}

#[test]
fn written_times_are_read_as_they_say() {
    for hour in 0..100 {
        for minute in 0..100 {
            let text = format!("{hour:02}:{minute:02}");
            let shown = hour < 24 && minute < 60;
            match parse_time(&text) {
                Ok(time) => {
                    assert!(shown);
                    assert_eq!(time, at(hour, minute, 0));
                    assert_eq!(parse_time(&format!("{text}:00")).unwrap(), time);
                    assert_eq!(parse_time(&format!("{text}:59")).unwrap(), at(hour, minute, 59));
                    assert_eq!(
                        parse_time(&format!("{text}:60")).unwrap(),
                        TimeOfDay { seconds: time.seconds + 59, nanos: 1_000_000_000 }
                    );
                    assert!(parse_time(&format!("{text}:61")).is_err());
                }
                Err(error) => {
                    assert!(!shown);
                    assert_eq!(
                        error.to_string(),
                        format!("ITMO returned an invalid lesson time: {text}")
                    );
                    assert!(parse_time(&format!("{text}:00")).is_err());
                }
            }
        }
    }
}

#[test]
fn written_dates_are_read_as_they_say() {
    for year in [0, 1, 1900, 2000, 2023, 2024, 9999] {
        for month in 0..=13 {
            for number in 0..=32 {
                let text = format!("{year:04}-{month:02}-{number:02}");
                let exists = chrono::NaiveDate::from_ymd_opt(year, month, number).is_some();
                match build_calendar_at(&[day(&text, vec![lesson()])], "S") {
                    Ok(calendar) => {
                        assert!(exists);
                        assert!(unfold(&calendar).contains(&format!(
                            ":{year:04}{month:02}{number:02}T090000\r\n"
                        )));
                    }
                    Err(error) => {
                        assert!(!exists);
                        assert_eq!(
                            error.to_string(),
                            format!("ITMO returned an invalid lesson date: {text}")
                        );
                    }
                }
            }
        }
    }
}

#[test]
fn calendar_is_stamped_with_its_moment() {
    for (moment, stamp) in [
        (0, "19700101T000000Z"),
        (-1, "19691231T235959Z"),
        (951_782_400, "20000229T000000Z"),
        (1_785_531_600, "20260731T210000Z"),
        (-62_135_596_800, "00010101T000000Z"),
        (FIRST_MOMENT, "-2621430101T000000Z"),
        (LAST_MOMENT, "+2621421231T235959Z"),
    ] {
        let days = [day("2026-09-01", vec![lesson()])];
        assert_eq!(
            build_calendar_of_moment(&days, moment).unwrap(),
            build_calendar_at(&days, stamp).unwrap()
        );
    }
}

#[test]
fn reading_with_seconds_comes_first() {
    let (first, second) = (at(1, 2, 3), at(4, 5, 0));

    assert_eq!(choose_time("x", Some(first), Some(second)).unwrap(), first);
    assert_eq!(choose_time("x", None, Some(second)).unwrap(), second);
    assert_eq!(
        choose_time("x", None, None).unwrap_err().to_string(),
        "ITMO returned an invalid lesson time: x"
    );
}

#[test]
fn identifier_is_the_digest_of_the_number() {
    assert_eq!(uid_source(FIRST, &lesson()), "itmo-id:42");
    assert_eq!(
        event_uid(FIRST, &lesson()),
        "b7b3533f801402d4915352575ed5995bc29260a90e95070cb6eebed4c7905adc@itmo-calendar-sync.local"
    );
    assert_eq!(event_uid(FIRST, &lesson()).len(), 64 + "@itmo-calendar-sync.local".len());
    assert_eq!(uid_from_digest(&vec![0, 10, 255]), "000aff@itmo-calendar-sync.local");
}

#[test]
fn identifier_without_number_is_the_digest_of_the_slot() {
    let mut slot = lesson();
    slot.id = None;
    assert_eq!(uid_source(FIRST, &slot), "2026-09-01|09:00|Математика|Лекция|M0000");
    assert_eq!(
        event_uid(FIRST, &slot),
        "ebd3f71ec89314b7634ed8a3c651bc0eb1a6b24a429869510e3e6896fea754bf@itmo-calendar-sync.local"
    );

    slot.lesson_type = None;
    slot.group = None;
    assert_eq!(
        event_uid(FIRST, &slot),
        "384ac73f1e91e2859cf50898abf5005e8a1927c8302e3b533b9369ec14403ebf@itmo-calendar-sync.local"
    );
}

#[test]
fn identifier_is_stable() {
    let mut moved = lesson();
    moved.time_start = "11:00".to_owned();
    moved.room = None;
    let other_day = Date { year: 2027, month: 1, day: 31 };
    assert_eq!(event_uid(FIRST, &lesson()), event_uid(other_day, &moved));

    let mut slot = lesson();
    slot.id = None;
    let before = event_uid(FIRST, &slot);
    slot.room = some("102");
    slot.teacher_name = None;
    slot.time_end = "12:00".to_owned();
    assert_eq!(event_uid(FIRST, &slot), before);
    slot.group = None;
    let without = event_uid(FIRST, &slot);
    slot.group = some("");
    assert_eq!(event_uid(FIRST, &slot), without);
    slot.group = some("M0000");
    assert_ne!(event_uid(other_day, &slot), before);
}

#[test]
fn event_has_its_lines_in_order() {
    let mut output = String::new();
    render_event(&mut output, FIRST, at(9, 0, 0), at(10, 30, 0), "uid", &lesson(), "STAMP");

    assert_eq!(
        unfold(&output),
        "BEGIN:VEVENT\r\n\
         UID:uid\r\n\
         DTSTAMP:STAMP\r\n\
         LAST-MODIFIED:STAMP\r\n\
         DTSTART;TZID=Europe/Moscow:20260901T090000\r\n\
         DTEND;TZID=Europe/Moscow:20260901T103000\r\n\
         SUMMARY:Математика\r\n\
         LOCATION:Кронверкский пр.\\, 49\\, 101\r\n\
         DESCRIPTION:Тип: Лекция\\nПреподаватель: Иванов И. И.\\nГруппа: M0000\r\n\
         STATUS:CONFIRMED\r\n\
         TRANSP:OPAQUE\r\n\
         END:VEVENT\r\n"
    );
}

#[test]
fn bare_event_has_no_location_and_no_description() {
    let mut output = String::new();
    append_event(
        &mut output,
        Date { year: -1, month: 2, day: 28 },
        &bare_lesson(),
        "STAMP",
    )
    .unwrap();

    let lines: Vec<String> = unfold(&output).split("\r\n").map(str::to_owned).collect();
    assert_eq!(lines.len(), 11);
    assert_eq!(lines[4], "DTSTART;TZID=Europe/Moscow:-00010228T235960");
    assert_eq!(lines[5], "DTEND;TZID=Europe/Moscow:-00010228T000007");
    assert_eq!(lines[6], "SUMMARY:");
    assert_eq!(lines[7], "STATUS:CONFIRMED");
}

#[test]
fn years_beyond_four_digits_carry_a_sign() {
    for (year, text) in [
        (0, "0000"),
        (7, "0007"),
        (9999, "9999"),
        (10_000, "+10000"),
        (262_142, "+262142"),
        (-12, "-0012"),
        (-262_143, "-262143"),
    ] {
        let date = Date { year, month: 12, day: 31 };
        let mut output = String::new();
        let midnight = at(0, 0, 0);
        render_event(&mut output, date, midnight, midnight, "u", &bare_lesson(), "S");
        assert!(output.contains(&format!("DTSTART;TZID=Europe/Moscow:{text}1231T000000\r\n")));
        let mut slot = lesson();
        slot.id = None;
        assert!(uid_source(date, &slot).starts_with(&format!("{text}-12-31|")));
    }
}

#[test]
fn refused_event_leaves_the_document_alone() {
    let mut broken = lesson();
    broken.time_end = "later".to_owned();
    let mut output = "before".to_owned();
    assert_eq!(
        append_event(&mut output, FIRST, &broken, "S").unwrap_err().to_string(),
        "ITMO returned an invalid lesson time: later"
    );
    broken.time_start = "sooner".to_owned();
    assert_eq!(
        append_event(&mut output, FIRST, &broken, "S").unwrap_err().to_string(),
        "ITMO returned an invalid lesson time: sooner"
    );
    assert_eq!(
        append_timed_event(
            &mut output,
            FIRST,
            Err(any_error("start")),
            Err(any_error("end")),
            "u",
            &lesson(),
            "S"
        )
        .unwrap_err()
        .to_string(),
        "start"
    );
    assert_eq!(output, "before");
}

#[test]
fn day_without_a_date_is_refused() {
    let mut output = String::new();

    assert_eq!(
        append_day(&mut output, None, &day("01.09.2026", vec![]), "S").unwrap_err().to_string(),
        "ITMO returned an invalid lesson date: 01.09.2026"
    );
    assert!(append_day(&mut output, Some(FIRST), &day("whatever", vec![]), "S").is_ok());
    assert_eq!(output, "");
}

const HEADER: &str = "BEGIN:VCALENDAR\r\n\
    VERSION:2.0\r\n\
    PRODID:-//ITMO Calendar Sync//RU\r\n\
    CALSCALE:GREGORIAN\r\n\
    METHOD:PUBLISH\r\n\
    X-WR-CALNAME:Расписание ИТМО\r\n\
    X-WR-TIMEZONE:Europe/Moscow\r\n\
    BEGIN:VTIMEZONE\r\n\
    TZID:Europe/Moscow\r\n\
    X-LIC-LOCATION:Europe/Moscow\r\n\
    BEGIN:STANDARD\r\n\
    TZOFFSETFROM:+0300\r\n\
    TZOFFSETTO:+0300\r\n\
    TZNAME:MSK\r\n\
    DTSTART:19700101T000000\r\n\
    END:STANDARD\r\n\
    END:VTIMEZONE\r\n";

#[test]
fn empty_schedule_makes_an_empty_calendar() {
    let expected = format!("{HEADER}END:VCALENDAR\r\n");

    assert_eq!(build_calendar_at(&[], "S").unwrap(), expected);
    assert_eq!(build_calendar(&[]).unwrap(), expected);
}

#[test]
fn calendar_has_one_event_for_each_lesson() {
    let days = [
        day("2026-09-01", vec![lesson(), bare_lesson()]),
        day("2026-09-02", vec![]),
        day("2024-02-29", vec![lesson()]),
    ];
    let calendar = build_calendar_at(&days, "S").unwrap();

    assert!(calendar.starts_with(HEADER));
    assert!(calendar.ends_with("END:VEVENT\r\nEND:VCALENDAR\r\n"));
    assert_eq!(calendar.matches("BEGIN:VEVENT\r\n").count(), 3);
    assert_eq!(unfold(&calendar).matches("20240229T090000").count(), 1);
    for physical in calendar.split("\r\n") {
        assert!(physical.len() <= 73);
    }
}

#[test]
fn schedule_cannot_add_lines() {
    let mut sly = lesson();
    sly.subject = "x\r\nEND:VCALENDAR\r\nBEGIN:VEVENT".to_owned();
    let calendar = build_calendar_at(&[day("2026-09-01", vec![sly])], "S").unwrap();

    assert!(unfold(&calendar)
        .contains("SUMMARY:x\r\\nEND:VCALENDAR\r\\nBEGIN:VEVENT\r\nLOCATION:"));
    assert_eq!(calendar.matches("\nBEGIN:VEVENT\r\n").count(), 1);
}

#[test]
fn first_complaint_about_the_schedule_counts() {
    let mut broken = lesson();
    broken.time_start = "noon".to_owned();
    let days = [
        day("2026-09-01", vec![lesson()]),
        day("2026-09-02", vec![lesson(), broken]),
        day("2026-02-30", vec![]),
    ];

    assert_eq!(
        build_calendar_at(&days, "S").unwrap_err().to_string(),
        "ITMO returned an invalid lesson time: noon"
    );
    assert_eq!(
        build_calendar_at(&days[2..], "S").unwrap_err().to_string(),
        "ITMO returned an invalid lesson date: 2026-02-30"
    );
    assert_eq!(
        build_calendar(&days).unwrap_err().to_string(),
        "ITMO returned an invalid lesson time: noon"
    );
}

#[test]
fn calendar_is_stamped_with_the_present_moment() {
    let calendar = build_calendar(&[day("2026-09-01", vec![lesson()])]).unwrap();
    let start = calendar.find("DTSTAMP:").unwrap() + "DTSTAMP:".len();
    let stamp = &calendar[start..start + 16];

    assert_eq!(stamp.as_bytes()[8], b'T');
    assert_eq!(stamp.as_bytes()[15], b'Z');
    assert!(stamp[0..8].bytes().all(|byte| byte.is_ascii_digit()));
    assert!(stamp[9..15].bytes().all(|byte| byte.is_ascii_digit()));
    assert!(calendar.contains(&format!("LAST-MODIFIED:{stamp}\r\n")));
    assert_eq!(
        build_calendar_at(&[day("2026-09-01", vec![lesson()])], stamp).unwrap(),
        calendar
    );
}
