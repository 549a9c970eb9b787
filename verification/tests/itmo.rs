use chrono::{DateTime, Datelike, FixedOffset, Utc};
use itmo_calendar_sync::dates::{Date, FIRST_MOMENT, LAST_MOMENT};
use itmo_calendar_sync::itmo::{
    academic_year_at, academic_year_of, academic_year_range, count_lessons, non_empty, optional_string,
    saved_message, string_value, value_to_string, FetchAction, JsonValue, Lesson, LessonValues,
    ScheduleDay, ScheduleDayValues, ScheduleFetch,
};
use serde_json::Value;

fn json(value: &Value) -> JsonValue {
    match value {
        Value::Null => JsonValue::Null,
        Value::Bool(flag) => JsonValue::Bool(*flag),
        Value::Number(number) => JsonValue::Number(number.to_string()),
        Value::String(text) => JsonValue::Text(text.clone()),
        Value::Array(values) => JsonValue::Array(values.iter().map(json).collect()),
        Value::Object(_) => JsonValue::Object,
    }
}

fn lesson_values(value: &Value) -> LessonValues {
    let field = |name: &str| value.get(name).map(json);
    LessonValues {
        id: field("id"),
        subject: field("subject"),
        lesson_type: field("type"),
        time_start: field("time_start"),
        time_end: field("time_end"),
        building: field("building"),
        room: field("room"),
        teacher_name: field("teacher_name"),
        group: field("group"),
        note: field("note"),
    }
}

fn parse_schedule_json(source: &str) -> Result<Vec<ScheduleDay>, serde_json::Error> {
    let value: Value = serde_json::from_str(source)?;
    let days = value["data"].as_array().cloned().unwrap_or_default();
    Ok(days
        .iter()
        .map(|day| {
            let lessons = day["lessons"].as_array().cloned().unwrap_or_default();
            ScheduleDay::from_values(ScheduleDayValues {
                date: day.get("date").map(json),
                lessons: lessons.iter().map(lesson_values).collect(),
            })
        })
        .collect())
}

#[test]
fn parses_schedule_api_response() {
    let source = r#"{
            "data": [{
                "date": "2026-09-01",
                "lessons": [{
                    "id": 42,
                    "subject": "Математика",
                    "type": "Лекция",
                    "time_start": "09:00",
                    "time_end": "10:30",
                    "building": "Кронверкский пр., 49",
                    "room": "101",
                    "teacher_name": "Иванов И. И.",
                    "group": "M0000",
                    "note": null
                }]
            }]
        }"#;

    let days = parse_schedule_json(source).expect("schedule must be parsed");

    assert_eq!(days.len(), 1);
    assert_eq!(days[0].lessons.len(), 1);
    assert_eq!(days[0].lessons[0].id.as_deref(), Some("42"));
    assert_eq!(days[0].lessons[0].subject, "Математика");

    let lesson = &days[0].lessons[0];
    assert_eq!(days[0].date, "2026-09-01");
    assert_eq!(lesson.lesson_type.as_deref(), Some("Лекция"));
    assert_eq!(lesson.time_start, "09:00");
    assert_eq!(lesson.time_end, "10:30");
    assert_eq!(lesson.building.as_deref(), Some("Кронверкский пр., 49"));
    assert_eq!(lesson.room.as_deref(), Some("101"));
    assert_eq!(lesson.teacher_name.as_deref(), Some("Иванов И. И."));
    assert_eq!(lesson.group.as_deref(), Some("M0000"));
    assert_eq!(lesson.note, None);
}

fn text(value: &str) -> JsonValue {
    JsonValue::Text(value.to_owned())
}

#[test]
fn values_say_what_they_hold() {
    for (value, said) in [
        (JsonValue::Null, None),
        (JsonValue::Bool(true), Some("true")),
        (JsonValue::Bool(false), Some("false")),
        (JsonValue::Number("-1.50".to_owned()), Some("-1.50")),
        (text("\u{a0} a b\t\n"), Some("a b")),
        (text(" \t"), None),
        (JsonValue::Object, None),
        (JsonValue::Array(vec![]), None),
        (JsonValue::Array(vec![JsonValue::Null, text(" ")]), None),
        (
            JsonValue::Array(vec![
                text(" a "),
                JsonValue::Object,
                JsonValue::Array(vec![JsonValue::Bool(true), text("b")]),
                JsonValue::Number("7".to_owned()),
            ]),
            Some("a, true, b, 7"),
        ),
    ] {
        assert_eq!(value_to_string(Some(value)).as_deref(), said);
    }
    assert_eq!(value_to_string(None), None);
}

#[test]
fn inner_lists_are_spread() {
    let number = |value: &str| JsonValue::Number(value.to_owned());
    let nested = JsonValue::Array(vec![
        text("a"),
        JsonValue::Array(vec![number("1"), JsonValue::Array(vec![]), text(" b ")]),
        JsonValue::Null,
        text("c"),
    ]);
    let spread = JsonValue::Array(vec![text("a"), number("1"), text("b"), text("c")]);

    let said = value_to_string(Some(nested)).unwrap();

    assert_eq!(said, "a, 1, b, c");
    assert_eq!(value_to_string(Some(spread)).as_ref(), Some(&said));
    assert_eq!(value_to_string(Some(text(&said))), Some(said));
}

#[test]
fn missing_fields_are_empty_or_absent() {
    assert_eq!(string_value(None), "");
    assert_eq!(string_value(Some(JsonValue::Null)), "");
    assert_eq!(string_value(Some(text(" x "))), "x");
    assert_eq!(optional_string(Some(text(" x "))).as_deref(), Some("x"));
    assert_eq!(optional_string(None), None);
    assert_eq!(non_empty("  ".to_owned()), None);
    assert_eq!(non_empty(" a".to_owned()).as_deref(), Some("a"));
}

#[test]
fn incomplete_answers_are_read() {
    assert_eq!(parse_schedule_json("{}").unwrap().len(), 0);
    let days = parse_schedule_json(r#"{"data": [{}, {"lessons": [{}]}]}"#).unwrap();

    assert_eq!(days.len(), 2);
    assert_eq!(days[0].date, "");
    assert_eq!(days[0].lessons.len(), 0);
    let lesson: &Lesson = &days[1].lessons[0];
    assert_eq!(lesson.id, None);
    assert_eq!(lesson.subject, "");
    assert_eq!(lesson.time_start, "");
}

fn day(year: i32, month: u32, day: u32) -> Date {
    Date { year, month, day }
}

#[test]
fn academic_year_begins_in_august() {
    for (today, start) in [
        (day(2026, 8, 1), 2026),
        (day(2026, 12, 31), 2026),
        (day(2027, 1, 1), 2026),
        (day(2027, 7, 31), 2026),
        (day(2027, 8, 1), 2027),
        (day(-262_143, 8, 1), -262_143),
        (day(262_142, 7, 31), 262_141),
    ] {
        assert_eq!(
            academic_year_of(today).unwrap(),
            (day(start, 8, 1), day(start + 1, 7, 31))
        );
    }
}

#[test]
fn academic_year_changes_at_midnight_in_moscow() {
    // The moment is 2026-07-31T21:00:00Z.
    let midnight = 1_785_531_600;

    assert_eq!(
        academic_year_at(midnight).unwrap(),
        (day(2026, 8, 1), day(2027, 7, 31))
    );
    assert_eq!(
        academic_year_at(midnight - 1).unwrap(),
        (day(2025, 8, 1), day(2026, 7, 31))
    );
    assert_eq!(academic_year_at(0).unwrap(), (day(1969, 8, 1), day(1970, 7, 31)));
}

#[test]
fn academic_year_can_be_told_at_every_moment() {
    assert_eq!(FIRST_MOMENT, DateTime::<Utc>::MIN_UTC.timestamp());
    assert_eq!(LAST_MOMENT, DateTime::<Utc>::MAX_UTC.timestamp());
    let moscow = FixedOffset::east_opt(10_800).unwrap();
    let mut moment = FIRST_MOMENT;
    while moment <= LAST_MOMENT - 10_800 {
        let today = DateTime::from_timestamp(moment, 0).unwrap().with_timezone(&moscow);
        let first = today.year() - i32::from(today.month() < 8);
        match academic_year_at(moment) {
            Ok(range) => assert_eq!(range, (day(first, 8, 1), day(first + 1, 7, 31))),
            Err(_) => assert!(first < -262_143 || first >= 262_142),
        }
        moment += 1_234_567_891;
    }
    assert_eq!(
        academic_year_at(FIRST_MOMENT).unwrap_err().to_string(),
        "cannot calculate academic year start"
    );
    assert_eq!(
        academic_year_at(LAST_MOMENT - 10_800).unwrap_err().to_string(),
        "cannot calculate academic year end"
    );
}

#[test]
fn academic_year_outside_the_calendar_is_refused() {
    assert_eq!(
        academic_year_of(day(-262_143, 7, 31)).unwrap_err().to_string(),
        "cannot calculate academic year start"
    );
    assert_eq!(
        academic_year_of(day(262_142, 8, 1)).unwrap_err().to_string(),
        "cannot calculate academic year end"
    );
}

#[test]
fn present_academic_year_is_one_year_long() {
    let (start, end) = academic_year_range().unwrap();

    assert!(start.year >= 2020);
    assert_eq!((start.month, start.day), (8, 1));
    assert_eq!(end, day(start.year + 1, 7, 31));
    let fetch = ScheduleFetch::begin_present_year().unwrap();
    assert_eq!(fetch.attempt, 0);
    assert_eq!((fetch.end.month, fetch.end.day), (7, 31));
}

#[test]
fn schedule_is_asked_for_by_its_days() {
    let fetch = ScheduleFetch::begin(day(2026, 8, 1), day(2027, 7, 31));
    let request = fetch.request("token");

    assert_eq!(request.url, "https://my.itmo.ru/api/schedule/schedule/personal");
    assert_eq!(request.token, "token");
    assert_eq!(
        request.query,
        vec![
            ("date_start".to_owned(), "2026-08-01".to_owned()),
            ("date_end".to_owned(), "2027-07-31".to_owned()),
        ]
    );
    let far = ScheduleFetch::begin(day(-1, 8, 1), day(12_345, 7, 31)).request("");
    assert_eq!(far.query[0].1, "-0001-08-01");
    assert_eq!(far.query[1].1, "+12345-07-31");
}

#[test]
fn refused_token_is_replaced_once() {
    let mut fetch = ScheduleFetch::begin(day(2026, 8, 1), day(2027, 7, 31));

    assert_eq!(fetch.on_response(401).unwrap(), FetchAction::Retry);
    assert_eq!(
        fetch.on_response(401).unwrap_err().to_string(),
        "ITMO schedule endpoint returned 401 Unauthorized"
    );
    assert_eq!(fetch.start, day(2026, 8, 1));
}

#[test]
fn schedule_is_read_from_a_success_only() {
    for status in [200, 204, 299] {
        let mut fetch = ScheduleFetch::begin(day(2026, 8, 1), day(2027, 7, 31));
        assert_eq!(fetch.on_response(status).unwrap(), FetchAction::ReadSchedule);
    }
    for (status, shown) in [
        (199, "199 <unknown status code>"),
        (300, "300 Multiple Choices"),
        (403, "403 Forbidden"),
        (500, "500 Internal Server Error"),
    ] {
        let mut fetch = ScheduleFetch::begin(day(2026, 8, 1), day(2027, 7, 31));
        assert_eq!(
            fetch.on_response(status).unwrap_err().to_string(),
            format!("ITMO schedule endpoint returned {shown}")
        );
    }
}

#[test]
fn saved_schedule_is_counted() {
    let days = parse_schedule_json(
        r#"{"data": [{"lessons": [{}, {}]}, {}, {"lessons": [{}, {}, {}, {}, {}, {}, {}, {}]}]}"#,
    )
    .unwrap();

    assert_eq!(count_lessons(&days), 10);
    assert_eq!(
        saved_message("ICS сохранён в ", "schedule.ics", &days),
        "ICS сохранён в schedule.ics: 3 дней, 10 занятий"
    );
    assert_eq!(saved_message("", "", &[]), ": 0 дней, 0 занятий");
}
