use iopac::aggregate::{aggregate, AccountFetch, IopacData};
use iopac::calendar::{make_uid, render_calendar};
use iopac::dates::{prev_day, Date};
use iopac::rows::{IopacDatum, IopacRow};

fn datum(account: &str, title: &str, date: Date, reserved: bool) -> IopacDatum {
    IopacDatum {
        account: account.to_string(),
        title: title.to_string(),
        media_type: "Buch".to_string(),
        return_on: date,
        reserved,
    }
}

#[test]
fn make_uid_writes_the_digest_in_hyphenated_form() {
    assert_eq!(make_uid(""), "d41d8cd9-8f00-b204-e980-0998ecf8427e");
    assert_eq!(make_uid("abc"), "90015098-3cd2-4fb0-d696-3f7d28e17f72");
}

#[test]
fn make_uid_is_repeatable_and_input_sensitive() {
    assert_eq!(make_uid("2024-06-15"), make_uid("2024-06-15"));
    assert_ne!(make_uid("2024-06-15"), make_uid("2024-06-16"));
}

#[test]
fn prev_day_steps_over_month_and_year_bounds() {
    assert_eq!(
        prev_day(Date { year: 2024, month: 6, day: 15 }),
        Date { year: 2024, month: 6, day: 14 },
    );
    assert_eq!(
        prev_day(Date { year: 2024, month: 3, day: 1 }),
        Date { year: 2024, month: 2, day: 29 },
    );
    assert_eq!(
        prev_day(Date { year: 2023, month: 3, day: 1 }),
        Date { year: 2023, month: 2, day: 28 },
    );
    assert_eq!(
        prev_day(Date { year: 2024, month: 1, day: 1 }),
        Date { year: 2023, month: 12, day: 31 },
    );
}

#[test]
fn reminder_is_placed_the_prior_morning_at_nine() {
    let data = IopacData { records: vec![datum("a", "Eins", Date { year: 2024, month: 6, day: 15 }, false)] };
    let doc = render_calendar(&data, "Bücherei Rückgabe");
    assert_eq!(doc.events.len(), 1);
    let alarm = doc.events[0].alarm.as_ref().expect("the reminder should exist");
    assert_eq!(alarm.local_date, Date { year: 2024, month: 6, day: 14 });
    assert_eq!(alarm.local_hour, 9);
    assert_eq!(alarm.description, "Reminder");
    assert!(!alarm.trigger_utc.is_empty());
}

#[test]
fn rerendering_gives_identical_identifiers() {
    let data = IopacData {
        records: vec![
            datum("a", "Eins", Date { year: 2024, month: 6, day: 15 }, false),
            datum("b", "Zwei", Date { year: 2024, month: 6, day: 20 }, true),
        ],
    };
    let one = render_calendar(&data, "Abgabe");
    let two = render_calendar(&data, "Abgabe");
    assert_eq!(one.events.len(), two.events.len());
    for (e1, e2) in one.events.iter().zip(two.events.iter()) {
        assert_eq!(e1.uid, e2.uid);
        assert_eq!(e1.summary, e2.summary);
        assert_eq!(e1.description, e2.description);
        assert_eq!(e1.date, e2.date);
        let a1 = e1.alarm.as_ref().expect("alarm");
        let a2 = e2.alarm.as_ref().expect("alarm");
        assert_eq!(a1.uid, a2.uid);
        assert_eq!(a1.trigger_utc, a2.trigger_utc);
    }
}

#[test]
fn two_account_scenario_renders_two_events_with_joined_descriptions() {
    let d1 = Date { year: 2024, month: 6, day: 15 };
    let d2 = Date { year: 2024, month: 6, day: 20 };
    let results = vec![
        AccountFetch {
            account: "A".to_string(),
            result: Ok(Some(vec![IopacRow {
                title: "Eins".to_string(),
                media_type: "Buch".to_string(),
                return_on: d1,
                reserved: false,
            }])),
        },
        AccountFetch {
            account: "B".to_string(),
            result: Ok(Some(vec![
                IopacRow {
                    title: "Zwei".to_string(),
                    media_type: "CD".to_string(),
                    return_on: d1,
                    reserved: true,
                },
                IopacRow {
                    title: "Drei".to_string(),
                    media_type: "DVD".to_string(),
                    return_on: d2,
                    reserved: false,
                },
            ])),
        },
    ];
    let outcome = aggregate(&results);
    assert!(outcome.error.is_none());
    let doc = render_calendar(&outcome.data, "Abgabe");
    assert_eq!(doc.name, "IOPAC");
    assert_eq!(doc.events.len(), 2);

    let first = &doc.events[0];
    assert_eq!(first.date, d1);
    assert_eq!(first.summary, "Abgabe");
    assert_eq!(first.description, "A: Eins [Buch]\nB: Zwei [CD] RESERVIERT");

    let second = &doc.events[1];
    assert_eq!(second.date, d2);
    assert_eq!(second.description, "B: Drei [DVD]");

    assert_ne!(first.uid, second.uid);
    let alarm1 = first.alarm.as_ref().expect("alarm");
    let alarm2 = second.alarm.as_ref().expect("alarm");
    assert_eq!(alarm1.local_date, Date { year: 2024, month: 6, day: 14 });
    assert_eq!(alarm2.local_date, Date { year: 2024, month: 6, day: 19 });
    assert_eq!(alarm1.local_hour, 9);
    assert_eq!(alarm2.local_hour, 9);
    assert_ne!(alarm1.uid, alarm2.uid);
}

#[test]
fn date_strings_are_zero_padded() {
    assert_eq!(iopac::dates::date_string(Date { year: 2024, month: 6, day: 5 }), "2024-06-05");
    assert_eq!(iopac::dates::date_string(Date { year: 987, month: 12, day: 31 }), "0987-12-31");
}

#[test]
fn distinct_dates_keep_first_arrival_order() {
    let d1 = Date { year: 2024, month: 6, day: 15 };
    let d2 = Date { year: 2024, month: 6, day: 20 };
    let d3 = Date { year: 2024, month: 7, day: 1 };
    let data = IopacData {
        records: vec![
            datum("a", "Eins", d2, false),
            datum("a", "Zwei", d1, false),
            datum("b", "Drei", d2, false),
            datum("b", "Vier", d3, false),
        ],
    };
    assert_eq!(data.distinct_dates(), vec![d2, d1, d3]);
}

#[test]
fn an_empty_aggregation_renders_an_empty_document() {
    let data = IopacData { records: Vec::new() };
    let doc = render_calendar(&data, "Abgabe");
    assert_eq!(doc.name, "IOPAC");
    assert_eq!(doc.events.len(), 0);
}
