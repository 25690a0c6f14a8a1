use iopac::aggregate::{aggregate, AccountFetch};
use iopac::dates::Date;
use iopac::errors::FetchError;
use iopac::rows::{IopacDatum, IopacRow};

fn row(title: &str, date: Date, reserved: bool) -> IopacRow {
    IopacRow {
        title: title.to_string(),
        media_type: "Buch".to_string(),
        return_on: date,
        reserved,
    }
}

fn ok_account(name: &str, rows: Vec<IopacRow>) -> AccountFetch {
    AccountFetch { account: name.to_string(), result: Ok(Some(rows)) }
}

fn same_members(a: &[IopacDatum], b: &[IopacDatum]) -> bool {
    if a.len() != b.len() {
        return false;
    }
    let mut used = vec![false; b.len()];
    for x in a {
        let mut found = false;
        for (k, y) in b.iter().enumerate() {
            if !used[k] && x.account == y.account && x.title == y.title
                && x.media_type == y.media_type && x.return_on == y.return_on
                && x.reserved == y.reserved {
                used[k] = true;
                found = true;
                break;
            }
        }
        if !found {
            return false;
        }
    }
    true
}

#[test]
fn aggregation_tags_and_files_records_by_due_date() {
    let d1 = Date { year: 2024, month: 6, day: 15 };
    let d2 = Date { year: 2024, month: 6, day: 20 };
    let results = vec![
        ok_account("a", vec![row("Eins", d1, false)]),
        ok_account("b", vec![row("Zwei", d1, true), row("Drei", d2, false)]),
    ];
    let outcome = aggregate(&results);
    assert!(outcome.error.is_none());
    let on_d1 = outcome.data.records_on_date(d1);
    assert_eq!(on_d1.len(), 2);
    assert_eq!(on_d1[0].account, "a");
    assert_eq!(on_d1[0].title, "Eins");
    assert_eq!(on_d1[1].account, "b");
    assert!(on_d1[1].reserved);
    let on_d2 = outcome.data.records_on_date(d2);
    assert_eq!(on_d2.len(), 1);
    assert_eq!(on_d2[0].title, "Drei");
    let dates = outcome.data.distinct_dates();
    assert_eq!(dates, vec![d1, d2]);
}

#[test]
fn aggregation_is_order_independent_per_date() {
    let d1 = Date { year: 2024, month: 6, day: 15 };
    let d2 = Date { year: 2024, month: 6, day: 20 };
    let a = ok_account("a", vec![row("Eins", d1, false), row("Zwei", d2, false)]);
    let b = ok_account("b", vec![row("Drei", d1, true)]);
    let a2 = ok_account("a", vec![row("Eins", d1, false), row("Zwei", d2, false)]);
    let b2 = ok_account("b", vec![row("Drei", d1, true)]);
    let one = aggregate(&vec![a, b]);
    let two = aggregate(&vec![b2, a2]);
    for d in [d1, d2] {
        let r1 = one.data.records_on_date(d);
        let r2 = two.data.records_on_date(d);
        assert!(same_members(&r1, &r2));
    }
}

#[test]
fn a_failed_account_does_not_disturb_the_others() {
    let d1 = Date { year: 2024, month: 6, day: 15 };
    let with_failure = vec![
        ok_account("a", vec![row("Eins", d1, false)]),
        AccountFetch {
            account: "b".to_string(),
            result: Err(FetchError::AuthFailed("4711".to_string())),
        },
        ok_account("c", vec![row("Zwei", d1, false)]),
    ];
    let outcome = aggregate(&with_failure);
    let records = outcome.data.records_on_date(d1);
    assert_eq!(records.len(), 2);
    assert_eq!(records[0].account, "a");
    assert_eq!(records[1].account, "c");
    match outcome.error {
        Some(FetchError::AuthFailed(id)) => assert_eq!(id, "4711"),
        other => panic!("expected the auth failure to be reported, got {:?}", other),
    }
}

#[test]
fn the_first_failure_is_reported() {
    let results = vec![
        AccountFetch { account: "a".to_string(), result: Err(FetchError::Network) },
        AccountFetch {
            account: "b".to_string(),
            result: Err(FetchError::AuthFailed("1".to_string())),
        },
    ];
    let outcome = aggregate(&results);
    assert!(matches!(outcome.error, Some(FetchError::Network)));
    assert_eq!(outcome.data.records_on_date(Date { year: 2024, month: 1, day: 1 }).len(), 0);
}

#[test]
fn an_account_without_loans_contributes_nothing() {
    let d1 = Date { year: 2024, month: 6, day: 15 };
    let results = vec![
        AccountFetch { account: "a".to_string(), result: Ok(None) },
        ok_account("b", vec![row("Eins", d1, false)]),
    ];
    let outcome = aggregate(&results);
    assert!(outcome.error.is_none());
    assert_eq!(outcome.data.records.len(), 1);
    assert_eq!(outcome.data.records[0].account, "b");
}
