use iopac::dates::Date;
use iopac::errors::RowError;
use iopac::rows::{IopacDatum, IopacRow};

fn cell(h: &str, v: &str) -> (String, String) {
    (h.to_string(), v.to_string())
}

fn full_row(date_cell: &str) -> Vec<(String, String)> {
    vec![
        cell("Titel&nbsp;", "Der Prozess"),
        cell("Medientyp&nbsp;", "Buch"),
        cell("Rückgabe am&nbsp;", date_cell),
    ]
}

#[test]
fn extracts_a_well_formed_row() {
    let row = IopacRow::try_from(&full_row("12.05.2024")).unwrap();
    assert_eq!(row.title, "Der Prozess");
    assert_eq!(row.media_type, "Buch");
    assert_eq!(row.return_on, Date { year: 2024, month: 5, day: 12 });
    assert!(!row.reserved);
}

#[test]
fn reparsing_the_same_row_gives_an_equal_record() {
    let cells = full_row("01.01.2025 resev.");
    let a = IopacRow::try_from(&cells).unwrap();
    let b = IopacRow::try_from(&cells).unwrap();
    assert_eq!(a.title, b.title);
    assert_eq!(a.media_type, b.media_type);
    assert_eq!(a.return_on, b.return_on);
    assert_eq!(a.reserved, b.reserved);
}

#[test]
fn missing_title_column_fails_with_that_column() {
    let cells = vec![cell("Medientyp&nbsp;", "Buch"), cell("Rückgabe am&nbsp;", "12.05.2024")];
    match IopacRow::try_from(&cells) {
        Err(RowError::MissingColumn(name)) => assert_eq!(name, "Titel&nbsp;"),
        other => panic!("expected a missing title column, got {:?}", other),
    }
}

#[test]
fn missing_media_type_column_fails_with_that_column() {
    let cells = vec![cell("Titel&nbsp;", "Der Prozess"), cell("Rückgabe am&nbsp;", "12.05.2024")];
    match IopacRow::try_from(&cells) {
        Err(RowError::MissingColumn(name)) => assert_eq!(name, "Medientyp&nbsp;"),
        other => panic!("expected a missing media type column, got {:?}", other),
    }
}

#[test]
fn missing_return_date_column_fails_with_that_column() {
    let cells = vec![cell("Titel&nbsp;", "Der Prozess"), cell("Medientyp&nbsp;", "Buch")];
    match IopacRow::try_from(&cells) {
        Err(RowError::MissingColumn(name)) => assert_eq!(name, "Rückgabe am&nbsp;"),
        other => panic!("expected a missing return date column, got {:?}", other),
    }
}

#[test]
fn with_several_faults_the_title_column_is_reported_first() {
    let empty: Vec<(String, String)> = Vec::new();
    match IopacRow::try_from(&empty) {
        Err(RowError::MissingColumn(name)) => assert_eq!(name, "Titel&nbsp;"),
        other => panic!("expected the title column to be reported, got {:?}", other),
    }
    let title_only = vec![cell("Titel&nbsp;", "Der Prozess")];
    match IopacRow::try_from(&title_only) {
        Err(RowError::MissingColumn(name)) => assert_eq!(name, "Medientyp&nbsp;"),
        other => panic!("expected the media type column to be reported, got {:?}", other),
    }
}

#[test]
fn a_cell_without_a_date_shape_fails_as_unparsable() {
    match IopacRow::try_from(&full_row("morgen vielleicht")) {
        Err(RowError::UnparsableDate) => {},
        other => panic!("expected an unparsable date, got {:?}", other),
    }
}

#[test]
fn a_shaped_but_invalid_date_fails_as_unparsable() {
    match IopacRow::try_from(&full_row("99.99.2024")) {
        Err(RowError::UnparsableDate) => {},
        other => panic!("expected an unparsable date, got {:?}", other),
    }
    match IopacRow::try_from(&full_row("30.02.2023")) {
        Err(RowError::UnparsableDate) => {},
        other => panic!("expected an unparsable date, got {:?}", other),
    }
}

#[test]
fn leap_day_parses_only_in_leap_years() {
    let row = IopacRow::try_from(&full_row("29.02.2024")).unwrap();
    assert_eq!(row.return_on, Date { year: 2024, month: 2, day: 29 });
    match IopacRow::try_from(&full_row("29.02.2023")) {
        Err(RowError::UnparsableDate) => {},
        other => panic!("expected an unparsable date, got {:?}", other),
    }
}

#[test]
fn reservation_marker_sets_the_flag_for_any_date() {
    let past = IopacRow::try_from(&full_row("01.01.1999 resev.")).unwrap();
    assert!(past.reserved);
    let future = IopacRow::try_from(&full_row("31.12.2999 resev.")).unwrap();
    assert!(future.reserved);
    let today_like = IopacRow::try_from(&full_row("resev. 15.06.2024")).unwrap();
    assert!(today_like.reserved);
    let unreserved = IopacRow::try_from(&full_row("15.06.2024")).unwrap();
    assert!(!unreserved.reserved);
}

#[test]
fn the_first_shaped_substring_decides() {
    let row = IopacRow::try_from(&full_row("zurück am 03.04.2025, sonst Gebühr")).unwrap();
    assert_eq!(row.return_on, Date { year: 2025, month: 4, day: 3 });
}

#[test]
fn from_row_tags_the_account() {
    let row = IopacRow::try_from(&full_row("12.05.2024")).unwrap();
    let datum = IopacDatum::from_row("anna".to_string(), row);
    assert_eq!(datum.account, "anna");
    assert_eq!(datum.title, "Der Prozess");
    assert_eq!(datum.media_type, "Buch");
    assert_eq!(datum.return_on, Date { year: 2024, month: 5, day: 12 });
    assert!(!datum.reserved);
}
