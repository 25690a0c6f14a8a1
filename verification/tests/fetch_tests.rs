use iopac::dates::Date;
use iopac::errors::{FetchError, RowError};
use iopac::fetch::process_response;

fn page_with_table(rows_html: &str) -> Vec<u8> {
    // The return-date header carries the u-umlaut as the Latin-1 byte 0xFC.
    let mut body = Vec::new();
    body.extend_from_slice(
        b"<html><body><div class=\"SEARCH_LESER\"><table>\
          <tr><th>Titel&nbsp;</th><th>Medientyp&nbsp;</th><th>R",
    );
    body.push(0xFCu8);
    body.extend_from_slice(b"ckgabe am&nbsp;</th></tr>");
    body.extend_from_slice(rows_html.as_bytes());
    body.extend_from_slice(b"</table></div></body></html>");
    body
}

#[test]
fn a_page_with_a_loan_table_yields_its_rows() {
    let body = page_with_table(
        "<tr><td>Eins</td><td>Buch</td><td>12.05.2024</td></tr>\
         <tr><td>Zwei</td><td>CD</td><td>01.06.2024 resev.</td></tr>",
    );
    let rows = process_response(&body, "4711").unwrap().expect("rows");
    assert_eq!(rows.len(), 2);
    assert_eq!(rows[0].title, "Eins");
    assert_eq!(rows[0].media_type, "Buch");
    assert_eq!(rows[0].return_on, Date { year: 2024, month: 5, day: 12 });
    assert!(!rows[0].reserved);
    assert_eq!(rows[1].title, "Zwei");
    assert!(rows[1].reserved);
}

#[test]
fn latin1_bytes_decode_to_their_code_points() {
    // "Gebühren" with the u-umlaut as the single Latin-1 byte 0xFC.
    let mut row = Vec::new();
    row.extend_from_slice(b"<tr><td>Geb");
    row.push(0xFCu8);
    row.extend_from_slice(b"hren</td><td>Buch</td><td>12.05.2024</td></tr>");
    let mut body = Vec::new();
    body.extend_from_slice(
        b"<div class=\"SEARCH_LESER\"><table>\
          <tr><th>Titel&nbsp;</th><th>Medientyp&nbsp;</th><th>R",
    );
    body.push(0xFCu8);
    body.extend_from_slice(b"ckgabe am&nbsp;</th></tr>");
    body.extend_from_slice(&row);
    body.extend_from_slice(b"</table></div>");
    let rows = process_response(&body, "4711").unwrap().expect("rows");
    assert_eq!(rows.len(), 1);
    assert_eq!(rows[0].title, "Geb\u{fc}hren");
}

#[test]
fn the_login_failure_marker_fails_the_account() {
    let body: Vec<u8> =
        b"<html><body><p>  Login fehlgeschlagen  </p></body></html>".to_vec();
    match process_response(&body, "4711") {
        Err(FetchError::AuthFailed(id)) => assert_eq!(id, "4711"),
        other => panic!("expected an auth failure, got {:?}", other),
    }
}

#[test]
fn auth_failure_takes_precedence_over_the_table() {
    let mut body = b"<html><body><p>Login fehlgeschlagen</p>".to_vec();
    body.extend_from_slice(
        b"<div class=\"SEARCH_LESER\"><table><tr><th>Titel&nbsp;</th></tr></table></div></body></html>",
    );
    assert!(matches!(process_response(&body, "1"), Err(FetchError::AuthFailed(_))));
}

#[test]
fn a_missing_loan_section_means_no_loans() {
    let body: Vec<u8> = b"<html><body><p>Willkommen</p></body></html>".to_vec();
    let result = process_response(&body, "4711").unwrap();
    assert!(result.is_none());
}

#[test]
fn a_section_without_a_table_means_no_loans() {
    let body: Vec<u8> =
        b"<html><body><div class=\"SEARCH_LESER\"><p>leer</p></div></body></html>".to_vec();
    let result = process_response(&body, "4711").unwrap();
    assert!(result.is_none());
}

#[test]
fn a_bad_row_fails_the_whole_table() {
    let body = page_with_table(
        "<tr><td>Eins</td><td>Buch</td><td>12.05.2024</td></tr>\
         <tr><td>Zwei</td><td>CD</td><td>irgendwann</td></tr>",
    );
    match process_response(&body, "4711") {
        Err(FetchError::ParseError(RowError::UnparsableDate)) => {},
        other => panic!("expected the bad row to fail parsing, got {:?}", other),
    }
}
