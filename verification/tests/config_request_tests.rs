use iopac::config::{Account, IopacConfig, Library};
use iopac::errors::IopacError;
use iopac::request::IopacRequestBody;

fn library(url: &str) -> Library {
    Library { url: url.to_string() }
}

fn account(lib: &str, id: &str, pw: &str) -> Account {
    Account { library: lib.to_string(), customer_id: id.to_string(), password: pw.to_string() }
}

#[test]
fn a_config_whose_accounts_all_name_known_libraries_checks_out() {
    let config = IopacConfig {
        libraries: vec![("stadt".to_string(), library("http://opac.example/"))],
        accounts: vec![
            ("anna".to_string(), account("stadt", "1", "pw")),
            ("ben".to_string(), account("stadt", "2", "pw")),
        ],
    };
    assert!(config.check().is_ok());
}

#[test]
fn an_account_with_an_unknown_library_is_rejected_by_name() {
    let config = IopacConfig {
        libraries: vec![("stadt".to_string(), library("http://opac.example/"))],
        accounts: vec![("anna".to_string(), account("dorf", "1", "pw"))],
    };
    match config.check() {
        Err(IopacError(message)) => assert_eq!(message, "Missing library dorf"),
        Ok(()) => panic!("the missing library should have been rejected"),
    }
}

#[test]
fn library_url_finds_the_configured_base_url() {
    let config = IopacConfig {
        libraries: vec![
            ("stadt".to_string(), library("http://opac.example/")),
            ("dorf".to_string(), library("http://dorf.example/")),
        ],
        accounts: vec![],
    };
    assert_eq!(config.library_url(&"dorf".to_string()).unwrap(), "http://dorf.example/");
    assert!(config.library_url(&"kreis".to_string()).is_none());
}

#[test]
fn the_request_body_carries_the_fixed_login_action() {
    let body = IopacRequestBody::new("4711".to_string(), "geheim".to_string());
    assert_eq!(body.customer_id, "4711");
    assert_eq!(body.password, "geheim");
    assert_eq!(body.login, "Login");
    assert_eq!(body.encode(), "sleKndNr=4711&slePw=geheim&pshLogin=Login");
}

#[test]
fn the_form_encoding_escapes_what_the_wire_format_requires() {
    let body = IopacRequestBody::new("a b".to_string(), "p@ss/w\u{f6}rt+".to_string());
    assert_eq!(body.encode(), "sleKndNr=a+b&slePw=p%40ss%2Fw%C3%B6rt%2B&pshLogin=Login");
}

#[test]
fn the_error_keeps_its_message() {
    let e = IopacError::new("kaputt");
    assert_eq!(e.message(), "kaputt");
    assert_eq!(e.0, "kaputt");
}
