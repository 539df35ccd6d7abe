use mcp_caldav::config::{Account, AppConfig, AuthScheme, AuthType, Credentials};
use mcp_caldav::error::{check_status, CalDavError};

fn account(name: &str, auth_type: AuthType, user: Option<&str>, pass: Option<&str>, token: Option<&str>) -> Account {
    Account {
        name: name.to_string(),
        url: "https://dav.example.com/".to_string(),
        auth_type,
        credentials: Credentials {
            user: user.map(String::from),
            pass: pass.map(String::from),
            token: token.map(String::from),
            refresh_token: None,
        },
    }
}

fn config_message(r: Result<(), CalDavError>) -> String {
    match r {
        Err(CalDavError::Config(m)) => m,
        Err(other) => panic!("expected a configuration error, got {other:?}"),
        Ok(()) => panic!("expected a configuration error"),
    }
}

#[test]
fn basic_account_needs_user_and_pass() {
    let a = account("Work", AuthType::Basic, Some("alice"), None, None);
    assert_eq!(
        config_message(a.validate()),
        "account 'Work': Basic/AppPassword auth requires 'user' and 'pass'"
    );
    let b = account("Personal", AuthType::AppPassword, None, Some("pw"), None);
    assert_eq!(
        config_message(b.validate()),
        "account 'Personal': Basic/AppPassword auth requires 'user' and 'pass'"
    );
    assert!(account("Work", AuthType::Basic, Some("alice"), Some("pw"), None).validate().is_ok());
}

#[test]
fn oauth2_account_needs_a_token() {
    let a = account("Google", AuthType::OAuth2, Some("alice"), Some("pw"), None);
    assert_eq!(config_message(a.validate()), "account 'Google': OAuth2 auth requires 'token'");
    assert!(account("Google", AuthType::OAuth2, None, None, Some("ya29")).validate().is_ok());
}

#[test]
fn config_reports_the_first_incomplete_account() {
    let config = AppConfig {
        accounts: vec![
            account("Ok", AuthType::Basic, Some("u"), Some("p"), None),
            account("NoToken", AuthType::OAuth2, None, None, None),
            account("NoPass", AuthType::Basic, Some("u"), None, None),
        ],
    };
    assert_eq!(config_message(config.validate()), "account 'NoToken': OAuth2 auth requires 'token'");
    let good = AppConfig { accounts: vec![account("Ok", AuthType::Basic, Some("u"), Some("p"), None)] };
    assert!(good.validate().is_ok());
    assert!(AppConfig { accounts: vec![] }.validate().is_ok());
}

#[test]
fn app_password_sends_basic_credentials() {
    let app = account("A", AuthType::AppPassword, Some("alice"), Some("xxxx"), None);
    let basic = account("A", AuthType::Basic, Some("alice"), Some("xxxx"), None);
    for a in [&app, &basic] {
        match a.auth_scheme() {
            AuthScheme::Basic { user, pass } => {
                assert_eq!(user, "alice");
                assert_eq!(pass.as_deref(), Some("xxxx"));
            }
            AuthScheme::Bearer { .. } => panic!("expected Basic credentials"),
        }
    }
    // A missing user is sent as the empty user name.
    match account("A", AuthType::Basic, None, None, None).auth_scheme() {
        AuthScheme::Basic { user, pass } => {
            assert_eq!(user, "");
            assert!(pass.is_none());
        }
        AuthScheme::Bearer { .. } => panic!("expected Basic credentials"),
    }
}

#[test]
fn oauth2_sends_a_bearer_token() {
    match account("G", AuthType::OAuth2, Some("ignored"), None, Some("ya29.token")).auth_scheme() {
        AuthScheme::Bearer { token } => assert_eq!(token, "ya29.token"),
        AuthScheme::Basic { .. } => panic!("expected a bearer token"),
    }
}

#[test]
fn success_statuses_pass() {
    for s in [200u16, 201, 204, 207, 299] {
        assert!(check_status(s, "https://x/").is_ok(), "status {s}");
    }
}

#[test]
fn auth_failures_name_the_status_and_url() {
    match check_status(401, "https://x/cal/") {
        Err(CalDavError::AuthFailure(m)) => assert_eq!(m, "401 Unauthorized for https://x/cal/"),
        other => panic!("unexpected {other:?}"),
    }
    match CalDavError::from_http_status(403, "https://x/cal/") {
        Some(CalDavError::AuthFailure(m)) => assert_eq!(m, "403 Forbidden for https://x/cal/"),
        other => panic!("unexpected {other:?}"),
    }
}

#[test]
fn not_found_and_overloaded_statuses() {
    match check_status(404, "https://x/missing.ics") {
        Err(CalDavError::ResourceNotFound(u)) => assert_eq!(u, "https://x/missing.ics"),
        other => panic!("unexpected {other:?}"),
    }
    for s in [429u16, 503] {
        assert!(matches!(check_status(s, "u"), Err(CalDavError::ServerOverloaded)));
    }
    // Law: only 429 and 503 mean "retry later".
    for s in [100u16, 200, 301, 400, 401, 404, 500, 502, 504, 999] {
        assert!(!matches!(check_status(s, "u"), Err(CalDavError::ServerOverloaded)), "status {s}");
    }
    assert!(CalDavError::from_http_status(500, "u").is_none());
}

#[test]
fn other_statuses_are_unexpected() {
    match check_status(500, "https://x/") {
        Err(CalDavError::XmlParseError(m)) => {
            assert_eq!(m, "unexpected HTTP 500 Internal Server Error for https://x/")
        }
        other => panic!("unexpected {other:?}"),
    }
    assert!(matches!(check_status(302, "u"), Err(CalDavError::XmlParseError(_))));
}

#[test]
fn error_messages_and_codes() {
    let cases: Vec<(CalDavError, &str, i32)> = vec![
        (CalDavError::AuthFailure("x".into()), "authentication failure: x", -32001),
        (CalDavError::ResourceNotFound("u".into()), "resource not found: u", -32002),
        (CalDavError::ServerOverloaded, "server overloaded (retry later)", -32003),
        (CalDavError::XmlParseError("bad".into()), "XML parse error: bad", -32004),
        (CalDavError::IcsParseError("bad".into()), "ICS parse error: bad", -32005),
        (
            CalDavError::PartialFailure { errors: vec!["a".into(), "b".into()] },
            "partial failure: [\"a\", \"b\"]",
            -32006,
        ),
        (CalDavError::Http("timeout".into()), "HTTP error: timeout", -32007),
        (CalDavError::Config("c".into()), "configuration error: c", -32008),
    ];
    let mut codes = Vec::new();
    for (e, msg, code) in &cases {
        assert_eq!(e.message(), *msg);
        assert_eq!(e.mcp_error_code(), *code);
        codes.push(*code);
    }
    // Law: the code tells the kind of error apart.
    codes.sort();
    codes.dedup();
    assert_eq!(codes.len(), cases.len());
}
