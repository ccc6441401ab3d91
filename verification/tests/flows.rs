use buddy::cli::{
    run, step, Action, Commands, DatadogPermissionsAction, DumpStage, Event, Failure, Flow,
    GuestScript, Session,
};
use buddy::datadog::token_digest;
use buddy::fastly::{ApiResponse, Instant, TokenMetadata};
use buddy::json::Json;
use chrono::{TimeZone, Utc};

fn advance(session: Session, event: Event) -> (Session, Action) {
    step(session, event)
}

fn expect_print(action: &Action) -> &str {
    match action {
        Action::Print { text } => text.as_str(),
        other => panic!("expected a print, got {other:?}"),
    }
}

fn expect_failure(action: Action) -> Failure {
    match action {
        Action::Finish { outcome: Err(f) } => f,
        other => panic!("expected a failure, got {other:?}"),
    }
}

fn expect_success(action: Action) {
    match action {
        Action::Finish { outcome: Ok(()) } => {}
        other => panic!("expected success, got {other:?}"),
    }
}

#[test]
fn datadog_login_installs_and_checks_the_token() {
    let (session, action) = run(Commands::LoginDatadog { vm: "buddy".into() });
    match &action {
        Action::ReadSecret { reference } => {
            assert_eq!(reference, "op://Infrastructure/datadog-read-only/credential")
        }
        other => panic!("{other:?}"),
    }
    let (session, action) = advance(session, Event::Secret("ddsat_abc'd\n".into()));
    match &action {
        Action::InstallGuest { credentials } => {
            assert_eq!(credentials.vm, "buddy");
            assert_eq!(credentials.credentials_name, "datadog.env");
            assert_eq!(
                credentials.credentials,
                "export DD_ACCESS_TOKEN='ddsat_abc'\\''d'\nexport DD_SITE='https://app.datadoghq.com/'\n"
            );
        }
        other => panic!("{other:?}"),
    }
    let (session, action) = advance(session, Event::Done);
    match &action {
        Action::Capture { vm, script: GuestScript::Command(c) } => {
            assert_eq!(vm, "buddy");
            assert_eq!(c, "pup monitors list --limit 1 --read-only");
        }
        other => panic!("{other:?}"),
    }
    let (session, action) = advance(session, Event::Output("[]".into()));
    assert_eq!(
        expect_print(&action),
        "Datadog authentication is configured and working.\n"
    );
    let (session, action) = advance(session, Event::Done);
    expect_success(action);
    assert!(matches!(session.flow, Flow::Finished));
}

#[test]
fn datadog_login_refuses_other_tokens() {
    let (session, _) = run(Commands::LoginDatadog { vm: "buddy".into() });
    let (_, action) = advance(session, Event::Secret("api_key\n".into()));
    let failure = expect_failure(action);
    assert!(matches!(failure, Failure::NotServiceAccessToken));
    assert_eq!(
        failure.message(),
        "Expected a Datadog service access token (prefix: ddsat_)."
    );
}

#[test]
fn an_unexpected_event_ends_the_command() {
    let (session, _) = run(Commands::LoginDatadog { vm: "buddy".into() });
    let (session, action) = advance(session, Event::Done);
    assert!(matches!(expect_failure(action), Failure::UnexpectedEvent));
    let (_, action) = advance(session, Event::Done);
    assert!(matches!(expect_failure(action), Failure::UnexpectedEvent));
}

fn now() -> Instant {
    let at = Utc.with_ymd_and_hms(2026, 7, 28, 12, 0, 0).unwrap();
    Instant {
        seconds: at.timestamp(),
        nanoseconds: at.timestamp_subsec_nanos(),
    }
}

#[test]
fn fastly_login_checks_the_token_metadata_first() {
    let (session, action) = run(Commands::LoginFastly { vm: "vm".into() });
    match &action {
        Action::ReadSecret { reference } => {
            assert_eq!(reference, "op://Infrastructure/fastly-read-only/credential")
        }
        other => panic!("{other:?}"),
    }
    let (session, action) = advance(session, Event::Secret(" tok \n".into()));
    match &action {
        Action::FetchTokenMetadata { token } => assert_eq!(token, "tok"),
        other => panic!("{other:?}"),
    }
    let body = r#"{"scope": "global:read", "expires_at": "2026-08-01T00:00:00Z"}"#;
    let (session, action) = advance(
        session,
        Event::Response(ApiResponse {
            status: 200,
            body: body.into(),
        }),
    );
    match &action {
        Action::DecodeTokenMetadata { body: b, on_error } => {
            assert_eq!(b, body);
            assert_eq!(on_error, "Fastly returned invalid current token metadata");
        }
        other => panic!("{other:?}"),
    }
    let (session, action) = advance(
        session,
        Event::TokenMetadata {
            metadata: TokenMetadata {
                scope: "global:read".into(),
                expires_at: Some("2026-08-01T00:00:00Z".into()),
            },
            now: now(),
        },
    );
    match &action {
        Action::InstallGuest { credentials } => {
            assert_eq!(credentials.credentials_name, "fastly.env");
            assert_eq!(
                credentials.credentials,
                "export FASTLY_API_TOKEN='tok'\nexport FASTLY_DISABLE_AUTH_COMMAND='1'\n"
            );
        }
        other => panic!("{other:?}"),
    }
    let (session, action) = advance(session, Event::Done);
    match &action {
        Action::Capture { script: GuestScript::Command(c), .. } => {
            assert_eq!(c, "fastly service list --per-page 1")
        }
        other => panic!("{other:?}"),
    }
    let (session, action) = advance(session, Event::Output(String::new()));
    assert_eq!(
        expect_print(&action),
        "Fastly authentication is configured and working.\n"
    );
    let (_, action) = advance(session, Event::Done);
    expect_success(action);
}

#[test]
fn fastly_login_stops_on_a_failed_request_or_an_expired_token() {
    let (session, _) = run(Commands::LoginFastly { vm: "vm".into() });
    let (session, _) = advance(session, Event::Secret("tok".into()));
    let (_, action) = advance(
        session,
        Event::Response(ApiResponse {
            status: 401,
            body: " denied \n".into(),
        }),
    );
    assert_eq!(
        expect_failure(action).message(),
        "Failed to retrieve the current Fastly token metadata: Fastly returned HTTP 401: denied"
    );

    let (session, _) = run(Commands::LoginFastly { vm: "vm".into() });
    let (session, _) = advance(session, Event::Secret("tok".into()));
    let (session, _) = advance(
        session,
        Event::Response(ApiResponse {
            status: 200,
            body: String::new(),
        }),
    );
    let (_, action) = advance(
        session,
        Event::TokenMetadata {
            metadata: TokenMetadata {
                scope: "global:read".into(),
                expires_at: Some("2026-07-01T00:00:00Z".into()),
            },
            now: now(),
        },
    );
    assert_eq!(
        expect_failure(action).message(),
        "Expected the Fastly token expiration date to be in the future, got 2026-07-01 00:00:00 UTC."
    );

    let (session, _) = run(Commands::LoginFastly { vm: "vm".into() });
    let (_, action) = advance(session, Event::Secret("a\rb".into()));
    assert_eq!(
        expect_failure(action).message(),
        "Expected the Fastly API token to contain no line breaks."
    );
}

const USER: &str = r#"{"included": [{"type": "permissions", "id": "p", "attributes": {"name": "n"}}]}"#;

fn user_json() -> Json {
    let value: serde_json::Value = serde_json::from_str(USER).unwrap();
    fn convert(v: &serde_json::Value) -> Json {
        match v {
            serde_json::Value::Null => Json::Null,
            serde_json::Value::Bool(b) => Json::Bool(*b),
            serde_json::Value::Number(n) => Json::Number(n.to_string()),
            serde_json::Value::String(s) => Json::String(s.clone()),
            serde_json::Value::Array(a) => Json::Array(a.iter().map(convert).collect()),
            serde_json::Value::Object(m) => {
                Json::Object(m.iter().map(|(k, v)| (k.clone(), convert(v))).collect())
            }
        }
    }
    convert(&value)
}

#[test]
fn dump_writes_the_live_snapshot() {
    let (session, _) = run(Commands::DatadogPermissions {
        action: DatadogPermissionsAction::Dump { vm: "vm".into() },
    });
    let (session, action) = advance(session, Event::Secret("ddsat_x\n".into()));
    assert!(matches!(
        action,
        Action::Capture { script: GuestScript::DatadogGuestTokenDigest, .. }
    ));
    match &session.flow {
        Flow::DumpPermissions(DumpStage::CheckingGuestToken { digest }) => {
            assert_eq!(digest, &token_digest("ddsat_x"))
        }
        other => panic!("{other:?}"),
    }
    let guest = format!("{}\n", token_digest("ddsat_x"));
    let (session, action) = advance(session, Event::Output(guest));
    assert!(matches!(
        action,
        Action::Capture { script: GuestScript::DatadogCurrentUser, .. }
    ));
    let (session, action) = advance(session, Event::Output(USER.into()));
    match &action {
        Action::DecodeJson { text, on_error } => {
            assert_eq!(text, USER);
            assert_eq!(on_error, "current_user did not return valid JSON");
        }
        other => panic!("{other:?}"),
    }
    let (session, action) = advance(session, Event::Json(user_json()));
    match &action {
        Action::EncodeJson { document, .. } => {
            assert!(document.get("permissions").is_some())
        }
        other => panic!("{other:?}"),
    }
    let (session, action) = advance(session, Event::Text("{}".into()));
    match &action {
        Action::WriteFile { path, contents, on_error } => {
            assert_eq!(path, "docs/datadog-permissions.json");
            assert_eq!(contents, "{}\n");
            assert_eq!(
                on_error,
                "failed to write permissions snapshot \"docs/datadog-permissions.json\""
            );
        }
        other => panic!("{other:?}"),
    }
    let (session, action) = advance(session, Event::Done);
    assert_eq!(
        expect_print(&action),
        "Wrote the current Datadog permissions to \"docs/datadog-permissions.json\"\n"
    );
    let (_, action) = advance(session, Event::Done);
    expect_success(action);
}

fn encode(document: &Json) -> String {
    format!("{document:#?}")
}

#[test]
fn an_assert_after_a_dump_succeeds_when_nothing_changed() {
    let secret = "ddsat_token\n";
    let guest = format!("{}\n", token_digest("ddsat_token"));

    let (session, _) = run(Commands::DatadogPermissions {
        action: DatadogPermissionsAction::Dump { vm: "vm".into() },
    });
    let (session, _) = advance(session, Event::Secret(secret.into()));
    let (session, _) = advance(session, Event::Output(guest.clone()));
    let (session, _) = advance(session, Event::Output(USER.into()));
    let (session, action) = advance(session, Event::Json(user_json()));
    let dumped = match &action {
        Action::EncodeJson { document, .. } => encode(document),
        other => panic!("{other:?}"),
    };
    let (session, action) = advance(session, Event::Text(dumped));
    let file = match action {
        Action::WriteFile { contents, .. } => contents,
        other => panic!("{other:?}"),
    };
    let (session, _) = advance(session, Event::Done);
    let (_, action) = advance(session, Event::Done);
    expect_success(action);

    let (session, _) = run(Commands::DatadogPermissions {
        action: DatadogPermissionsAction::Assert { vm: "vm".into() },
    });
    let (session, _) = advance(session, Event::Secret(secret.into()));
    let (session, _) = advance(session, Event::Output(guest));
    let (session, _) = advance(session, Event::Text(file));
    let (session, _) = advance(session, Event::Output(USER.into()));
    let (session, action) = advance(session, Event::Json(user_json()));
    let live = match &action {
        Action::EncodeJson { document, .. } => encode(document),
        other => panic!("{other:?}"),
    };
    let (session, action) = advance(session, Event::Text(live));
    assert_eq!(
        expect_print(&action),
        "Datadog credentials are current and their permissions match \"docs/datadog-permissions.json\"\n"
    );
    let (_, action) = advance(session, Event::Done);
    expect_success(action);
}

#[test]
fn permission_commands_require_the_current_guest_token() {
    let (session, _) = run(Commands::DatadogPermissions {
        action: DatadogPermissionsAction::Assert { vm: "vm".into() },
    });
    let (session, _) = advance(session, Event::Secret("ddsat_x".into()));
    let (_, action) = advance(session, Event::Output("0000\n".into()));
    let failure = expect_failure(action);
    assert_eq!(
        failure.message(),
        "The guest is not using the current Datadog token from 1Password. Run: just login-datadog"
    );

    let (session, _) = run(Commands::DatadogPermissions {
        action: DatadogPermissionsAction::Dump { vm: "vm".into() },
    });
    let (_, action) = advance(session, Event::Secret("x".into()));
    assert_eq!(
        expect_failure(action).message(),
        "Expected the 1Password item to contain a Datadog service access token (prefix: ddsat_)."
    );
}

fn assert_until_encoded(expected: &str) -> Session {
    let (session, _) = run(Commands::DatadogPermissions {
        action: DatadogPermissionsAction::Assert { vm: "vm".into() },
    });
    let (session, _) = advance(session, Event::Secret("ddsat_x".into()));
    let (session, action) = advance(session, Event::Output(token_digest("ddsat_x")));
    match &action {
        Action::ReadFile { path, on_error } => {
            assert_eq!(path, "docs/datadog-permissions.json");
            assert_eq!(
                on_error,
                "Datadog permissions snapshot not found: \"docs/datadog-permissions.json\"\nCreate it with: just dump-datadog-permissions"
            );
        }
        other => panic!("{other:?}"),
    }
    let (session, _) = advance(session, Event::Text(expected.into()));
    let (session, _) = advance(session, Event::Output(USER.into()));
    let (session, _) = advance(session, Event::Json(user_json()));
    session
}

#[test]
fn assert_accepts_a_matching_snapshot() {
    let session = assert_until_encoded("{\n  \"a\": 1\n}\n");
    let (session, action) = advance(session, Event::Text("{\n  \"a\": 1\n}".into()));
    assert_eq!(
        expect_print(&action),
        "Datadog credentials are current and their permissions match \"docs/datadog-permissions.json\"\n"
    );
    let (_, action) = advance(session, Event::Done);
    expect_success(action);
}

#[test]
fn assert_prints_the_diff_of_a_changed_snapshot() {
    let session = assert_until_encoded("{\n  \"a\": 1\n}\n");
    let (session, action) = advance(session, Event::Text("{\n  \"a\": 2\n}".into()));
    let diff = expect_print(&action).to_owned();
    let expected = similar::TextDiff::from_lines("{\n  \"a\": 1\n}\n", "{\n  \"a\": 2\n}\n")
        .unified_diff()
        .header("\"docs/datadog-permissions.json\"", "live Datadog permissions")
        .to_string();
    assert_eq!(diff, expected);
    assert!(diff.contains("-  \"a\": 1"));
    assert!(diff.contains("+  \"a\": 2"));
    let (_, action) = advance(session, Event::Done);
    assert_eq!(
        expect_failure(action).message(),
        "The Datadog permissions do not match the documented snapshot.\nIf the change is intentional, review it with: just dump-datadog-permissions"
    );
}

#[test]
fn permission_errors_end_the_command() {
    let session = {
        let (session, _) = run(Commands::DatadogPermissions {
            action: DatadogPermissionsAction::Dump { vm: "vm".into() },
        });
        let (session, _) = advance(session, Event::Secret("ddsat_x".into()));
        let (session, _) = advance(session, Event::Output(token_digest("ddsat_x")));
        let (session, _) = advance(session, Event::Output("{}".into()));
        session
    };
    let (_, action) = advance(session, Event::Json(Json::Object(Vec::new())));
    let failure = expect_failure(action);
    assert_eq!(
        failure.message(),
        "current_user did not return included permissions"
    );
    assert_eq!(failure.cause(), None);
}

#[test]
fn fastly_login_refuses_tokens_that_cannot_be_sent() {
    let (session, _) = run(Commands::LoginFastly { vm: "vm".into() });
    let (_, action) = advance(session, Event::Secret("to\u{1}k".into()));
    let failure = expect_failure(action);
    assert!(matches!(failure, Failure::InvalidHeaderValue { .. }));
    assert_eq!(
        failure.message(),
        "Fastly API token is not a valid header value"
    );
    assert_eq!(
        failure.cause().as_deref(),
        Some("failed to parse header value")
    );

    for token in ["tok\u{7f}", "a\u{0}b"] {
        let (session, _) = run(Commands::LoginFastly { vm: "vm".into() });
        let (_, action) = advance(session, Event::Secret(token.into()));
        assert!(matches!(
            expect_failure(action),
            Failure::InvalidHeaderValue { .. }
        ));
    }

    for token in ["t\tk", "tök", "a b"] {
        let (session, _) = run(Commands::LoginFastly { vm: "vm".into() });
        let (_, action) = advance(session, Event::Secret(token.into()));
        assert!(matches!(action, Action::FetchTokenMetadata { .. }), "{token:?}");
    }
}
