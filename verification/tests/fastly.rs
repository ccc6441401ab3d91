use buddy::fastly::{
    check_api_token, check_expiration, require_success, validate_current_token, ApiResponse, ApiTokenError,
    Instant, TokenError, TokenMetadata,
};
use chrono::{DateTime, TimeZone, Utc};

const REQUIRED_SCOPE: &str = "global:read";

fn metadata(scope: &str, expires_at: Option<&str>) -> TokenMetadata {
    TokenMetadata {
        scope: scope.to_owned(),
        expires_at: expires_at.map(str::to_owned),
    }
}

fn instant(at: DateTime<Utc>) -> Instant {
    Instant {
        seconds: at.timestamp(),
        nanoseconds: at.timestamp_subsec_nanos(),
    }
}

fn now() -> Instant {
    instant(Utc.with_ymd_and_hms(2026, 7, 28, 12, 0, 0).unwrap())
}

#[test]
fn accepts_exact_read_only_scope_and_future_expiration() {
    validate_current_token(
        &metadata(REQUIRED_SCOPE, Some("2026-07-28T14:00:01+01:00")),
        now(),
    )
    .unwrap();
}

#[test]
fn rejects_other_or_additional_scopes() {
    for scope in ["global", "purge_select", "global:read purge_select"] {
        let error = validate_current_token(&metadata(scope, Some("2026-07-29T00:00:00Z")), now())
            .unwrap_err()
            .message();
        assert!(
            error.contains("exactly the \"global:read\" scope"),
            "{error:?}"
        );
    }
}

#[test]
fn rejects_missing_expiration() {
    assert_eq!(
        validate_current_token(&metadata(REQUIRED_SCOPE, None), now())
            .unwrap_err()
            .message(),
        "Expected the Fastly token to have an expiration date."
    );
}

#[test]
fn rejects_expiration_that_is_not_in_the_future() {
    for expires_at in ["2026-07-28T11:59:59Z", "2026-07-28T12:00:00Z"] {
        let error = validate_current_token(&metadata(REQUIRED_SCOPE, Some(expires_at)), now())
            .unwrap_err()
            .message();
        assert!(error.contains("to be in the future"), "{error:?}");
    }
}

#[test]
fn rejects_invalid_expiration() {
    let error =
        validate_current_token(&metadata(REQUIRED_SCOPE, Some("tomorrow")), now()).unwrap_err();
    assert_eq!(
        error.message(),
        "Fastly returned an invalid token expiration date"
    );
}

#[test]
fn names_the_scope_that_was_found() {
    let error = validate_current_token(&metadata("global", None), now()).unwrap_err();
    assert_eq!(
        error.message(),
        "Expected the Fastly token to have exactly the \"global:read\" scope, got \"global\"."
    );
    assert!(matches!(error, TokenError::WrongScope { .. }));
}

#[test]
fn names_the_expired_date_in_utc() {
    let error = validate_current_token(
        &metadata(REQUIRED_SCOPE, Some("2026-07-28T13:59:59+02:00")),
        now(),
    )
    .unwrap_err();
    assert_eq!(
        error.message(),
        "Expected the Fastly token expiration date to be in the future, got 2026-07-28 11:59:59 UTC."
    );
}

#[test]
fn gives_the_reason_of_an_invalid_date() {
    let error =
        validate_current_token(&metadata(REQUIRED_SCOPE, Some("tomorrow")), now()).unwrap_err();
    let chrono_reason = DateTime::parse_from_rfc3339("tomorrow").unwrap_err().to_string();
    assert_eq!(error.cause(), Some(chrono_reason));
}

#[test]
fn compares_to_the_nanosecond() {
    let mut at = now();
    at.nanoseconds = 500;
    assert!(validate_current_token(
        &metadata(REQUIRED_SCOPE, Some("2026-07-28T12:00:00.000000501Z")),
        at
    )
    .is_ok());
    assert!(validate_current_token(
        &metadata(REQUIRED_SCOPE, Some("2026-07-28T12:00:00.000000500Z")),
        at
    )
    .is_err());
}

#[test]
fn a_token_accepted_now_is_accepted_earlier() {
    let token = metadata(REQUIRED_SCOPE, Some("2026-07-28T12:30:00Z"));
    let earlier = instant(Utc.with_ymd_and_hms(2026, 7, 1, 0, 0, 0).unwrap());
    assert!(validate_current_token(&token, now()).is_ok());
    assert!(validate_current_token(&token, earlier).is_ok());
}

#[test]
fn decides_on_a_parsed_expiration_date() {
    let at = Instant {
        seconds: 1_000,
        nanoseconds: 10,
    };
    let later = Instant {
        seconds: 1_000,
        nanoseconds: 11,
    };
    assert!(check_expiration(Ok((later, "later".to_owned())), at).is_ok());
    let next_second = Instant {
        seconds: 1_001,
        nanoseconds: 0,
    };
    assert!(check_expiration(Ok((next_second, "next".to_owned())), at).is_ok());

    let same = check_expiration(Ok((at, "same".to_owned())), at).unwrap_err();
    assert!(matches!(&same, TokenError::NotInFuture { expires_at } if expires_at == "same"));
    let earlier = Instant {
        seconds: 999,
        nanoseconds: 999_999_999,
    };
    let expired = check_expiration(Ok((earlier, "earlier".to_owned())), at).unwrap_err();
    assert_eq!(
        expired.message(),
        "Expected the Fastly token expiration date to be in the future, got earlier."
    );

    let invalid = check_expiration(Err("bad input".to_owned()), at).unwrap_err();
    assert!(matches!(&invalid, TokenError::InvalidExpiration { reason } if reason == "bad input"));
    assert_eq!(invalid.cause().as_deref(), Some("bad input"));
}

fn response(status: u16, body: &str) -> ApiResponse {
    ApiResponse {
        status,
        body: body.to_owned(),
    }
}

#[test]
fn requires_a_2xx_status() {
    for status in [200, 204, 299] {
        assert!(require_success(&response(status, ""), "x").is_ok());
    }
    for status in [0, 199, 300, 404, 500] {
        assert!(require_success(&response(status, ""), "x").is_err());
    }
    let error = require_success(
        &response(404, "  {\"msg\": \"not found\"}\n"),
        "retrieve the current Fastly token metadata",
    )
    .unwrap_err();
    assert_eq!(
        error.message(),
        "Failed to retrieve the current Fastly token metadata: Fastly returned HTTP 404: {\"msg\": \"not found\"}"
    );
    assert_eq!(error.status, 404);
}

#[test]
fn checks_the_api_token_text() {
    assert!(check_api_token("token").is_ok());
    assert_eq!(check_api_token(""), Err(ApiTokenError::Empty));
    assert_eq!(check_api_token("a\rb"), Err(ApiTokenError::LineBreak));
    assert_eq!(check_api_token("a\nb"), Err(ApiTokenError::LineBreak));
    assert_eq!(
        ApiTokenError::Empty.message(),
        "Expected a non-empty Fastly API token."
    );
    assert_eq!(
        ApiTokenError::LineBreak.message(),
        "Expected the Fastly API token to contain no line breaks."
    );
}
