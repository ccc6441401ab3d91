//! Checks on the Fastly API token before it is installed in the guest.
//!
//! The token must carry exactly the read-only `global:read` scope and an
//! expiration date in the future. Whether it is an automation token, or
//! whether TLS management is disabled, cannot be checked with the token's
//! own permissions.

use vstd::prelude::*;

use crate::text::{
    chars_of, debug_quoted, debug_str, decimal, decimal_text, same_text, trim, trim_chars,
};

verus! {

/// The only scope that the token may have.
pub open spec fn required_scope() -> Seq<char> {
    "global:read"@
}

/// An instant as seconds since the Unix epoch and nanoseconds within the
/// second (above 999,999,999 only in a leap second).
#[derive(Debug, Clone, Copy, PartialEq, Eq)]
pub struct Instant {
    pub seconds: i64,
    pub nanoseconds: u32,
}

/// `a` is not later than `b`.
pub open spec fn not_later(a: Instant, b: Instant) -> bool {
    a.seconds < b.seconds || (a.seconds == b.seconds && a.nanoseconds <= b.nanoseconds)
}

/// What chrono's `DateTime::parse_from_rfc3339` gives for `text`, converted
/// to UTC: the instant's seconds since the epoch, its nanoseconds and the
/// `Display` text of the UTC date-time; or the `Display` text of the parse
/// error.
pub uninterp spec fn rfc3339_instant(text: Seq<char>) -> Result<(i64, u32, Seq<char>), Seq<char>>;

/// Parses an RFC 3339 date-time with chrono (`DateTime::parse_from_rfc3339`,
/// then `with_timezone(&Utc)`). The contract names the result and does not
/// say which texts parse.
#[verifier::external_body]
fn parse_rfc3339(text: &str) -> (r: Result<(Instant, String), String>)
    ensures
        match r {
            Ok((i, t)) => rfc3339_instant(text@) == Ok::<(i64, u32, Seq<char>), Seq<char>>(
                (i.seconds, i.nanoseconds, t@),
            ),
            Err(e) => rfc3339_instant(text@) == Err::<(i64, u32, Seq<char>), Seq<char>>(e@),
        },
{
    match chrono::DateTime::parse_from_rfc3339(text) {
        Ok(parsed) => {
            let utc = parsed.with_timezone(&chrono::Utc);
            let instant = Instant { seconds: utc.timestamp(), nanoseconds: utc.timestamp_subsec_nanos() };
            Ok((instant, utc.to_string()))
        },
        Err(error) => Err(error.to_string()),
    }
}

/// The metadata that Fastly's `/tokens/self` endpoint returns.
#[derive(Debug)]
pub struct TokenMetadata {
    pub scope: String,
    pub expires_at: Option<String>,
}

/// Why the Fastly token is refused.
#[derive(Debug)]
pub enum TokenError {
    /// The token's scope is not exactly `global:read`.
    WrongScope { scope: String },
    /// The token never expires.
    MissingExpiration,
    /// The expiration date is not an RFC 3339 date-time; `reason` says why.
    InvalidExpiration { reason: String },
    /// The token has expired; `expires_at` is the expiration date in UTC.
    NotInFuture { expires_at: String },
}

/// The verdict on the token metadata at the instant `now`.
pub open spec fn token_verdict(scope: Seq<char>, expires_at: Option<Seq<char>>, now: Instant) -> Result<
    (),
    TokenFailure,
> {
    if scope != required_scope() {
        Err(TokenFailure::WrongScope)
    } else {
        match expires_at {
            None => Err(TokenFailure::MissingExpiration),
            Some(text) => match rfc3339_instant(text) {
                Err(_) => Err(TokenFailure::InvalidExpiration),
                Ok((seconds, nanoseconds, _)) => if not_later(
                    Instant { seconds, nanoseconds },
                    now,
                ) {
                    Err(TokenFailure::NotInFuture)
                } else {
                    Ok(())
                },
            },
        }
    }
}

/// The kinds of `TokenError`.
pub enum TokenFailure {
    WrongScope,
    MissingExpiration,
    InvalidExpiration,
    NotInFuture,
}

impl TokenError {
    /// The kind of the error.
    pub open spec fn kind(self) -> TokenFailure {
        match self {
            TokenError::WrongScope { .. } => TokenFailure::WrongScope,
            TokenError::MissingExpiration => TokenFailure::MissingExpiration,
            TokenError::InvalidExpiration { .. } => TokenFailure::InvalidExpiration,
            TokenError::NotInFuture { .. } => TokenFailure::NotInFuture,
        }
    }

    /// The text that describes the error.
    pub open spec fn describe(self) -> Seq<char> {
        match self {
            TokenError::WrongScope { scope } => "Expected the Fastly token to have exactly the "@
                + debug_str(required_scope()) + " scope, got "@ + debug_str(scope@) + "."@,
            TokenError::MissingExpiration => "Expected the Fastly token to have an expiration date."@,
            TokenError::InvalidExpiration { .. } => "Fastly returned an invalid token expiration date"@,
            TokenError::NotInFuture { expires_at } =>
                "Expected the Fastly token expiration date to be in the future, got "@ + expires_at@
                + "."@,
        }
    }

    /// The text that describes the error.
    pub fn message(&self) -> (r: String)
        ensures
            r@ == self.describe(),
    {
        match self {
            TokenError::WrongScope { scope } => {
                let mut m = String::from_str("Expected the Fastly token to have exactly the ");
                m.append(debug_quoted("global:read").as_str());
                m.append(" scope, got ");
                m.append(debug_quoted(scope.as_str()).as_str());
                m.append(".");
                m
            },
            TokenError::MissingExpiration => String::from_str(
                "Expected the Fastly token to have an expiration date.",
            ),
            TokenError::InvalidExpiration { .. } => String::from_str(
                "Fastly returned an invalid token expiration date",
            ),
            TokenError::NotInFuture { expires_at } => {
                let mut m = String::from_str(
                    "Expected the Fastly token expiration date to be in the future, got ",
                );
                m.append(expires_at.as_str());
                m.append(".");
                m
            },
        }
    }

    /// The text of the error that caused this one, if any.
    pub fn cause(&self) -> (r: Option<String>)
        ensures
            match self {
                TokenError::InvalidExpiration { reason } => r matches Some(m) && m@ == reason@,
                _ => r is None,
            },
    {
        match self {
            TokenError::InvalidExpiration { reason } => Some(reason.clone()),
            _ => None,
        }
    }
}

/// The expiration date of the metadata, as text.
pub open spec fn expiration_text(metadata: TokenMetadata) -> Option<Seq<char>> {
    match metadata.expires_at {
        Some(t) => Some(t@),
        None => None,
    }
}

/// What a `TokenError` carries, for the metadata it was raised on: the
/// scope that was found, chrono's reason for refusing the date, or the
/// expiration date in UTC.
pub open spec fn token_error_details(e: TokenError, metadata: TokenMetadata) -> bool {
    match e {
        TokenError::WrongScope { scope } => scope@ == metadata.scope@,
        TokenError::InvalidExpiration { reason } => metadata.expires_at matches Some(t)
            && rfc3339_instant(t@) == Err::<(i64, u32, Seq<char>), Seq<char>>(reason@),
        TokenError::NotInFuture { expires_at } => metadata.expires_at matches Some(t)
            && rfc3339_instant(t@) matches Ok((_, _, text)) && text == expires_at@,
        TokenError::MissingExpiration => true,
    }
}

/// Checks that the token has exactly the `global:read` scope and an
/// expiration date later than `now`.
pub fn validate_current_token(metadata: &TokenMetadata, now: Instant) -> (r: Result<(), TokenError>)
    ensures
        match r {
            Ok(()) => token_verdict(metadata.scope@, expiration_text(*metadata), now) is Ok,
            Err(e) => token_verdict(metadata.scope@, expiration_text(*metadata), now) == Err::<
                (),
                TokenFailure,
            >(e.kind()) && token_error_details(e, *metadata),
        },
        r is Ok ==> metadata.scope@ == "global:read"@,
        metadata.scope@ != "global:read"@ ==> r matches Err(TokenError::WrongScope { .. }),
{
    if !same_text(metadata.scope.as_str(), "global:read") {
        return Err(TokenError::WrongScope { scope: metadata.scope.clone() });
    }
    let expires_at = match &metadata.expires_at {
        Some(t) => t,
        None => {
            return Err(TokenError::MissingExpiration);
        },
    };
    check_expiration(parse_rfc3339(expires_at.as_str()), now)
}

/// Decides on an expiration date from what parsing it gave: chrono's reason
/// for refusing it, or the instant and its UTC text. The date must be later
/// than `now`.
pub fn check_expiration(parsed: Result<(Instant, String), String>, now: Instant) -> (r: Result<
    (),
    TokenError,
>)
    ensures
        match parsed {
            Err(reason) => r matches Err(TokenError::InvalidExpiration { reason: m }) && m@ == reason@,
            Ok((instant, text)) => if not_later(instant, now) {
                r matches Err(TokenError::NotInFuture { expires_at }) && expires_at@ == text@
            } else {
                r is Ok
            },
        },
{
    match parsed {
        Err(reason) => Err(TokenError::InvalidExpiration { reason }),
        Ok((instant, text)) => {
            if instant.seconds < now.seconds || (instant.seconds == now.seconds
                && instant.nanoseconds <= now.nanoseconds) {
                Err(TokenError::NotInFuture { expires_at: text })
            } else {
                Ok(())
            }
        },
    }
}

/// The verdict accepts a token only with exactly the `global:read` scope
/// and an expiration date that parses to an instant later than `now`; any
/// other scope is refused as the wrong scope.
pub proof fn lemma_token_verdict_needs_exact_scope(
    scope: Seq<char>,
    expires_at: Option<Seq<char>>,
    now: Instant,
)
    ensures
        token_verdict(scope, expires_at, now) is Ok ==> scope == "global:read"@,
        scope != "global:read"@ ==> token_verdict(scope, expires_at, now) matches Err(
            TokenFailure::WrongScope,
        ),
        token_verdict(scope, expires_at, now) is Ok ==> (expires_at matches Some(text)
            && rfc3339_instant(text) matches Ok((seconds, nanoseconds, _)) && (seconds > now.seconds
            || (seconds == now.seconds && nanoseconds > now.nanoseconds))),
{
}

/// A token with exactly the `global:read` scope whose expiration date parses
/// to an instant later than `now` is accepted.
pub proof fn lemma_token_verdict_accepts(
    text: Seq<char>,
    seconds: i64,
    nanoseconds: u32,
    utc: Seq<char>,
    now: Instant,
)
    requires
        rfc3339_instant(text) == Ok::<(i64, u32, Seq<char>), Seq<char>>((seconds, nanoseconds, utc)),
        seconds > now.seconds || (seconds == now.seconds && nanoseconds > now.nanoseconds),
    ensures
        token_verdict("global:read"@, Some(text), now) is Ok,
{
}

/// Accepting a token is monotone in time: a token accepted at `now` is
/// accepted at any earlier instant.
pub proof fn lemma_token_accepted_earlier(
    scope: Seq<char>,
    expires_at: Option<Seq<char>>,
    now: Instant,
    earlier: Instant,
)
    requires
        token_verdict(scope, expires_at, now) is Ok,
        not_later(earlier, now),
    ensures
        token_verdict(scope, expires_at, earlier) is Ok,
{
}

/// The status and body of an HTTP response from the Fastly API.
#[derive(Debug)]
pub struct ApiResponse {
    pub status: u16,
    pub body: String,
}

/// A Fastly API request that did not succeed.
#[derive(Debug)]
pub struct ApiError {
    pub action: String,
    pub status: u16,
    pub body: String,
}

impl ApiError {
    /// The text that describes the error.
    pub open spec fn describe(self) -> Seq<char> {
        "Failed to "@ + self.action@ + ": Fastly returned HTTP "@ + decimal_text(
            self.status as nat,
        ) + ": "@ + self.body@
    }

    /// The text that describes the error.
    pub fn message(&self) -> (r: String)
        ensures
            r@ == self.describe(),
    {
        let mut m = String::from_str("Failed to ");
        m.append(self.action.as_str());
        m.append(": Fastly returned HTTP ");
        m.append(decimal(self.status).as_str());
        m.append(": ");
        m.append(self.body.as_str());
        m
    }
}

/// Accepts a response with a 2xx status; any other status is an error that
/// names `action` and carries the trimmed body.
pub fn require_success(response: &ApiResponse, action: &str) -> (r: Result<(), ApiError>)
    ensures
        r is Ok <==> 200 <= response.status < 300,
        r matches Err(e) ==> e.action@ == action@ && e.status == response.status && e.body@
            == trim_chars(response.body@),
{
    if !(200 <= response.status && response.status < 300) {
        return Err(
            ApiError {
                action: action.to_owned(),
                status: response.status,
                body: trim(response.body.as_str()),
            },
        );
    }
    Ok(())
}

/// A byte that an HTTP header value may hold: a visible ASCII character, a
/// space, a tab, or any byte of a multi-byte UTF-8 character.
pub open spec fn header_value_byte(b: u8) -> bool {
    (b >= 32 && b != 127) || b == 9
}

/// The token can be sent as the value of the `Fastly-Key` header.
pub open spec fn is_header_value(token: Seq<char>) -> bool {
    let bytes = vstd::utf8::encode_utf8(token);
    forall|i: int| 0 <= i < bytes.len() ==> #[trigger] header_value_byte(bytes[i])
}

/// The `Display` text of the `http` crate's `InvalidHeaderValue`.
pub open spec fn header_value_failure() -> Seq<char> {
    "failed to parse header value"@
}

/// Tries `reqwest::header::HeaderValue::from_str` (the `http` crate's) on
/// `token`: `None` when it accepts the token, else the `Display` text of its
/// error. As the `http` crate's source shows, it accepts exactly the texts
/// whose bytes are all header value bytes, and its error always displays as
/// "failed to parse header value".
#[verifier::external_body]
pub(crate) fn header_value_error(token: &str) -> (r: Option<String>)
    ensures
        r is None <==> is_header_value(token@),
        r matches Some(t) ==> t@ == header_value_failure(),
{
    match reqwest::header::HeaderValue::from_str(token) {
        Ok(_) => None,
        Err(error) => Some(error.to_string()),
    }
}

/// Why the Fastly API token read from 1Password is refused before use.
#[derive(Debug, Clone, Copy, PartialEq, Eq)]
pub enum ApiTokenError {
    Empty,
    LineBreak,
}

impl ApiTokenError {
    /// The text that describes the error.
    pub open spec fn describe(self) -> Seq<char> {
        match self {
            ApiTokenError::Empty => "Expected a non-empty Fastly API token."@,
            ApiTokenError::LineBreak => "Expected the Fastly API token to contain no line breaks."@,
        }
    }

    /// The text that describes the error.
    pub fn message(&self) -> (r: String)
        ensures
            r@ == self.describe(),
    {
        match self {
            ApiTokenError::Empty => String::from_str("Expected a non-empty Fastly API token."),
            ApiTokenError::LineBreak => String::from_str(
                "Expected the Fastly API token to contain no line breaks.",
            ),
        }
    }
}

/// Checks that the API token is not empty and holds no line break.
pub fn check_api_token(token: &str) -> (r: Result<(), ApiTokenError>)
    ensures
        match r {
            Ok(()) => token@.len() > 0 && !token@.contains('\r') && !token@.contains('\n'),
            Err(ApiTokenError::Empty) => token@.len() == 0,
            Err(ApiTokenError::LineBreak) => token@.len() > 0 && (token@.contains('\r')
                || token@.contains('\n')),
        },
{
    let v = chars_of(token);
    if v.len() == 0 {
        return Err(ApiTokenError::Empty);
    }
    let mut i: usize = 0;
    while i < v.len()
        invariant
            v@ == token@,
            i <= v.len(),
            forall|k: int| 0 <= k < i ==> v@[k] != '\r' && v@[k] != '\n',
        decreases v.len() - i,
    {
        if v[i] == '\r' || v[i] == '\n' {
            assert(v@[i as int] == '\r' || v@[i as int] == '\n');
            return Err(ApiTokenError::LineBreak);
        }
        i = i + 1;
    }
    Ok(())
}

} // verus!
