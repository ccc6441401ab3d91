//! The commands of the tool as state machines.
//!
//! Each command alternates work outside the library (reading a secret,
//! running a script in the guest, calling the Fastly API, reading and
//! writing files, printing) with decisions. `run` starts a command and
//! `step` takes the outcome of the last action and decides the next one.
//! The caller performs each action and answers with the matching event;
//! when an action itself fails, the caller stops with its own error.

use vstd::prelude::*;

use crate::credentials::{
    all_env_names_valid, env_payload, env_view, install_guest_env, is_plain_file_name, valid_env_name,
    CredentialsError, GuestCredentials,
};
use crate::datadog::{token_digest, token_digest_text, unified_diff, unified_diff_text};
use crate::fastly::{
    check_api_token, expiration_text, header_value_error, header_value_failure, is_header_value, require_success, token_error_details, token_verdict,
    validate_current_token, ApiError, ApiResponse, ApiTokenError, Instant, TokenError,
    TokenMetadata,
};
use crate::json::Json;
use crate::permissions::{normalize, normalized_snapshot, snapshot_json, PermissionsError};
use crate::text::{debug_quoted, debug_str, same_text, starts_with, trim, trim_chars, trim_end, trim_end_chars};

verus! {

/// What to do with the Datadog permissions snapshot.
#[derive(Debug)]
pub enum DatadogPermissionsAction {
    /// Write the VM's current Datadog permissions to the snapshot.
    Dump { vm: String },
    /// Compare the VM's current Datadog permissions with the snapshot.
    Assert { vm: String },
}

/// The commands of the tool.
#[derive(Debug)]
pub enum Commands {
    /// Configure and verify the Datadog credentials in a VM.
    LoginDatadog { vm: String },
    /// Configure and verify the Fastly credentials in a VM.
    LoginFastly { vm: String },
    /// Dump or assert the Datadog permissions snapshot.
    DatadogPermissions { action: DatadogPermissionsAction },
}

/// A script to run in the guest.
#[derive(Debug)]
pub enum GuestScript {
    /// A command line.
    Command(String),
    /// The bundled script that prints the SHA-256 digest of the guest's
    /// Datadog token.
    DatadogGuestTokenDigest,
    /// The bundled script that prints Datadog's `current_user` response.
    DatadogCurrentUser,
}

/// Why a command failed.
#[derive(Debug)]
pub enum Failure {
    Credentials(CredentialsError),
    /// The Datadog secret is not a service access token.
    NotServiceAccessToken,
    /// The 1Password item does not hold a Datadog service access token.
    SecretNotServiceAccessToken,
    /// The guest's Datadog token is not the one in 1Password.
    StaleGuestToken,
    Permissions(PermissionsError),
    /// The live permissions differ from the snapshot.
    PermissionsChanged,
    ApiToken(ApiTokenError),
    /// The Fastly API token cannot be sent in an HTTP header; `reason` is
    /// the `http` crate's error text.
    InvalidHeaderValue { reason: String },
    Api(ApiError),
    Token(TokenError),
    /// An event that does not answer the last action.
    UnexpectedEvent,
}

/// The next thing for the caller to do.
#[derive(Debug)]
pub enum Action {
    /// Read a secret with the 1Password CLI; answer `Event::Secret` with its
    /// output.
    ReadSecret { reference: String },
    /// Install a credentials file in the guest; answer `Event::Done`.
    InstallGuest { credentials: GuestCredentials },
    /// Run a script in the guest; answer `Event::Output` with its output.
    Capture { vm: String, script: GuestScript },
    /// Request `/tokens/self` from the Fastly API with `token`; answer
    /// `Event::Response`.
    FetchTokenMetadata { token: String },
    /// Decode the token metadata in `body` and read the clock; answer
    /// `Event::TokenMetadata`, or fail with `on_error`.
    DecodeTokenMetadata { body: String, on_error: String },
    /// Parse `text` as JSON; answer `Event::Json`, or fail with `on_error`.
    DecodeJson { text: String, on_error: String },
    /// Write `document` as pretty-printed JSON; answer `Event::Text`, or fail
    /// with `on_error`.
    EncodeJson { document: Json, on_error: String },
    /// Read the file at `path`; answer `Event::Text`, or fail with `on_error`.
    ReadFile { path: String, on_error: String },
    /// Write `contents` to the file at `path`; answer `Event::Done`, or fail
    /// with `on_error`.
    WriteFile { path: String, contents: String, on_error: String },
    /// Print `text` to standard output as it is and flush; answer
    /// `Event::Done`.
    Print { text: String },
    /// The command is over.
    Finish { outcome: Result<(), Failure> },
}

/// What the caller reports back after an action.
#[derive(Debug)]
pub enum Event {
    /// The output of the 1Password CLI.
    Secret(String),
    /// The action is done.
    Done,
    /// The standard output of a guest script.
    Output(String),
    /// A response of the Fastly API.
    Response(ApiResponse),
    /// Decoded token metadata and the current time.
    TokenMetadata { metadata: TokenMetadata, now: Instant },
    /// A decoded JSON document.
    Json(Json),
    /// The text of a file or of an encoded document.
    Text(String),
}

#[derive(Debug)]
pub enum DatadogLoginStage {
    ReadingSecret,
    Installing,
    Verifying,
    Reporting,
}

#[derive(Debug)]
pub enum FastlyLoginStage {
    ReadingSecret,
    FetchingMetadata { token: String },
    DecodingMetadata { token: String },
    Installing,
    Verifying,
    Reporting,
}

#[derive(Debug)]
pub enum DumpStage {
    ReadingSecret,
    CheckingGuestToken { digest: String },
    FetchingUser,
    DecodingUser,
    Encoding,
    Writing,
    Reporting,
}

#[derive(Debug)]
pub enum AssertStage {
    ReadingSecret,
    CheckingGuestToken { digest: String },
    ReadingSnapshot,
    FetchingUser { expected: String },
    DecodingUser { expected: String },
    Encoding { expected: String },
    ReportingDiff,
    Reporting,
}

#[derive(Debug)]
pub enum Flow {
    DatadogLogin(DatadogLoginStage),
    FastlyLogin(FastlyLoginStage),
    DumpPermissions(DumpStage),
    AssertPermissions(AssertStage),
    Finished,
}

/// A command in progress on the VM `vm`.
#[derive(Debug)]
pub struct Session {
    pub vm: String,
    pub flow: Flow,
}

pub open spec fn datadog_secret_reference() -> Seq<char> {
    "op://Infrastructure/datadog-read-only/credential"@
}

pub open spec fn fastly_secret_reference() -> Seq<char> {
    "op://Infrastructure/fastly-read-only/credential"@
}

/// Where the permissions snapshot is kept.
pub open spec fn permissions_snapshot_path() -> Seq<char> {
    "docs/datadog-permissions.json"@
}

/// The prefix of Datadog service access tokens.
pub open spec fn service_token_prefix() -> Seq<char> {
    "ddsat_"@
}

/// The credentials file that the Datadog login installs for `token`.
pub open spec fn datadog_env(token: Seq<char>) -> Seq<char> {
    env_payload(seq![("DD_ACCESS_TOKEN"@, token), ("DD_SITE"@, "https://app.datadoghq.com/"@)])
}

/// The credentials file that the Fastly login installs for `token`.
pub open spec fn fastly_env(token: Seq<char>) -> Seq<char> {
    env_payload(seq![("FASTLY_API_TOKEN"@, token), ("FASTLY_DISABLE_AUTH_COMMAND"@, "1"@)])
}

/// The session is over and the action reports `failure` holds of the error.
pub open spec fn fails(r: (Session, Action), vm: Seq<char>, failure: spec_fn(Failure) -> bool) -> bool {
    &&& r.0.vm@ == vm
    &&& r.0.flow is Finished
    &&& r.1 matches Action::Finish { outcome: Err(f) } && failure(f)
}

/// The session is over and the command succeeded.
pub open spec fn succeeds(r: (Session, Action), vm: Seq<char>) -> bool {
    &&& r.0.vm@ == vm
    &&& r.0.flow is Finished
    &&& r.1 matches Action::Finish { outcome: Ok(()) }
}

/// The session is over because the event does not answer the last action.
pub open spec fn rejects(r: (Session, Action), vm: Seq<char>) -> bool {
    fails(r, vm, |f: Failure| f is UnexpectedEvent)
}

/// The session moves on to `flow` and prints `text`.
pub open spec fn prints(r: (Session, Action), vm: Seq<char>, flow: Flow, text: Seq<char>) -> bool {
    &&& r.0.vm@ == vm
    &&& r.0.flow == flow
    &&& r.1 matches Action::Print { text: t } && t@ == text
}

/// The session moves on to `flow` and installs `credentials` as the file
/// `name` in the guest.
pub open spec fn installs(
    r: (Session, Action),
    vm: Seq<char>,
    flow: Flow,
    name: Seq<char>,
    credentials: Seq<char>,
) -> bool {
    &&& r.0.vm@ == vm
    &&& r.0.flow == flow
    &&& r.1 matches Action::InstallGuest { credentials: g } && g.vm@ == vm && g.credentials_name@
        == name && g.credentials@ == credentials
}

/// The session moves on to `flow` and runs `command` in the guest.
pub open spec fn runs_command(r: (Session, Action), vm: Seq<char>, flow: Flow, command: Seq<char>) -> bool {
    &&& r.0.vm@ == vm
    &&& r.0.flow == flow
    &&& r.1 matches Action::Capture { vm: v, script: GuestScript::Command(c) } && v@ == vm && c@
        == command
}

/// How the Datadog login goes on from `stage` after `event`.
pub open spec fn datadog_login_step(vm: Seq<char>, stage: DatadogLoginStage, event: Event, r: (Session, Action)) -> bool {
    match (stage, event) {
        (DatadogLoginStage::ReadingSecret, Event::Secret(raw)) => {
            let token = trim_chars(raw@);
            if service_token_prefix().is_prefix_of(token) {
                installs(r, vm, Flow::DatadogLogin(DatadogLoginStage::Installing), "datadog.env"@, datadog_env(token))
            } else {
                fails(r, vm, |f: Failure| f is NotServiceAccessToken)
            }
        },
        (DatadogLoginStage::Installing, Event::Done) => runs_command(
            r,
            vm,
            Flow::DatadogLogin(DatadogLoginStage::Verifying),
            "pup monitors list --limit 1 --read-only"@,
        ),
        (DatadogLoginStage::Verifying, Event::Output(_)) => prints(
            r,
            vm,
            Flow::DatadogLogin(DatadogLoginStage::Reporting),
            "Datadog authentication is configured and working.\n"@,
        ),
        (DatadogLoginStage::Reporting, Event::Done) => succeeds(r, vm),
        _ => rejects(r, vm),
    }
}

proof fn lemma_fixed_names_are_valid()
    ensures
        valid_env_name("DD_ACCESS_TOKEN"@),
        valid_env_name("DD_SITE"@),
        valid_env_name("FASTLY_API_TOKEN"@),
        valid_env_name("FASTLY_DISABLE_AUTH_COMMAND"@),
        is_plain_file_name("datadog.env"@),
        is_plain_file_name("fastly.env"@),
{
    reveal_strlit("DD_ACCESS_TOKEN");
    reveal_strlit("DD_SITE");
    reveal_strlit("FASTLY_API_TOKEN");
    reveal_strlit("FASTLY_DISABLE_AUTH_COMMAND");
    reveal_strlit("datadog.env");
    reveal_strlit("fastly.env");
    assert(!"datadog.env"@.contains('/'));
    assert(!"fastly.env"@.contains('/'));
    assert("datadog.env"@.len() == 11);
    assert("fastly.env"@.len() == 10);
    assert("datadog.env"@ != seq!['.']);
    assert("datadog.env"@ != seq!['.', '.']);
    assert("fastly.env"@ != seq!['.']);
    assert("fastly.env"@ != seq!['.', '.']);
}

fn finish(vm: String, outcome: Result<(), Failure>) -> (r: (Session, Action))
    ensures
        r.0.vm@ == vm@,
        r.0.flow is Finished,
        r.1 matches Action::Finish { outcome: o } && o == outcome,
{
    (Session { vm, flow: Flow::Finished }, Action::Finish { outcome })
}

fn print(vm: String, flow: Flow, text: String) -> (r: (Session, Action))
    ensures
        prints(r, vm@, flow, text@),
{
    (Session { vm, flow }, Action::Print { text })
}

fn run_command(vm: String, flow: Flow, command: &str) -> (r: (Session, Action))
    ensures
        runs_command(r, vm@, flow, command@),
{
    let script = GuestScript::Command(String::from_str(command));
    let target = vm.clone();
    (Session { vm, flow }, Action::Capture { vm: target, script })
}

/// Decides the next step of the Datadog login.
pub fn step_datadog_login(vm: String, stage: DatadogLoginStage, event: Event) -> (r: (Session, Action))
    ensures
        datadog_login_step(vm@, stage, event, r),
{
    match (stage, event) {
        (DatadogLoginStage::ReadingSecret, Event::Secret(raw)) => {
            let token = trim(raw.as_str());
            if !starts_with(token.as_str(), "ddsat_") {
                return finish(vm, Err(Failure::NotServiceAccessToken));
            }
            let environment: &[(&str, &str)] = &[
                ("DD_ACCESS_TOKEN", token.as_str()),
                ("DD_SITE", "https://app.datadoghq.com/"),
            ];
            proof {
                lemma_fixed_names_are_valid();
                assert(env_view(environment@) =~= seq![("DD_ACCESS_TOKEN"@, token@), ("DD_SITE"@, "https://app.datadoghq.com/"@)]);
                assert(all_env_names_valid(env_view(environment@)));
            }
            match install_guest_env(vm.as_str(), "datadog.env", environment) {
                Ok(credentials) => (
                    Session { vm, flow: Flow::DatadogLogin(DatadogLoginStage::Installing) },
                    Action::InstallGuest { credentials },
                ),
                Err(e) => finish(vm, Err(Failure::Credentials(e))),
            }
        },
        (DatadogLoginStage::Installing, Event::Done) => run_command(
            vm,
            Flow::DatadogLogin(DatadogLoginStage::Verifying),
            "pup monitors list --limit 1 --read-only",
        ),
        (DatadogLoginStage::Verifying, Event::Output(_)) => print(
            vm,
            Flow::DatadogLogin(DatadogLoginStage::Reporting),
            String::from_str("Datadog authentication is configured and working.\n"),
        ),
        (DatadogLoginStage::Reporting, Event::Done) => finish(vm, Ok(())),
        _ => finish(vm, Err(Failure::UnexpectedEvent)),
    }
}

/// How the Fastly login goes on from `stage` after `event`.
pub open spec fn fastly_login_step(vm: Seq<char>, stage: FastlyLoginStage, event: Event, r: (Session, Action)) -> bool {
    match (stage, event) {
        (FastlyLoginStage::ReadingSecret, Event::Secret(raw)) => {
            let token = trim_chars(raw@);
            if token.len() == 0 {
                fails(r, vm, |f: Failure| f matches Failure::ApiToken(ApiTokenError::Empty))
            } else if token.contains('\r') || token.contains('\n') {
                fails(r, vm, |f: Failure| f matches Failure::ApiToken(ApiTokenError::LineBreak))
            } else if !is_header_value(token) {
                fails(
                    r,
                    vm,
                    |f: Failure|
                        f matches Failure::InvalidHeaderValue { reason } && reason@
                            == header_value_failure(),
                )
            } else {
                &&& r.0.vm@ == vm
                &&& r.0.flow matches Flow::FastlyLogin(FastlyLoginStage::FetchingMetadata { token: t })
                    && t@ == token
                &&& r.1 matches Action::FetchTokenMetadata { token: t } && t@ == token
            }
        },
        (FastlyLoginStage::FetchingMetadata { token }, Event::Response(response)) => {
            if 200 <= response.status < 300 {
                &&& r.0.vm@ == vm
                &&& r.0.flow matches Flow::FastlyLogin(FastlyLoginStage::DecodingMetadata { token: t })
                    && t@ == token@
                &&& r.1 matches Action::DecodeTokenMetadata { body, on_error } && body@
                    == response.body@ && on_error@ == "Fastly returned invalid current token metadata"@
            } else {
                fails(
                    r,
                    vm,
                    |f: Failure|
                        f matches Failure::Api(e) && e.action@
                            == "retrieve the current Fastly token metadata"@ && e.status
                            == response.status && e.body@ == trim_chars(response.body@),
                )
            }
        },
        (FastlyLoginStage::DecodingMetadata { token }, Event::TokenMetadata { metadata, now }) => {
            match token_verdict(metadata.scope@, expiration_text(metadata), now) {
                Ok(()) => installs(
                    r,
                    vm,
                    Flow::FastlyLogin(FastlyLoginStage::Installing),
                    "fastly.env"@,
                    fastly_env(token@),
                ),
                Err(kind) => fails(
                    r,
                    vm,
                    |f: Failure|
                        f matches Failure::Token(e) && e.kind() == kind && token_error_details(
                            e,
                            metadata,
                        ),
                ),
            }
        },
        (FastlyLoginStage::Installing, Event::Done) => runs_command(
            r,
            vm,
            Flow::FastlyLogin(FastlyLoginStage::Verifying),
            "fastly service list --per-page 1"@,
        ),
        (FastlyLoginStage::Verifying, Event::Output(_)) => prints(
            r,
            vm,
            Flow::FastlyLogin(FastlyLoginStage::Reporting),
            "Fastly authentication is configured and working.\n"@,
        ),
        (FastlyLoginStage::Reporting, Event::Done) => succeeds(r, vm),
        _ => rejects(r, vm),
    }
}

/// Decides the next step of the Fastly login.
pub fn step_fastly_login(vm: String, stage: FastlyLoginStage, event: Event) -> (r: (Session, Action))
    ensures
        fastly_login_step(vm@, stage, event, r),
{
    match (stage, event) {
        (FastlyLoginStage::ReadingSecret, Event::Secret(raw)) => {
            let token = trim(raw.as_str());
            match check_api_token(token.as_str()) {
                Ok(()) => {},
                Err(e) => {
                    return finish(vm, Err(Failure::ApiToken(e)));
                },
            }
            match header_value_error(token.as_str()) {
                None => {},
                Some(reason) => {
                    return finish(vm, Err(Failure::InvalidHeaderValue { reason }));
                },
            }
            let request_token = token.clone();
            (
                Session { vm, flow: Flow::FastlyLogin(FastlyLoginStage::FetchingMetadata { token }) },
                Action::FetchTokenMetadata { token: request_token },
            )
        },
        (FastlyLoginStage::FetchingMetadata { token }, Event::Response(response)) => {
            match require_success(&response, "retrieve the current Fastly token metadata") {
                Ok(()) => (
                    Session {
                        vm,
                        flow: Flow::FastlyLogin(FastlyLoginStage::DecodingMetadata { token }),
                    },
                    Action::DecodeTokenMetadata {
                        body: response.body,
                        on_error: String::from_str("Fastly returned invalid current token metadata"),
                    },
                ),
                Err(e) => finish(vm, Err(Failure::Api(e))),
            }
        },
        (FastlyLoginStage::DecodingMetadata { token }, Event::TokenMetadata { metadata, now }) => {
            match validate_current_token(&metadata, now) {
                Ok(()) => {},
                Err(e) => {
                    return finish(vm, Err(Failure::Token(e)));
                },
            }
            let environment: &[(&str, &str)] = &[
                ("FASTLY_API_TOKEN", token.as_str()),
                ("FASTLY_DISABLE_AUTH_COMMAND", "1"),
            ];
            proof {
                lemma_fixed_names_are_valid();
                assert(env_view(environment@) =~= seq![("FASTLY_API_TOKEN"@, token@), ("FASTLY_DISABLE_AUTH_COMMAND"@, "1"@)]);
                assert(all_env_names_valid(env_view(environment@)));
            }
            match install_guest_env(vm.as_str(), "fastly.env", environment) {
                Ok(credentials) => (
                    Session { vm, flow: Flow::FastlyLogin(FastlyLoginStage::Installing) },
                    Action::InstallGuest { credentials },
                ),
                Err(e) => finish(vm, Err(Failure::Credentials(e))),
            }
        },
        (FastlyLoginStage::Installing, Event::Done) => run_command(
            vm,
            Flow::FastlyLogin(FastlyLoginStage::Verifying),
            "fastly service list --per-page 1",
        ),
        (FastlyLoginStage::Verifying, Event::Output(_)) => print(
            vm,
            Flow::FastlyLogin(FastlyLoginStage::Reporting),
            String::from_str("Fastly authentication is configured and working.\n"),
        ),
        (FastlyLoginStage::Reporting, Event::Done) => finish(vm, Ok(())),
        _ => finish(vm, Err(Failure::UnexpectedEvent)),
    }
}

/// The session moves on to `flow` and runs the bundled `script` in the guest.
pub open spec fn runs_script(r: (Session, Action), vm: Seq<char>, flow: Flow, script: GuestScript) -> bool {
    &&& r.0.vm@ == vm
    &&& r.0.flow == flow
    &&& r.1 matches Action::Capture { vm: v, script: s } && v@ == vm && s == script
}

/// The session moves on to `flow` and asks to decode `text` as JSON.
pub open spec fn decodes_user(r: (Session, Action), vm: Seq<char>, flow: Flow, text: Seq<char>) -> bool {
    &&& r.0.vm@ == vm
    &&& r.0.flow == flow
    &&& r.1 matches Action::DecodeJson { text: t, on_error } && t@ == text && on_error@
        == "current_user did not return valid JSON"@
}

/// The session moves on to `flow` and asks to encode the snapshot of the
/// `current_user` response `user`, or fails when there is none.
pub open spec fn encodes_snapshot(r: (Session, Action), vm: Seq<char>, flow: Flow, user: Json) -> bool {
    match normalized_snapshot(user@) {
        Ok(ps) => {
            &&& r.0.vm@ == vm
            &&& r.0.flow == flow
            &&& r.1 matches Action::EncodeJson { document, on_error } && document@ == snapshot_json(
                ps,
            ) && on_error@ == "failed to serialize the Datadog permissions snapshot"@
        },
        Err(e) => fails(r, vm, |f: Failure| f == Failure::Permissions(e)),
    }
}

/// The snapshot file's text for an encoded snapshot: the text and a newline.
pub open spec fn snapshot_text(encoded: Seq<char>) -> Seq<char> {
    encoded + "\n"@
}

/// The text that names the snapshot file in messages.
pub open spec fn quoted_snapshot_path() -> Seq<char> {
    debug_str(permissions_snapshot_path())
}

/// How the dump of the permissions snapshot goes on from `stage` after
/// `event`.
pub open spec fn dump_step(vm: Seq<char>, stage: DumpStage, event: Event, r: (Session, Action)) -> bool {
    match (stage, event) {
        (DumpStage::ReadingSecret, Event::Secret(raw)) => {
            let token = trim_chars(raw@);
            if service_token_prefix().is_prefix_of(token) {
                &&& r.0.vm@ == vm
                &&& r.0.flow matches Flow::DumpPermissions(DumpStage::CheckingGuestToken { digest })
                    && digest@ == token_digest_text(token)
                &&& r.1 matches Action::Capture { vm: v, script: GuestScript::DatadogGuestTokenDigest }
                    && v@ == vm
            } else {
                fails(r, vm, |f: Failure| f is SecretNotServiceAccessToken)
            }
        },
        (DumpStage::CheckingGuestToken { digest }, Event::Output(out)) => {
            if trim_end_chars(out@) == digest@ {
                runs_script(r, vm, Flow::DumpPermissions(DumpStage::FetchingUser), GuestScript::DatadogCurrentUser)
            } else {
                fails(r, vm, |f: Failure| f is StaleGuestToken)
            }
        },
        (DumpStage::FetchingUser, Event::Output(text)) => decodes_user(
            r,
            vm,
            Flow::DumpPermissions(DumpStage::DecodingUser),
            text@,
        ),
        (DumpStage::DecodingUser, Event::Json(user)) => encodes_snapshot(
            r,
            vm,
            Flow::DumpPermissions(DumpStage::Encoding),
            user,
        ),
        (DumpStage::Encoding, Event::Text(encoded)) => {
            &&& r.0.vm@ == vm
            &&& r.0.flow == Flow::DumpPermissions(DumpStage::Writing)
            &&& r.1 matches Action::WriteFile { path, contents, on_error } && path@
                == permissions_snapshot_path() && contents@ == snapshot_text(encoded@) && on_error@
                == "failed to write permissions snapshot "@ + quoted_snapshot_path()
        },
        (DumpStage::Writing, Event::Done) => prints(
            r,
            vm,
            Flow::DumpPermissions(DumpStage::Reporting),
            "Wrote the current Datadog permissions to "@ + quoted_snapshot_path() + "\n"@,
        ),
        (DumpStage::Reporting, Event::Done) => succeeds(r, vm),
        _ => rejects(r, vm),
    }
}

/// How the check of the permissions snapshot goes on from `stage` after
/// `event`.
pub open spec fn assert_step(vm: Seq<char>, stage: AssertStage, event: Event, r: (Session, Action)) -> bool {
    match (stage, event) {
        (AssertStage::ReadingSecret, Event::Secret(raw)) => {
            let token = trim_chars(raw@);
            if service_token_prefix().is_prefix_of(token) {
                &&& r.0.vm@ == vm
                &&& r.0.flow matches Flow::AssertPermissions(AssertStage::CheckingGuestToken { digest })
                    && digest@ == token_digest_text(token)
                &&& r.1 matches Action::Capture { vm: v, script: GuestScript::DatadogGuestTokenDigest }
                    && v@ == vm
            } else {
                fails(r, vm, |f: Failure| f is SecretNotServiceAccessToken)
            }
        },
        (AssertStage::CheckingGuestToken { digest }, Event::Output(out)) => {
            if trim_end_chars(out@) == digest@ {
                &&& r.0.vm@ == vm
                &&& r.0.flow == Flow::AssertPermissions(AssertStage::ReadingSnapshot)
                &&& r.1 matches Action::ReadFile { path, on_error } && path@
                    == permissions_snapshot_path() && on_error@
                    == "Datadog permissions snapshot not found: "@ + quoted_snapshot_path()
                    + "\nCreate it with: just dump-datadog-permissions"@
            } else {
                fails(r, vm, |f: Failure| f is StaleGuestToken)
            }
        },
        (AssertStage::ReadingSnapshot, Event::Text(expected)) => runs_script(
            r,
            vm,
            Flow::AssertPermissions(AssertStage::FetchingUser { expected }),
            GuestScript::DatadogCurrentUser,
        ),
        (AssertStage::FetchingUser { expected }, Event::Output(text)) => decodes_user(
            r,
            vm,
            Flow::AssertPermissions(AssertStage::DecodingUser { expected }),
            text@,
        ),
        (AssertStage::DecodingUser { expected }, Event::Json(user)) => encodes_snapshot(
            r,
            vm,
            Flow::AssertPermissions(AssertStage::Encoding { expected }),
            user,
        ),
        (AssertStage::Encoding { expected }, Event::Text(encoded)) => {
            let live = snapshot_text(encoded@);
            if expected@ == live {
                prints(
                    r,
                    vm,
                    Flow::AssertPermissions(AssertStage::Reporting),
                    "Datadog credentials are current and their permissions match "@
                        + quoted_snapshot_path() + "\n"@,
                )
            } else {
                prints(
                    r,
                    vm,
                    Flow::AssertPermissions(AssertStage::ReportingDiff),
                    unified_diff(expected@, live, quoted_snapshot_path(), "live Datadog permissions"@),
                )
            }
        },
        (AssertStage::ReportingDiff, Event::Done) => fails(r, vm, |f: Failure| f is PermissionsChanged),
        (AssertStage::Reporting, Event::Done) => succeeds(r, vm),
        _ => rejects(r, vm),
    }
}

/// Checks the Datadog secret for the permission commands: the digest of the
/// token, if it is a service access token.
fn guest_token_digest(raw: &str) -> (r: Option<String>)
    ensures
        match r {
            Some(d) => service_token_prefix().is_prefix_of(trim_chars(raw@)) && d@
                == token_digest_text(trim_chars(raw@)),
            None => !service_token_prefix().is_prefix_of(trim_chars(raw@)),
        },
{
    let token = trim(raw);
    if !starts_with(token.as_str(), "ddsat_") {
        return None;
    }
    Some(token_digest(token.as_str()))
}

/// Whether the guest's digest output names the expected digest.
fn guest_uses_token(output: &str, digest: &str) -> (r: bool)
    ensures
        r == (trim_end_chars(output@) == digest@),
{
    let trimmed = trim_end(output);
    same_text(trimmed.as_str(), digest)
}

fn decode_user(vm: String, flow: Flow, text: String) -> (r: (Session, Action))
    ensures
        decodes_user(r, vm@, flow, text@),
{
    (
        Session { vm, flow },
        Action::DecodeJson {
            text,
            on_error: String::from_str("current_user did not return valid JSON"),
        },
    )
}

fn encode_snapshot(vm: String, flow: Flow, user: Json) -> (r: (Session, Action))
    ensures
        encodes_snapshot(r, vm@, flow, user),
{
    match normalize(&user) {
        Ok(snapshot) => (
            Session { vm, flow },
            Action::EncodeJson {
                document: snapshot.to_json(),
                on_error: String::from_str("failed to serialize the Datadog permissions snapshot"),
            },
        ),
        Err(e) => finish(vm, Err(Failure::Permissions(e))),
    }
}

fn capture_script(vm: String, flow: Flow, script: GuestScript) -> (r: (Session, Action))
    ensures
        runs_script(r, vm@, flow, script),
{
    let target = vm.clone();
    (Session { vm, flow }, Action::Capture { vm: target, script })
}

/// `"docs/datadog-permissions.json"` as `Debug` writes it.
fn quoted_path() -> (r: String)
    ensures
        r@ == quoted_snapshot_path(),
{
    debug_quoted("docs/datadog-permissions.json")
}

/// Decides the next step of the dump of the permissions snapshot.
pub fn step_dump(vm: String, stage: DumpStage, event: Event) -> (r: (Session, Action))
    ensures
        dump_step(vm@, stage, event, r),
{
    match (stage, event) {
        (DumpStage::ReadingSecret, Event::Secret(raw)) => match guest_token_digest(raw.as_str()) {
            Some(digest) => capture_script(
                vm,
                Flow::DumpPermissions(DumpStage::CheckingGuestToken { digest }),
                GuestScript::DatadogGuestTokenDigest,
            ),
            None => finish(vm, Err(Failure::SecretNotServiceAccessToken)),
        },
        (DumpStage::CheckingGuestToken { digest }, Event::Output(out)) => {
            if guest_uses_token(out.as_str(), digest.as_str()) {
                capture_script(vm, Flow::DumpPermissions(DumpStage::FetchingUser), GuestScript::DatadogCurrentUser)
            } else {
                finish(vm, Err(Failure::StaleGuestToken))
            }
        },
        (DumpStage::FetchingUser, Event::Output(text)) => decode_user(
            vm,
            Flow::DumpPermissions(DumpStage::DecodingUser),
            text,
        ),
        (DumpStage::DecodingUser, Event::Json(user)) => encode_snapshot(
            vm,
            Flow::DumpPermissions(DumpStage::Encoding),
            user,
        ),
        (DumpStage::Encoding, Event::Text(encoded)) => {
            let mut contents = encoded;
            contents.append("\n");
            let mut on_error = String::from_str("failed to write permissions snapshot ");
            on_error.append(quoted_path().as_str());
            (
                Session { vm, flow: Flow::DumpPermissions(DumpStage::Writing) },
                Action::WriteFile {
                    path: String::from_str("docs/datadog-permissions.json"),
                    contents,
                    on_error,
                },
            )
        },
        (DumpStage::Writing, Event::Done) => {
            let mut text = String::from_str("Wrote the current Datadog permissions to ");
            text.append(quoted_path().as_str());
            text.append("\n");
            print(vm, Flow::DumpPermissions(DumpStage::Reporting), text)
        },
        (DumpStage::Reporting, Event::Done) => finish(vm, Ok(())),
        _ => finish(vm, Err(Failure::UnexpectedEvent)),
    }
}

/// Decides the next step of the check of the permissions snapshot.
pub fn step_assert(vm: String, stage: AssertStage, event: Event) -> (r: (Session, Action))
    ensures
        assert_step(vm@, stage, event, r),
{
    match (stage, event) {
        (AssertStage::ReadingSecret, Event::Secret(raw)) => match guest_token_digest(raw.as_str()) {
            Some(digest) => capture_script(
                vm,
                Flow::AssertPermissions(AssertStage::CheckingGuestToken { digest }),
                GuestScript::DatadogGuestTokenDigest,
            ),
            None => finish(vm, Err(Failure::SecretNotServiceAccessToken)),
        },
        (AssertStage::CheckingGuestToken { digest }, Event::Output(out)) => {
            if guest_uses_token(out.as_str(), digest.as_str()) {
                let mut on_error = String::from_str("Datadog permissions snapshot not found: ");
                on_error.append(quoted_path().as_str());
                on_error.append("\nCreate it with: just dump-datadog-permissions");
                (
                    Session { vm, flow: Flow::AssertPermissions(AssertStage::ReadingSnapshot) },
                    Action::ReadFile {
                        path: String::from_str("docs/datadog-permissions.json"),
                        on_error,
                    },
                )
            } else {
                finish(vm, Err(Failure::StaleGuestToken))
            }
        },
        (AssertStage::ReadingSnapshot, Event::Text(expected)) => capture_script(
            vm,
            Flow::AssertPermissions(AssertStage::FetchingUser { expected }),
            GuestScript::DatadogCurrentUser,
        ),
        (AssertStage::FetchingUser { expected }, Event::Output(text)) => decode_user(
            vm,
            Flow::AssertPermissions(AssertStage::DecodingUser { expected }),
            text,
        ),
        (AssertStage::DecodingUser { expected }, Event::Json(user)) => encode_snapshot(
            vm,
            Flow::AssertPermissions(AssertStage::Encoding { expected }),
            user,
        ),
        (AssertStage::Encoding { expected }, Event::Text(encoded)) => {
            let mut live = encoded;
            live.append("\n");
            if expected == live {
                let mut text = String::from_str(
                    "Datadog credentials are current and their permissions match ",
                );
                text.append(quoted_path().as_str());
                text.append("\n");
                print(vm, Flow::AssertPermissions(AssertStage::Reporting), text)
            } else {
                let header = quoted_path();
                let diff = unified_diff_text(
                    expected.as_str(),
                    live.as_str(),
                    header.as_str(),
                    "live Datadog permissions",
                );
                print(vm, Flow::AssertPermissions(AssertStage::ReportingDiff), diff)
            }
        },
        (AssertStage::ReportingDiff, Event::Done) => finish(vm, Err(Failure::PermissionsChanged)),
        (AssertStage::Reporting, Event::Done) => finish(vm, Ok(())),
        _ => finish(vm, Err(Failure::UnexpectedEvent)),
    }
}

/// How a command starts: it reads its secret from 1Password.
pub open spec fn started(command: Commands, r: (Session, Action)) -> bool {
    match command {
        Commands::LoginDatadog { vm } => {
            &&& r.0.vm@ == vm@
            &&& r.0.flow == Flow::DatadogLogin(DatadogLoginStage::ReadingSecret)
            &&& r.1 matches Action::ReadSecret { reference } && reference@ == datadog_secret_reference()
        },
        Commands::LoginFastly { vm } => {
            &&& r.0.vm@ == vm@
            &&& r.0.flow == Flow::FastlyLogin(FastlyLoginStage::ReadingSecret)
            &&& r.1 matches Action::ReadSecret { reference } && reference@ == fastly_secret_reference()
        },
        Commands::DatadogPermissions { action: DatadogPermissionsAction::Dump { vm } } => {
            &&& r.0.vm@ == vm@
            &&& r.0.flow == Flow::DumpPermissions(DumpStage::ReadingSecret)
            &&& r.1 matches Action::ReadSecret { reference } && reference@ == datadog_secret_reference()
        },
        Commands::DatadogPermissions { action: DatadogPermissionsAction::Assert { vm } } => {
            &&& r.0.vm@ == vm@
            &&& r.0.flow == Flow::AssertPermissions(AssertStage::ReadingSecret)
            &&& r.1 matches Action::ReadSecret { reference } && reference@ == datadog_secret_reference()
        },
    }
}

/// How a session goes on after `event`.
pub open spec fn next_step(session: Session, event: Event, r: (Session, Action)) -> bool {
    match session.flow {
        Flow::DatadogLogin(stage) => datadog_login_step(session.vm@, stage, event, r),
        Flow::FastlyLogin(stage) => fastly_login_step(session.vm@, stage, event, r),
        Flow::DumpPermissions(stage) => dump_step(session.vm@, stage, event, r),
        Flow::AssertPermissions(stage) => assert_step(session.vm@, stage, event, r),
        Flow::Finished => rejects(r, session.vm@),
    }
}

/// Starts a command: the session and its first action.
pub fn run(command: Commands) -> (r: (Session, Action))
    ensures
        started(command, r),
{
    match command {
        Commands::LoginDatadog { vm } => (
            Session { vm, flow: Flow::DatadogLogin(DatadogLoginStage::ReadingSecret) },
            Action::ReadSecret {
                reference: String::from_str("op://Infrastructure/datadog-read-only/credential"),
            },
        ),
        Commands::LoginFastly { vm } => (
            Session { vm, flow: Flow::FastlyLogin(FastlyLoginStage::ReadingSecret) },
            Action::ReadSecret {
                reference: String::from_str("op://Infrastructure/fastly-read-only/credential"),
            },
        ),
        Commands::DatadogPermissions { action: DatadogPermissionsAction::Dump { vm } } => (
            Session { vm, flow: Flow::DumpPermissions(DumpStage::ReadingSecret) },
            Action::ReadSecret {
                reference: String::from_str("op://Infrastructure/datadog-read-only/credential"),
            },
        ),
        Commands::DatadogPermissions { action: DatadogPermissionsAction::Assert { vm } } => (
            Session { vm, flow: Flow::AssertPermissions(AssertStage::ReadingSecret) },
            Action::ReadSecret {
                reference: String::from_str("op://Infrastructure/datadog-read-only/credential"),
            },
        ),
    }
}

/// Takes the outcome of the last action and decides the next one.
pub fn step(session: Session, event: Event) -> (r: (Session, Action))
    ensures
        next_step(session, event, r),
{
    let Session { vm, flow } = session;
    match flow {
        Flow::DatadogLogin(stage) => step_datadog_login(vm, stage, event),
        Flow::FastlyLogin(stage) => step_fastly_login(vm, stage, event),
        Flow::DumpPermissions(stage) => step_dump(vm, stage, event),
        Flow::AssertPermissions(stage) => step_assert(vm, stage, event),
        Flow::Finished => finish(vm, Err(Failure::UnexpectedEvent)),
    }
}

impl Failure {
    /// The text that describes the failure.
    pub open spec fn describe(self) -> Seq<char> {
        match self {
            Failure::Credentials(e) => e.describe(),
            Failure::NotServiceAccessToken => "Expected a Datadog service access token (prefix: ddsat_)."@,
            Failure::SecretNotServiceAccessToken =>
                "Expected the 1Password item to contain a Datadog service access token (prefix: ddsat_)."@,
            Failure::StaleGuestToken =>
                "The guest is not using the current Datadog token from 1Password. Run: just login-datadog"@,
            Failure::Permissions(e) => e.describe(),
            Failure::PermissionsChanged =>
                "The Datadog permissions do not match the documented snapshot.\nIf the change is intentional, review it with: just dump-datadog-permissions"@,
            Failure::ApiToken(e) => e.describe(),
            Failure::InvalidHeaderValue { .. } => "Fastly API token is not a valid header value"@,
            Failure::Api(e) => e.describe(),
            Failure::Token(e) => e.describe(),
            Failure::UnexpectedEvent => "the command received an event that does not answer its last action"@,
        }
    }

    /// The text that describes the failure.
    pub fn message(&self) -> (r: String)
        ensures
            r@ == self.describe(),
    {
        match self {
            Failure::Credentials(e) => e.message(),
            Failure::NotServiceAccessToken => String::from_str(
                "Expected a Datadog service access token (prefix: ddsat_).",
            ),
            Failure::SecretNotServiceAccessToken => String::from_str(
                "Expected the 1Password item to contain a Datadog service access token (prefix: ddsat_).",
            ),
            Failure::StaleGuestToken => String::from_str(
                "The guest is not using the current Datadog token from 1Password. Run: just login-datadog",
            ),
            Failure::Permissions(e) => e.message(),
            Failure::PermissionsChanged => String::from_str(
                "The Datadog permissions do not match the documented snapshot.\nIf the change is intentional, review it with: just dump-datadog-permissions",
            ),
            Failure::ApiToken(e) => e.message(),
            Failure::InvalidHeaderValue { .. } => String::from_str(
                "Fastly API token is not a valid header value",
            ),
            Failure::Api(e) => e.message(),
            Failure::Token(e) => e.message(),
            Failure::UnexpectedEvent => String::from_str(
                "the command received an event that does not answer its last action",
            ),
        }
    }

    /// The text of the error that caused this one, if any.
    pub fn cause(&self) -> (r: Option<String>)
        ensures
            match self {
                Failure::Permissions(PermissionsError::InvalidNameAliases(e)) => r matches Some(m)
                    && m@ == e.describe("/attributes/name_aliases"@),
                Failure::Token(TokenError::InvalidExpiration { reason }) => r matches Some(m) && m@
                    == reason@,
                Failure::InvalidHeaderValue { reason } => r matches Some(m) && m@ == reason@,
                _ => r is None,
            },
    {
        match self {
            Failure::Permissions(e) => e.cause(),
            Failure::Token(e) => e.cause(),
            Failure::InvalidHeaderValue { reason } => Some(reason.clone()),
            _ => None,
        }
    }
}

/// A Fastly token that may be sent to the Fastly API: not empty, without a
/// line break, and valid in an HTTP header.
pub open spec fn sendable_token(token: Seq<char>) -> bool {
    token.len() > 0 && !token.contains('\r') && !token.contains('\n') && is_header_value(token)
}

/// What holds of every session: a Fastly token that is about to be checked
/// with the Fastly API, or that is being checked, may be sent to it.
pub open spec fn session_invariant(session: Session) -> bool {
    match session.flow {
        Flow::FastlyLogin(FastlyLoginStage::FetchingMetadata { token }) => sendable_token(token@),
        Flow::FastlyLogin(FastlyLoginStage::DecodingMetadata { token }) => sendable_token(token@),
        _ => true,
    }
}

/// Every command starts in a session that keeps the invariant.
pub proof fn lemma_run_establishes_invariant(command: Commands, r: (Session, Action))
    requires
        started(command, r),
    ensures
        session_invariant(r.0),
{
}

/// Every step keeps the invariant.
pub proof fn lemma_step_keeps_invariant(session: Session, event: Event, r: (Session, Action))
    requires
        session_invariant(session),
        next_step(session, event, r),
    ensures
        session_invariant(r.0),
{
}

/// The Datadog login installs only service access tokens: whenever it
/// installs credentials, they are the Datadog environment for a token that
/// starts with `ddsat_`.
pub proof fn lemma_datadog_login_installs_service_tokens(
    vm: Seq<char>,
    stage: DatadogLoginStage,
    event: Event,
    r: (Session, Action),
)
    requires
        datadog_login_step(vm, stage, event, r),
        r.1 is InstallGuest,
    ensures
        exists|token: Seq<char>|
            "ddsat_"@.is_prefix_of(token) && (r.1 matches Action::InstallGuest {
                credentials,
            } && credentials.credentials@ == datadog_env(token) && credentials.credentials_name@
                == "datadog.env"@),
{
    if let (DatadogLoginStage::ReadingSecret, Event::Secret(raw)) = (stage, event) {
        let token = trim_chars(raw@);
        assert(service_token_prefix().is_prefix_of(token));
    }
}

/// The Fastly login installs a token only once Fastly has shown that it has
/// exactly the read-only scope and expires later than the current time, and
/// it installs that very token.
pub proof fn lemma_fastly_login_installs_checked_tokens(
    vm: Seq<char>,
    stage: FastlyLoginStage,
    event: Event,
    r: (Session, Action),
)
    requires
        fastly_login_step(vm, stage, event, r),
        r.1 is InstallGuest,
    ensures
        stage matches FastlyLoginStage::DecodingMetadata { token } && event matches Event::TokenMetadata {
            metadata,
            now,
        } && token_verdict(metadata.scope@, expiration_text(metadata), now) is Ok && (r.1 matches Action::InstallGuest {
            credentials,
        } && credentials.credentials@ == fastly_env(token@)),
{
}

/// The check of the permissions snapshot succeeds only right after it
/// found the live snapshot equal to the file: success comes only from the
/// `Reporting` stage, and that stage is entered only when the file's text
/// is the live snapshot's text.
pub proof fn lemma_assert_succeeds_only_on_match(
    vm: Seq<char>,
    stage: AssertStage,
    event: Event,
    r: (Session, Action),
)
    requires
        assert_step(vm, stage, event, r),
    ensures
        r.1 matches Action::Finish { outcome: Ok(()) } ==> stage is Reporting,
        r.0.flow == Flow::AssertPermissions(AssertStage::Reporting) ==> (stage matches AssertStage::Encoding {
            expected,
        } && event matches Event::Text(encoded) && expected@ == snapshot_text(encoded@)),
{
}

/// The permission commands read Datadog's `current_user` only with the
/// guest's token shown to be the current one: the script runs only after
/// the digest check (directly for the dump; after reading the file for the
/// check), and the digest check lets the command go on only when the guest's
/// digest is the digest of the token in 1Password.
pub proof fn lemma_permissions_need_current_token(
    vm: Seq<char>,
    dump_stage: DumpStage,
    assert_stage: AssertStage,
    event: Event,
    r: (Session, Action),
    s: (Session, Action),
)
    requires
        dump_step(vm, dump_stage, event, r),
        assert_step(vm, assert_stage, event, s),
    ensures
        r.1 matches Action::Capture { script: GuestScript::DatadogCurrentUser, .. } ==> (dump_stage matches DumpStage::CheckingGuestToken {
            digest,
        } && event matches Event::Output(out) && trim_end_chars(out@) == digest@),
        s.1 matches Action::Capture { script: GuestScript::DatadogCurrentUser, .. } ==> assert_stage is ReadingSnapshot,
        s.0.flow == Flow::AssertPermissions(AssertStage::ReadingSnapshot) ==> (assert_stage matches AssertStage::CheckingGuestToken {
            digest,
        } && event matches Event::Output(out) && trim_end_chars(out@) == digest@),
{
}

/// A run of `command` on the answers `events`: `run[0]` is how the command
/// starts, and `run[k + 1]` is how the session of `run[k]` goes on after
/// `events[k]`, the answer to the action of `run[k]`.
pub open spec fn is_run(command: Commands, events: Seq<Event>, run: Seq<(Session, Action)>) -> bool {
    &&& run.len() == events.len() + 1
    &&& started(command, run[0])
    &&& forall|k: int| 0 <= k < events.len() ==> next_step(run[k].0, #[trigger] events[k], run[k + 1])
}

/// In two runs, decoding gives the same document for the same text.
pub open spec fn decodes_alike(
    events: Seq<Event>,
    run: Seq<(Session, Action)>,
    other_events: Seq<Event>,
    other_run: Seq<(Session, Action)>,
) -> bool {
    forall|i: int, j: int|
        0 <= i < events.len() && 0 <= j < other_events.len() ==> ((#[trigger] run[i]).1 matches Action::DecodeJson {
            text: a,
            ..
        } ==> ((#[trigger] other_run[j]).1 matches Action::DecodeJson { text: b, .. } ==> (a@
            == b@ ==> (events[i] matches Event::Json(x) && other_events[j] matches Event::Json(y)
            && x@ == y@))))
}

/// In two runs, encoding gives the same text for the same document.
pub open spec fn encodes_alike(
    events: Seq<Event>,
    run: Seq<(Session, Action)>,
    other_events: Seq<Event>,
    other_run: Seq<(Session, Action)>,
) -> bool {
    forall|i: int, j: int|
        0 <= i < events.len() && 0 <= j < other_events.len() ==> ((#[trigger] run[i]).1 matches Action::EncodeJson {
            document: a,
            ..
        } ==> ((#[trigger] other_run[j]).1 matches Action::EncodeJson { document: b, .. } ==> (a@
            == b@ ==> (events[i] matches Event::Text(x) && other_events[j] matches Event::Text(y)
            && x@ == y@))))
}

/// A step ends the command exactly when it gives the final action.
proof fn lemma_step_finishes_with_session(session: Session, event: Event, r: (Session, Action))
    requires
        next_step(session, event, r),
    ensures
        (r.1 is Finish) == (r.0.flow is Finished),
{
}

/// Once a run is over, every later step refuses its answer.
proof fn lemma_finished_run_fails(events: Seq<Event>, run: Seq<(Session, Action)>, k: int)
    requires
        run.len() == events.len() + 1,
        forall|i: int| 0 <= i < events.len() ==> next_step(run[i].0, #[trigger] events[i], run[i + 1]),
        0 <= k < run.len() - 1,
        run[k].0.flow is Finished,
    ensures
        run.last().1 matches Action::Finish { outcome: Err(_) },
    decreases run.len() - k,
{
    assert(next_step(run[k].0, events[k], run[k + 1]));
    if k + 1 < run.len() - 1 {
        lemma_finished_run_fails(events, run, k + 1);
    }
}

/// In a run that ends in success, a session that is not over is followed by
/// a step, and a step that ends the command is the last one.
proof fn lemma_run_goes_on(command: Commands, events: Seq<Event>, run: Seq<(Session, Action)>, k: int)
    requires
        is_run(command, events, run),
        run.last().1 matches Action::Finish { outcome: Ok(()) },
        0 <= k < run.len(),
        !(run[k].0.flow is Finished),
    ensures
        k + 1 < run.len(),
        next_step(run[k].0, events[k], run[k + 1]),
        run[k + 1].0.flow is Finished ==> run.len() == k + 2,
{
    if k == run.len() - 1 {
        if k > 0 {
            assert(next_step(run[k - 1].0, events[k - 1], run[k]));
            lemma_step_finishes_with_session(run[k - 1].0, events[k - 1], run[k]);
        }
    } else {
        assert(next_step(run[k].0, events[k], run[k + 1]));
        if run[k + 1].0.flow is Finished && k + 2 < run.len() {
            lemma_finished_run_fails(events, run, k + 1);
        }
    }
}

/// A check of the permissions snapshot that follows a successful dump
/// succeeds when nothing changed in between: 1Password holds the same
/// secret, the guest prints the same token digest, the snapshot file holds
/// what the dump wrote, and `current_user` returns the same text; decoding
/// and encoding JSON give the same result for the same input.
pub proof fn lemma_dump_then_assert_succeeds(
    vm: String,
    dump_events: Seq<Event>,
    dump_run: Seq<(Session, Action)>,
    assert_events: Seq<Event>,
    assert_run: Seq<(Session, Action)>,
)
    requires
        is_run(
            Commands::DatadogPermissions { action: DatadogPermissionsAction::Dump { vm } },
            dump_events,
            dump_run,
        ),
        dump_run.last().1 matches Action::Finish { outcome: Ok(()) },
        is_run(
            Commands::DatadogPermissions { action: DatadogPermissionsAction::Assert { vm } },
            assert_events,
            assert_run,
        ),
        assert_events.len() == 7,
        assert_events[0] matches Event::Secret(a) && dump_events[0] matches Event::Secret(b) && a@
            == b@,
        assert_events[1] matches Event::Output(a) && dump_events[1] matches Event::Output(b) && a@
            == b@,
        assert_events[2] matches Event::Text(file) && forall|k: int|
            0 <= k < dump_run.len() ==> ((#[trigger] dump_run[k]).1 matches Action::WriteFile {
                contents,
                ..
            } ==> file@ == contents@),
        assert_events[3] matches Event::Output(a) && dump_events[2] matches Event::Output(b) && a@
            == b@,
        assert_events[6] is Done,
        decodes_alike(assert_events, assert_run, dump_events, dump_run),
        encodes_alike(assert_events, assert_run, dump_events, dump_run),
    ensures
        assert_run.last().1 matches Action::Finish { outcome: Ok(()) },
{
    let dump = Commands::DatadogPermissions { action: DatadogPermissionsAction::Dump { vm } };
    lemma_run_goes_on(dump, dump_events, dump_run, 0);
    lemma_run_goes_on(dump, dump_events, dump_run, 1);
    lemma_run_goes_on(dump, dump_events, dump_run, 2);
    lemma_run_goes_on(dump, dump_events, dump_run, 3);
    lemma_run_goes_on(dump, dump_events, dump_run, 4);
    lemma_run_goes_on(dump, dump_events, dump_run, 5);
    lemma_run_goes_on(dump, dump_events, dump_run, 6);
    assert(next_step(assert_run[0].0, assert_events[0], assert_run[1]));
    assert(next_step(assert_run[1].0, assert_events[1], assert_run[2]));
    assert(next_step(assert_run[2].0, assert_events[2], assert_run[3]));
    assert(dump_run[5].1 is WriteFile);
    assert(next_step(assert_run[3].0, assert_events[3], assert_run[4]));
    assert(next_step(assert_run[4].0, assert_events[4], assert_run[5]));
    assert(assert_run[4].1 is DecodeJson && dump_run[3].1 is DecodeJson);
    assert(next_step(assert_run[5].0, assert_events[5], assert_run[6]));
    assert(assert_run[5].1 is EncodeJson && dump_run[4].1 is EncodeJson);
    assert(next_step(assert_run[6].0, assert_events[6], assert_run[7]));
}

} // verus!
