use buddy::credentials::{
    install_guest_env, is_file_name, is_valid_env_name, serialize_env, shell_quote,
    CredentialsError,
};
use std::path::Path;

#[test]
fn quotes_shell_values() {
    assert_eq!(shell_quote(""), "''");
    assert_eq!(shell_quote("plain"), "'plain'");
    assert_eq!(shell_quote("a b'$HOME"), "'a b'\\''$HOME'");
}

#[test]
fn validates_environment_variable_names() {
    for name in ["A", "_", "DD_ACCESS_TOKEN", "value2"] {
        assert!(is_valid_env_name(name), "{name:?} should be valid");
    }
    for name in ["", "2_VALUE", "A-B", "A=B", "A B", "A\nB"] {
        assert!(!is_valid_env_name(name), "{name:?} should be invalid");
    }
}

#[test]
fn serializes_environment_variables() {
    assert_eq!(
        serialize_env(&[("TOKEN", "a b'$HOME"), ("ENABLED", "1")]).unwrap(),
        "export TOKEN='a b'\\''$HOME'\nexport ENABLED='1'\n"
    );
    assert_eq!(
        serialize_env(&[("TOKEN; echo injected", "secret")])
            .unwrap_err()
            .message(),
        "Invalid environment variable name: \"TOKEN; echo injected\""
    );
}

#[test]
fn quotes_every_single_quote() {
    assert_eq!(shell_quote("'"), "''\\'''");
    assert_eq!(shell_quote("''"), "''\\'''\\'''");
    assert_eq!(shell_quote("a\nb"), "'a\nb'");
    assert_eq!(shell_quote("é'ü"), "'é'\\''ü'");
}

#[test]
fn rejects_names_with_non_ascii_letters() {
    assert!(!is_valid_env_name("É"));
    assert!(!is_valid_env_name("AÉ"));
    assert!(is_valid_env_name("a_9"));
}

#[test]
fn reports_the_first_invalid_name() {
    match serialize_env(&[("OK", "1"), ("1BAD", "2"), ("ALSO BAD", "3")]) {
        Err(CredentialsError::InvalidEnvName { name }) => assert_eq!(name, "1BAD"),
        other => panic!("unexpected result: {other:?}"),
    }
    assert_eq!(serialize_env(&[]).unwrap(), "");
}

/// A small reader of the `export NAME='VALUE'` lines, as a POSIX shell
/// would read the quoting that `shell_quote` produces.
fn read_back(payload: &str) -> Vec<(String, String)> {
    let mut out = Vec::new();
    let mut rest = payload;
    while !rest.is_empty() {
        rest = rest.strip_prefix("export ").expect("line starts with export");
        let eq = rest.find('=').unwrap();
        let name = rest[..eq].to_owned();
        let chars: Vec<char> = rest[eq + 1..].chars().collect();
        let mut value = String::new();
        let mut i = 0;
        let mut quoted = false;
        loop {
            let c = chars[i];
            if quoted {
                if c == '\'' {
                    quoted = false;
                } else {
                    value.push(c);
                }
                i += 1;
            } else if c == '\'' {
                quoted = true;
                i += 1;
            } else if c == '\\' {
                value.push(chars[i + 1]);
                i += 2;
            } else {
                assert_eq!(c, '\n');
                i += 1;
                break;
            }
        }
        out.push((name, value));
        let consumed: usize = chars[..i].iter().map(|c| c.len_utf8()).sum();
        rest = &rest[eq + 1 + consumed..];
    }
    out
}

#[test]
fn credentials_file_reads_back_as_written() {
    let environment = [
        ("TOKEN", "a b'$HOME"),
        ("EMPTY", ""),
        ("QUOTES", "''\\'"),
        ("LINES", "one\ntwo; echo injected"),
    ];
    let payload = serialize_env(&environment).unwrap();
    let read = read_back(&payload);
    let expected: Vec<(String, String)> = environment
        .iter()
        .map(|(n, v)| (n.to_string(), v.to_string()))
        .collect();
    assert_eq!(read, expected);
}

#[test]
fn file_names_match_std_path() {
    for name in [
        "datadog.env",
        "fastly.env",
        "",
        ".",
        "..",
        "a/b",
        "a/",
        "/a",
        "./a",
        "a/.",
        "...",
        ".env",
        "é",
    ] {
        let std_says = Path::new(name).file_name().and_then(|n| n.to_str()) == Some(name);
        assert_eq!(is_file_name(name), std_says, "{name:?}");
    }
}

#[test]
fn prepares_guest_credentials() {
    let guest = install_guest_env("buddy", "datadog.env", &[("A", "b")]).unwrap();
    assert_eq!(guest.vm, "buddy");
    assert_eq!(guest.credentials_name, "datadog.env");
    assert_eq!(guest.credentials, "export A='b'\n");

    let error = install_guest_env("buddy", "../datadog.env", &[("A", "b")]).unwrap_err();
    assert!(matches!(error, CredentialsError::NotAFileName));
    assert_eq!(error.message(), "Expected a credentials filename, not a path.");

    // The environment is checked before the file name.
    let error = install_guest_env("buddy", "../x", &[("A-B", "b")]).unwrap_err();
    assert!(matches!(error, CredentialsError::InvalidEnvName { .. }));
}
