use buddy::datadog::{to_hex, token_digest};
use buddy::order::text_less;
use buddy::credentials::CredentialsError;
use buddy::text::{decimal, same_text, starts_with, trim, trim_end};

const SAMPLES: [&str; 10] = [
    "",
    "  a b  ",
    "\t\n\u{b}\u{c}\r x \u{85}\u{a0}",
    "\u{1680}\u{2000}\u{200a}y\u{2028}\u{2029}\u{202f}\u{205f}\u{3000}",
    "\u{200b}z\u{200b}",
    "\u{180e}w",
    "   ",
    "plain",
    "a\nb\n",
    "é ",
];

#[test]
fn trims_as_std_does() {
    for s in SAMPLES {
        assert_eq!(trim(s), s.trim(), "{s:?}");
        assert_eq!(trim_end(s), s.trim_end(), "{s:?}");
    }
}

#[test]
fn orders_text_as_std_does() {
    for a in SAMPLES {
        for b in SAMPLES {
            assert_eq!(text_less(a, b), a < b, "{a:?} {b:?}");
            assert_eq!(same_text(a, b), a == b);
        }
    }
}

#[test]
fn checks_prefixes() {
    assert!(starts_with("ddsat_abc", "ddsat_"));
    assert!(starts_with("ddsat_", "ddsat_"));
    assert!(!starts_with("ddsat", "ddsat_"));
    assert!(!starts_with("xddsat_", "ddsat_"));
    assert!(starts_with("x", ""));
}

#[test]
fn writes_decimal_numbers() {
    for n in [0u16, 7, 10, 200, 299, 404, 65535] {
        assert_eq!(decimal(n), n.to_string());
    }
}

#[test]
fn writes_lower_case_hex() {
    assert_eq!(to_hex(&[]), "");
    assert_eq!(to_hex(&[0x00, 0x0f, 0xa0, 0xff]), "000fa0ff");
}

#[test]
fn digests_tokens_with_sha256() {
    assert_eq!(
        token_digest("abc"),
        "ba7816bf8f01cfea414140de5dae2223b00361a396177a9cb410ff61f20015ad"
    );
    assert_eq!(
        token_digest(""),
        "e3b0c44298fc1c149afbf4c8996fb92427ae41e4649b934ca495991b7852b855"
    );
    assert_eq!(token_digest("ddsat_é").len(), 64);
}

#[test]
fn quotes_names_in_messages_as_debug_does() {
    for name in ["docs/x.json", "a\"b\n", "tab\there", "é"] {
        let error = CredentialsError::InvalidEnvName { name: name.to_owned() };
        assert_eq!(
            error.message(),
            format!("Invalid environment variable name: {name:?}")
        );
    }
}
