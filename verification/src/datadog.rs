//! Datadog credentials: the service access token and the digest that tells
//! whether the guest uses the current token.

use sha2::Digest;
use vstd::prelude::*;

verus! {

/// SHA-256 of `data`, as the `sha2` crate computes it.
pub uninterp spec fn sha256(data: Seq<u8>) -> Seq<u8>;

/// Hashes `data` with `sha2::Sha256::digest`. The contract names the result
/// and states its length, the output size of SHA-256.
#[verifier::external_body]
fn sha256_digest(data: &[u8]) -> (r: Vec<u8>)
    ensures
        r@ == sha256(data@),
        r@.len() == 32,
{
    sha2::Sha256::digest(data).to_vec()
}

/// The lower-case hexadecimal digit for `d < 16`.
pub open spec fn hex_digit(d: nat) -> char {
    if d < 10 {
        (48 + d) as char
    } else {
        (87 + d) as char
    }
}

/// `bytes` in lower-case hexadecimal, two digits per byte
/// (`format!("{byte:02x}")` for each byte).
pub open spec fn hex_lower(bytes: Seq<u8>) -> Seq<char>
    decreases bytes.len(),
{
    if bytes.len() == 0 {
        Seq::empty()
    } else {
        hex_lower(bytes.drop_last()) + seq![
            hex_digit(bytes.last() as nat / 16),
            hex_digit(bytes.last() as nat % 16),
        ]
    }
}

fn hex_char(d: u8) -> (c: char)
    requires
        d < 16,
    ensures
        c == hex_digit(d as nat),
{
    if d < 10 {
        (48u8 + d) as char
    } else {
        (87u8 + d) as char
    }
}

/// Writes `bytes` in lower-case hexadecimal.
pub fn to_hex(bytes: &[u8]) -> (r: String)
    ensures
        r@ == hex_lower(bytes@),
{
    let mut r = String::new();
    let mut i: usize = 0;
    assert(bytes@.take(0) =~= Seq::<u8>::empty());
    while i < bytes.len()
        invariant
            i <= bytes.len(),
            r@ == hex_lower(bytes@.take(i as int)),
        decreases bytes.len() - i,
    {
        let b = bytes[i];
        crate::text::push_char(&mut r, hex_char(b / 16));
        crate::text::push_char(&mut r, hex_char(b % 16));
        assert(bytes@.take(i + 1).drop_last() =~= bytes@.take(i as int));
        i = i + 1;
        assert(r@ =~= hex_lower(bytes@.take(i as int)));
    }
    assert(bytes@.take(bytes.len() as int) =~= bytes@);
    r
}

/// Every byte gives two digits.
pub proof fn lemma_hex_lower_len(bytes: Seq<u8>)
    ensures
        hex_lower(bytes).len() == 2 * bytes.len(),
    decreases bytes.len(),
{
    if bytes.len() > 0 {
        lemma_hex_lower_len(bytes.drop_last());
    }
}

/// The digest that identifies a token without revealing it: SHA-256 of its
/// UTF-8 bytes, in lower-case hexadecimal.
pub open spec fn token_digest_text(token: Seq<char>) -> Seq<char> {
    hex_lower(sha256(vstd::utf8::encode_utf8(token)))
}

/// The lower-case hexadecimal digits, by value.
pub open spec fn lower_hex_digits() -> Seq<char> {
    "0123456789abcdef"@
}

proof fn lemma_hex_digit_spelled(v: nat)
    requires
        v < 16,
    ensures
        hex_digit(v) == lower_hex_digits()[v as int],
        lower_hex_digits().len() == 16,
{
    reveal_strlit("0123456789abcdef");
    assert(lower_hex_digits() =~= seq![
        '0', '1', '2', '3', '4', '5', '6', '7', '8', '9', 'a', 'b', 'c', 'd', 'e', 'f',
    ]);
}

proof fn lemma_hex_lower_digits(bytes: Seq<u8>)
    ensures
        hex_lower(bytes).len() == 2 * bytes.len(),
        forall|i: int|
            0 <= i < bytes.len() ==> hex_lower(bytes)[2 * i] == lower_hex_digits()[(
            #[trigger] bytes[i]) as int / 16] && hex_lower(bytes)[2 * i + 1] == lower_hex_digits()[bytes[i] as int
                % 16],
    decreases bytes.len(),
{
    if bytes.len() > 0 {
        let rest = bytes.drop_last();
        lemma_hex_lower_digits(rest);
        let b = bytes.last();
        lemma_hex_digit_spelled(b as nat / 16);
        lemma_hex_digit_spelled(b as nat % 16);
        assert forall|i: int| 0 <= i < bytes.len() implies hex_lower(bytes)[2 * i]
            == lower_hex_digits()[(#[trigger] bytes[i]) as int / 16] && hex_lower(bytes)[2 * i + 1]
            == lower_hex_digits()[bytes[i] as int % 16] by {
            if i < rest.len() {
                assert(rest[i] == bytes[i]);
            }
        }
    }
}

/// The digest of a token is SHA-256 of all of the token's UTF-8 bytes,
/// written as two lower-case hexadecimal digits per byte, the high half
/// first.
pub proof fn lemma_token_digest_spells_sha256(token: Seq<char>)
    ensures
        token_digest_text(token).len() == 2 * sha256(vstd::utf8::encode_utf8(token)).len(),
        forall|i: int|
            0 <= i < sha256(vstd::utf8::encode_utf8(token)).len() ==> token_digest_text(token)[2
                * i] == lower_hex_digits()[(#[trigger] sha256(vstd::utf8::encode_utf8(token))[i])
                as int / 16] && token_digest_text(token)[2 * i + 1] == lower_hex_digits()[sha256(
                vstd::utf8::encode_utf8(token),
            )[i] as int % 16],
{
    lemma_hex_lower_digits(sha256(vstd::utf8::encode_utf8(token)));
}

/// The digest of a token, as the guest's digest script prints it.
pub fn token_digest(token: &str) -> (r: String)
    ensures
        r@ == token_digest_text(token@),
        r@.len() == 64,
{
    let bytes = token.as_bytes();
    let digest = sha256_digest(bytes);
    let r = to_hex(digest.as_slice());
    proof {
        lemma_hex_lower_len(digest@);
    }
    r
}

/// The unified diff of two texts, line by line, with the given file headers,
/// as the `similar` crate writes it.
pub uninterp spec fn unified_diff(
    old: Seq<char>,
    new: Seq<char>,
    old_header: Seq<char>,
    new_header: Seq<char>,
) -> Seq<char>;

/// Renders a unified line diff with `similar`
/// (`TextDiff::from_lines(old, new).unified_diff().header(..).to_string()`).
/// The contract names the result.
#[verifier::external_body]
pub(crate) fn unified_diff_text(old: &str, new: &str, old_header: &str, new_header: &str) -> (r:
    String)
    ensures
        r@ == unified_diff(old@, new@, old_header@, new_header@),
{
    similar::TextDiff::from_lines(old, new).unified_diff().header(old_header, new_header).to_string()
}

} // verus!
