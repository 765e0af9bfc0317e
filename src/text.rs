//! Text helpers: case folding, substring tests, hex and decimal renderings,
//! and the password digest.
use vstd::prelude::*;

verus! {

/// What `str::to_lowercase` makes of a text.
pub uninterp spec fn lower_of(s: Seq<char>) -> Seq<char>;

/// What the `Debug` rendering of a string makes of it: the text in double
/// quotes, with escapes.
pub uninterp spec fn quoted_of(s: Seq<char>) -> Seq<char>;

/// What SHA-256 makes of a byte string.
pub uninterp spec fn sha256_of(data: Seq<u8>) -> Seq<u8>;

/// `needle` occurs in `hay` as a contiguous run of characters.
pub open spec fn is_substring(needle: Seq<char>, hay: Seq<char>) -> bool {
    exists|i: int|
        0 <= i && i + needle.len() <= hay.len() && #[trigger] hay.subrange(i, i + needle.len())
            == needle
}

/// The lowercase hexadecimal digit of `n` (which is below 16).
pub open spec fn hex_digit(n: int) -> char {
    seq!['0', '1', '2', '3', '4', '5', '6', '7', '8', '9', 'a', 'b', 'c', 'd', 'e', 'f'][n]
}

/// Two lowercase hexadecimal digits per byte, high nibble first.
pub open spec fn hex_of(b: Seq<u8>) -> Seq<char>
    decreases b.len(),
{
    if b.len() == 0 {
        Seq::empty()
    } else {
        hex_of(b.drop_last()) + seq![hex_digit(b.last() as int / 16), hex_digit(b.last() as int % 16)]
    }
}

/// Exactly four lowercase hexadecimal digits of a 16-bit value.
pub open spec fn hex4_of(v: u16) -> Seq<char> {
    seq![
        hex_digit(v as int / 4096),
        hex_digit((v as int / 256) % 16),
        hex_digit((v as int / 16) % 16),
        hex_digit(v as int % 16),
    ]
}

/// The decimal digits of a natural number, without leading zeros.
pub open spec fn digits_of(n: nat) -> Seq<char>
    decreases n,
{
    if n < 10 {
        seq![seq!['0', '1', '2', '3', '4', '5', '6', '7', '8', '9'][n as int]]
    } else {
        digits_of(n / 10) + seq![seq!['0', '1', '2', '3', '4', '5', '6', '7', '8', '9'][(n % 10) as int]]
    }
}

/// The decimal rendering of an integer, with a leading `-` when negative.
pub open spec fn decimal_of(n: int) -> Seq<char> {
    if n < 0 {
        seq!['-'] + digits_of((-n) as nat)
    } else {
        digits_of(n as nat)
    }
}

/// The stored digest of a password: SHA-256 of its UTF-8 bytes, in hex.
pub open spec fn password_digest(password: Seq<char>) -> Seq<char> {
    hex_of(sha256_of(vstd::utf8::encode_utf8(password)))
}

/// Relies on `str::to_lowercase`: the result depends on the text alone.
#[verifier::external_body]
pub(crate) fn to_lower(s: &str) -> (r: String)
    ensures
        r@ == lower_of(s@),
{
    s.to_lowercase()
}

/// Relies on the `Debug` impl of `str` (`format!("{:?}", s)`): the result
/// depends on the text alone.
#[verifier::external_body]
pub(crate) fn quoted(s: &str) -> (r: String)
    ensures
        r@ == quoted_of(s@),
{
    format!("{:?}", s)
}

/// Relies on `str::contains` with a `&str` pattern: whether `needle`
/// occurs in `hay`.
#[verifier::external_body]
pub(crate) fn contains(hay: &str, needle: &str) -> (r: bool)
    ensures
        r == is_substring(needle@, hay@),
{
    hay.contains(needle)
}

/// Relies on `sha2::Sha256::digest`: the 32-byte SHA-256 digest of `data`.
#[verifier::external_body]
pub(crate) fn sha256(data: &[u8]) -> (r: Vec<u8>)
    ensures
        r@ == sha256_of(data@),
        r@.len() == 32,
{
    <sha2::Sha256 as sha2::Digest>::digest(data).to_vec()
}

/// Relies on `hex::encode`: two lowercase digits for each byte.
#[verifier::external_body]
pub(crate) fn hex_encode(data: &[u8]) -> (r: String)
    ensures
        r@ == hex_of(data@),
{
    hex::encode(data)
}

/// Relies on the `Display` impl of `i128` (`to_string`): plain decimal.
#[verifier::external_body]
pub(crate) fn decimal_text(n: i128) -> (r: String)
    ensures
        r@ == decimal_of(n as int),
{
    n.to_string()
}

/// Relies on `format!("{:04x}", v)` for a `u16`: four lowercase hex digits,
/// zero-padded.
#[verifier::external_body]
pub(crate) fn hex4_text(v: u16) -> (r: String)
    ensures
        r@ == hex4_of(v),
{
    format!("{:04x}", v)
}

/// The digest stored for a password: hex of the SHA-256 of its bytes.
pub fn hash_password(password: &str) -> (r: String)
    ensures
        r@ == password_digest(password@),
{
    let digest = sha256(password.as_bytes());
    hex_encode(digest.as_slice())
}

} // verus!
