//! Digests and encodings that bind ledger entries together.

use sha2::{Digest, Sha256};
use vstd::prelude::*;
use vstd::utf8::*;

verus! {

/// SHA-256 is defined on messages shorter than 2^64 bits, that is 2^61 bytes.
pub const SHA256_INPUT_LIMIT: u64 = 0x2000_0000_0000_0000;

/// The SHA-256 digest of `data`, as `Sha256::digest` of the `sha2` crate computes it.
pub uninterp spec fn sha256(data: Seq<u8>) -> [u8; 32];

/// Two distinct messages with the same SHA-256 digest.
pub open spec fn sha256_collision(a: Seq<u8>, b: Seq<u8>) -> bool {
    a != b && sha256(a) == sha256(b)
}

/// Calls `sha2::Sha256::digest`. Trusted: the result is the crate's SHA-256 of
/// `data`, a function of the bytes alone. The bound on the input keeps the bit
/// count that the crate appends to the message within 64 bits.
#[verifier::external_body]
pub(crate) fn sha256_digest(data: &[u8]) -> (out: [u8; 32])
    requires
        data@.len() < SHA256_INPUT_LIMIT,
    ensures
        out == sha256(data@),
{
    Sha256::digest(data).into()
}

/// The lowercase hexadecimal digit of a value below 16.
pub open spec fn hex_digit(nibble: int) -> char {
    if nibble < 10 {
        ('0' as int + nibble) as char
    } else {
        ('a' as int + nibble - 10) as char
    }
}

/// Lowercase hexadecimal text of `bytes`: two digits per byte, high nibble first.
pub open spec fn hex_lower(bytes: Seq<u8>) -> Seq<char> {
    Seq::new(
        2 * bytes.len(),
        |i: int|
            if i % 2 == 0 {
                hex_digit(bytes[i / 2] as int / 16)
            } else {
                hex_digit(bytes[i / 2] as int % 16)
            },
    )
}

/// Calls `hex::encode`. Trusted: the text holds, for each byte in order, the
/// lowercase digit of its high nibble and then that of its low nibble.
#[verifier::external_body]
pub(crate) fn hex_encode(bytes: &[u8]) -> (text: String)
    requires
        2 * bytes@.len() <= usize::MAX,
    ensures
        text@ == hex_lower(bytes@),
{
    hex::encode(bytes)
}

/// The eight bytes of `value`, most significant first.
pub open spec fn be_bytes(value: u64) -> Seq<u8> {
    seq![
        (value / 0x100_0000_0000_0000 % 256) as u8,
        (value / 0x1_0000_0000_0000 % 256) as u8,
        (value / 0x100_0000_0000 % 256) as u8,
        (value / 0x1_0000_0000 % 256) as u8,
        (value / 0x100_0000 % 256) as u8,
        (value / 0x1_0000 % 256) as u8,
        (value / 0x100 % 256) as u8,
        (value % 256) as u8,
    ]
}

/// Appends the big-endian bytes of `value` to `buf`.
pub fn push_be_bytes(buf: &mut Vec<u8>, value: u64)
    ensures
        final(buf)@ == old(buf)@ + be_bytes(value),
{
    buf.push((value / 0x100_0000_0000_0000 % 256) as u8);
    buf.push((value / 0x1_0000_0000_0000 % 256) as u8);
    buf.push((value / 0x100_0000_0000 % 256) as u8);
    buf.push((value / 0x1_0000_0000 % 256) as u8);
    buf.push((value / 0x100_0000 % 256) as u8);
    buf.push((value / 0x1_0000 % 256) as u8);
    buf.push((value / 0x100 % 256) as u8);
    buf.push((value % 256) as u8);
    assert(buf@ =~= old(buf)@ + be_bytes(value));
}

/// Whether SHA-256 can take the UTF-8 bytes of `text`.
pub open spec fn hashable(text: Seq<char>) -> bool {
    encode_utf8(text).len() < SHA256_INPUT_LIMIT
}

/// Whether SHA-256 can take `text`.
pub fn can_hash(text: &str) -> (fits: bool)
    ensures
        fits == hashable(text@),
{
    let length: u64 = text.as_bytes().len() as u64;
    length < SHA256_INPUT_LIMIT
}

/// Lowercase hexadecimal text of the SHA-256 digest of `data`.
pub open spec fn digest_hex(data: Seq<u8>) -> Seq<char> {
    hex_lower(sha256(data)@)
}

/// The hash recorded for a text: the hexadecimal SHA-256 digest of its UTF-8 bytes.
pub open spec fn text_digest(text: Seq<char>) -> Seq<char> {
    digest_hex(encode_utf8(text))
}

/// A lowercase hexadecimal digit.
pub open spec fn is_hex_char(c: char) -> bool {
    ('0' <= c && c <= '9') || ('a' <= c && c <= 'f')
}

/// The shape of a hex-encoded 256-bit digest: 64 lowercase hexadecimal digits.
pub open spec fn is_hex_digest(text: Seq<char>) -> bool {
    &&& text.len() == 64
    &&& forall|i: int| 0 <= i < 64 ==> is_hex_char(#[trigger] text[i])
}

/// Writes a 256-bit digest as 64 lowercase hexadecimal digits.
pub fn digest_text(digest: &[u8; 32]) -> (text: String)
    ensures
        text@ == hex_lower(digest@),
        is_hex_digest(text@),
{
    proof {
        lemma_hex_lower_shape(digest@);
    }
    hex_encode(digest.as_slice())
}

/// Hex-encodes the SHA-256 digest of `data`.
pub fn sha256_hex(data: &[u8]) -> (hash: String)
    requires
        data@.len() < SHA256_INPUT_LIMIT,
    ensures
        hash@ == digest_hex(data@),
        is_hex_digest(hash@),
{
    let digest: [u8; 32] = sha256_digest(data);
    digest_text(&digest)
}

/// The hash recorded for `text`.
pub fn content_hash(text: &str) -> (hash: String)
    requires
        hashable(text@),
    ensures
        hash@ == text_digest(text@),
        is_hex_digest(hash@),
{
    sha256_hex(text.as_bytes())
}

/// Whether `text` has the shape of a hex digest.
pub fn has_digest_shape(text: &str) -> (shaped: bool)
    ensures
        shaped == is_hex_digest(text@),
{
    if !text.is_ascii() {
        assert(!is_hex_digest(text@)) by {
            if is_hex_digest(text@) {
                lemma_hex_digest_bytes(text@);
            }
        }
        return false;
    }
    let bytes: &[u8] = text.as_bytes();
    proof {
        is_ascii_chars_encode_utf8(text@);
    }
    if bytes.len() != 64 {
        return false;
    }
    let mut i: usize = 0;
    while i < 64
        invariant
            i <= 64,
            bytes@.len() == 64,
            text@.len() == 64,
            forall|j: int| 0 <= j < 64 ==> #[trigger] text@[j] as u8 == bytes@[j],
            forall|j: int| 0 <= j < 64 ==> '\0' <= #[trigger] text@[j] <= '\u{7f}',
            forall|j: int| 0 <= j < i ==> is_hex_char(#[trigger] text@[j]),
        decreases 64 - i,
    {
        let b: u8 = bytes[i];
        let digit: bool = (0x30 <= b && b <= 0x39) || (0x61 <= b && b <= 0x66);
        assert(digit == is_hex_char(text@[i as int]));
        if !digit {
            return false;
        }
        i = i + 1;
    }
    true
}

/// Thirty-two bytes in hexadecimal have the shape of a hex digest.
pub proof fn lemma_hex_lower_shape(bytes: Seq<u8>)
    requires
        bytes.len() == 32,
    ensures
        is_hex_digest(hex_lower(bytes)),
{
    let text = hex_lower(bytes);
    assert forall|i: int| 0 <= i < 64 implies is_hex_char(#[trigger] text[i]) by {
        // The digit stands for a nibble of byte `i / 2`.
        assert(0 <= bytes[i / 2] as int / 16 < 16 && 0 <= bytes[i / 2] as int % 16 < 16);
    }
}

/// Every digest in hexadecimal has the shape of a hex digest.
pub proof fn lemma_digest_hex_shape(data: Seq<u8>)
    ensures
        is_hex_digest(digest_hex(data)),
{
    lemma_hex_lower_shape(sha256(data)@);
}

/// Hexadecimal text determines the bytes it encodes.
pub proof fn lemma_hex_lower_injective(a: Seq<u8>, b: Seq<u8>)
    requires
        hex_lower(a) == hex_lower(b),
    ensures
        a == b,
{
    assert(hex_lower(a).len() == 2 * a.len());
    assert(hex_lower(b).len() == 2 * b.len());
    assert forall|k: int| 0 <= k < a.len() implies a[k] == b[k] by {
        let ha = hex_lower(a);
        let hb = hex_lower(b);
        assert(ha[2 * k] == hb[2 * k]);
        assert(ha[2 * k + 1] == hb[2 * k + 1]);
        assert((2 * k) / 2 == k && (2 * k + 1) / 2 == k);
        assert((2 * k) % 2 == 0 && (2 * k + 1) % 2 == 1);
        let x: int = a[k] as int;
        let y: int = b[k] as int;
        assert(hex_digit(x / 16) == hex_digit(y / 16));
        assert(hex_digit(x % 16) == hex_digit(y % 16));
        assert(x / 16 == y / 16);
        assert(x % 16 == y % 16);
    }
    assert(a =~= b);
}

/// A hex digest is ASCII, so its UTF-8 bytes are its 64 characters.
pub proof fn lemma_hex_digest_bytes(text: Seq<char>)
    requires
        is_hex_digest(text),
    ensures
        is_ascii_chars(text),
        encode_utf8(text).len() == 64,
{
    assert forall|i: int| 0 <= i < text.len() implies '\0' <= #[trigger] text[i] <= '\u{7f}' by {
        assert(is_hex_char(text[i]));
    }
    is_ascii_chars_encode_utf8(text);
}

/// The big-endian bytes of a number determine it.
pub proof fn lemma_be_bytes_injective(x: u64, y: u64)
    requires
        be_bytes(x) == be_bytes(y),
    ensures
        x == y,
{
    let bx = be_bytes(x);
    let by = be_bytes(y);
    assert(bx[0] == by[0] && bx[1] == by[1] && bx[2] == by[2] && bx[3] == by[3]);
    assert(bx[4] == by[4] && bx[5] == by[5] && bx[6] == by[6] && bx[7] == by[7]);
    assert(x == y) by (bit_vector)
        requires
            x / 0x100_0000_0000_0000u64 % 256u64 == y / 0x100_0000_0000_0000u64 % 256u64,
            x / 0x1_0000_0000_0000u64 % 256u64 == y / 0x1_0000_0000_0000u64 % 256u64,
            x / 0x100_0000_0000u64 % 256u64 == y / 0x100_0000_0000u64 % 256u64,
            x / 0x1_0000_0000u64 % 256u64 == y / 0x1_0000_0000u64 % 256u64,
            x / 0x100_0000u64 % 256u64 == y / 0x100_0000u64 % 256u64,
            x / 0x1_0000u64 % 256u64 == y / 0x1_0000u64 % 256u64,
            x / 0x100u64 % 256u64 == y / 0x100u64 % 256u64,
            x % 256u64 == y % 256u64,
    ;
}

} // verus!
