//! SHA-256 digests and their hexadecimal text.

use sha2::Digest;
use vstd::prelude::*;
use vstd::utf8::*;

verus! {

/// The hasher of the `sha2` crate. Contracts see it through [`absorbed`] alone.
#[verifier::external_type_specification]
#[verifier::external_body]
pub struct ExSha256(sha2::Sha256);

/// One more than the longest message, in bytes, whose length in bits `sha2` can count.
pub const SHA256_LIMIT: u64 = 0x2000_0000_0000_0000;

/// The bytes that a hasher has been fed so far.
pub uninterp spec fn absorbed(hasher: sha2::Sha256) -> Seq<u8>;

/// The SHA-256 digest of a message.
pub uninterp spec fn sha256(message: Seq<u8>) -> Seq<u8>;

/// Calls `sha2::Sha256::new`: the hasher that comes back has absorbed nothing.
#[verifier::external_body]
pub(crate) fn new_hasher() -> (hasher: sha2::Sha256)
    ensures
        absorbed(hasher) == Seq::<u8>::empty(),
{
    sha2::Sha256::new()
}

/// Calls `sha2::Sha256::update`: the data is appended to what the hasher has absorbed.
#[verifier::external_body]
pub(crate) fn feed(hasher: &mut sha2::Sha256, data: &[u8])
    requires
        absorbed(*old(hasher)).len() + data@.len() < SHA256_LIMIT,
    ensures
        absorbed(*final(hasher)) == absorbed(*old(hasher)) + data@,
{
    hasher.update(data)
}

/// Calls `sha2::Sha256::finalize`: the result is the digest of everything absorbed,
/// and is 32 bytes long.
#[verifier::external_body]
pub(crate) fn finish(hasher: sha2::Sha256) -> (digest: Vec<u8>)
    requires
        absorbed(hasher).len() < SHA256_LIMIT,
    ensures
        digest@ == sha256(absorbed(hasher)),
        digest@.len() == 32,
{
    hasher.finalize().to_vec()
}

/// The lower-case hexadecimal digit of a value below sixteen.
pub open spec fn hex_digit(value: int) -> char {
    seq!['0', '1', '2', '3', '4', '5', '6', '7', '8', '9', 'a', 'b', 'c', 'd', 'e', 'f'][value]
}

/// Two lower-case hexadecimal digits for each byte, the high half first.
pub open spec fn hex(bytes: Seq<u8>) -> Seq<char> {
    Seq::new(
        2 * bytes.len(),
        |i: int|
            hex_digit(
                if i % 2 == 0 {
                    bytes[i / 2] as int / 16
                } else {
                    bytes[i / 2] as int % 16
                },
            ),
    )
}

/// Calls `hex::encode`: each byte becomes two lower-case hexadecimal digits.
#[verifier::external_body]
pub(crate) fn encode_hex(bytes: &[u8]) -> (text: String)
    ensures
        text@ == hex(bytes@),
{
    hex::encode(bytes)
}

/// Hexadecimal text is ASCII.
pub proof fn lemma_hex_is_ascii(bytes: Seq<u8>)
    ensures
        is_ascii_chars(hex(bytes)),
{
    assert forall|i: int| 0 <= i < hex(bytes).len() implies '\0' <= #[trigger] hex(bytes)[i]
        <= '\u{7f}' by {
        let v = if i % 2 == 0 {
            bytes[i / 2] as int / 16
        } else {
            bytes[i / 2] as int % 16
        };
        assert(0 <= v < 16);
    }
}

/// Hexadecimal text determines the bytes that it writes down.
pub proof fn lemma_hex_determines_bytes(a: Seq<u8>, b: Seq<u8>)
    requires
        hex(a) == hex(b),
    ensures
        a == b,
{
    assert(hex(a).len() == 2 * a.len() && hex(b).len() == 2 * b.len());
    assert forall|i: int| 0 <= i < a.len() implies a[i] == b[i] by {
        assert(hex(a)[2 * i] == hex(b)[2 * i]);
        assert(hex(a)[2 * i + 1] == hex(b)[2 * i + 1]);
        lemma_hex_of_byte(a, i);
        lemma_hex_of_byte(b, i);
        lemma_hex_digit_determines_value(a[i] as int / 16, b[i] as int / 16);
        lemma_hex_digit_determines_value(a[i] as int % 16, b[i] as int % 16);
    }
    assert(a =~= b);
}

proof fn lemma_hex_of_byte(bytes: Seq<u8>, i: int)
    requires
        0 <= i < bytes.len(),
    ensures
        hex(bytes)[2 * i] == hex_digit(bytes[i] as int / 16),
        hex(bytes)[2 * i + 1] == hex_digit(bytes[i] as int % 16),
{
    assert((2 * i) / 2 == i && (2 * i) % 2 == 0);
    assert((2 * i + 1) / 2 == i && (2 * i + 1) % 2 == 1);
}

proof fn lemma_hex_digit_determines_value(x: int, y: int)
    requires
        0 <= x < 16,
        0 <= y < 16,
        hex_digit(x) == hex_digit(y),
    ensures
        x == y,
{
}

/// Hexadecimal text says each byte by two of the digits `0` to `9` and `a` to `f`: the digit
/// of its sixteens, and that of what is left.
pub proof fn lemma_hex_digits(bytes: Seq<u8>, i: int)
    requires
        0 <= i < bytes.len(),
    ensures
        hex(bytes).len() == 2 * bytes.len(),
        digit_value(hex(bytes)[2 * i]) * 16 + digit_value(hex(bytes)[2 * i + 1]) == bytes[i],
        0 <= digit_value(hex(bytes)[2 * i]) < 16,
        0 <= digit_value(hex(bytes)[2 * i + 1]) < 16,
{
    lemma_hex_of_byte(bytes, i);
    lemma_hex_digit_value(bytes[i] as int / 16);
    lemma_hex_digit_value(bytes[i] as int % 16);
}

/// The value of a lower-case hexadecimal digit.
pub open spec fn digit_value(digit: char) -> int {
    if '0' <= digit <= '9' {
        digit as int - '0' as int
    } else if 'a' <= digit <= 'f' {
        digit as int - 'a' as int + 10
    } else {
        -1
    }
}

proof fn lemma_hex_digit_value(value: int)
    requires
        0 <= value < 16,
    ensures
        digit_value(hex_digit(value)) == value,
{
}

} // verus!
