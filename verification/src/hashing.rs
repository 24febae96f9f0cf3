//! SHA-256 digests and their hexadecimal form.
use sha2::{Digest, Sha256};
use vstd::prelude::*;
use crate::text::string_of;

verus! {

/// The SHA-256 digest of `bytes`, as `sha2::Sha256` computes it.
pub uninterp spec fn sha256(bytes: Seq<u8>) -> Seq<u8>;

/// Calls `Sha256::digest`. The digest is a function of the bytes, and 32 bytes
/// long.
#[verifier::external_body]
pub(crate) fn sha256_digest(bytes: &[u8]) -> (digest: Vec<u8>)
    ensures
        digest@ == sha256(bytes@),
        digest@.len() == 32,
{
    Sha256::digest(bytes).to_vec()
}

/// The hexadecimal digit for `n`, in lower case.
pub open spec fn hex_digit(n: nat) -> char
    recommends
        n < 16,
{
    if n < 10 {
        ((48 + n) as u8) as char
    } else {
        ((87 + n) as u8) as char
    }
}

/// The bytes in hexadecimal, two digits each.
pub open spec fn hex(bytes: Seq<u8>) -> Seq<char>
    decreases bytes.len(),
{
    if bytes.len() == 0 {
        Seq::empty()
    } else {
        hex(bytes.drop_last()).push(hex_digit(bytes.last() as nat / 16)).push(
            hex_digit(bytes.last() as nat % 16),
        )
    }
}

/// The hexadecimal digit for `n`.
fn hex_char(n: u8) -> (c: char)
    requires
        n < 16,
    ensures
        c == hex_digit(n as nat),
{
    if n < 10 {
        (48 + n) as char
    } else {
        (87 + n) as char
    }
}

/// The SHA-256 digest of `bytes` in hexadecimal.
pub fn sha256_hex(bytes: &[u8]) -> (text: String)
    ensures
        text@ == hex(sha256(bytes@)),
{
    let digest = sha256_digest(bytes);
    let mut chars: Vec<char> = Vec::new();
    let mut i: usize = 0;
    while i < digest.len()
        invariant
            i <= digest@.len(),
            chars@ == hex(digest@.take(i as int)),
        decreases digest.len() - i,
    {
        let byte: u8 = digest[i];
        let ghost next = digest@.take(i + 1);
        assert(next.drop_last() =~= digest@.take(i as int));
        chars.push(hex_char(byte / 16));
        chars.push(hex_char(byte % 16));
        i += 1;
    }
    assert(digest@.take(i as int) =~= digest@);
    string_of(chars.as_slice())
}

/// The number that a hexadecimal digit stands for.
pub open spec fn hex_value(c: char) -> int {
    if '0' <= c <= '9' {
        c as int - '0' as int
    } else {
        10 + (c as int - 'a' as int)
    }
}

/// Each byte is written in two hexadecimal digits in lower case, the higher first, in the
/// order of the bytes.
pub proof fn law_bytes_are_written_in_two_digits(bytes: Seq<u8>)
    ensures
        hex(bytes).len() == 2 * bytes.len(),
        forall|i: int|
            0 <= i < bytes.len() ==> #[trigger] bytes[i] as int == 16 * hex_value(hex(bytes)[2 * i])
                + hex_value(hex(bytes)[2 * i + 1]),
        forall|i: int|
            0 <= i < hex(bytes).len() ==> '0' <= #[trigger] hex(bytes)[i] <= '9' || 'a'
                <= hex(bytes)[i] <= 'f',
    decreases bytes.len(),
{
    if bytes.len() > 0 {
        let front = bytes.drop_last();
        law_bytes_are_written_in_two_digits(front);
        let high = bytes.last() as nat / 16;
        let low = bytes.last() as nat % 16;
        let text = hex(bytes);
        let before = hex(front);
        assert(text[before.len() as int] == hex_digit(high));
        assert(text[before.len() as int + 1] == hex_digit(low));
        lemma_hex_digit(high);
        lemma_hex_digit(low);
        assert forall|i: int| 0 <= i < bytes.len() implies #[trigger] bytes[i] as int == 16
            * hex_value(text[2 * i]) + hex_value(text[2 * i + 1]) by {
            if i < front.len() {
                assert(front[i] == bytes[i]);
                assert(text[2 * i] == before[2 * i]);
                assert(text[2 * i + 1] == before[2 * i + 1]);
            } else {
                assert(bytes[i] == bytes.last());
            }
        }
        assert forall|i: int| 0 <= i < text.len() implies '0' <= #[trigger] text[i] <= '9' || 'a'
            <= text[i] <= 'f' by {
            if i < before.len() {
                assert(text[i] == before[i]);
            }
        }
    }
}

/// A digit stands for its number.
proof fn lemma_hex_digit(n: nat)
    requires
        n < 16,
    ensures
        hex_value(hex_digit(n)) == n,
        '0' <= hex_digit(n) <= '9' || 'a' <= hex_digit(n) <= 'f',
{
}

} // verus!
