//! The random values that tie an authorization to the one who asked for it.
use base64::engine::general_purpose::URL_SAFE_NO_PAD;
use base64::Engine;
use rand::RngCore;
use vstd::prelude::*;
use vstd::utf8::encode_utf8;
use crate::hashing::{sha256, sha256_digest};

verus! {

/// How many random bytes a verifier or a state is made of.
pub const RANDOM_BYTES: usize = 32;

/// Whether `c` belongs to the URL-safe alphabet of base64.
pub open spec fn is_url_safe(c: char) -> bool {
    ('A' <= c && c <= 'Z') || ('a' <= c && c <= 'z') || ('0' <= c && c <= '9') || c == '-' || c == '_'
}

/// How long bytes are in base64 without padding: four characters for three bytes,
/// and two or three for one or two at the end.
pub open spec fn base64_len(bytes: nat) -> nat {
    bytes / 3 * 4 + if bytes % 3 == 0 {
        0
    } else {
        bytes % 3 + 1
    }
}

/// The bytes in the URL-safe base64 of RFC 4648 without padding.
pub uninterp spec fn base64url(bytes: Seq<u8>) -> Seq<char>;

/// Calls `URL_SAFE_NO_PAD.encode`: the text depends on the bytes alone, has the
/// length that they take and only characters of the URL-safe alphabet.
#[verifier::external_body]
pub(crate) fn encode_base64url(bytes: &[u8]) -> (text: String)
    requires
        bytes@.len() <= usize::MAX / 4,
    ensures
        text@ == base64url(bytes@),
        text@.len() == base64_len(bytes@.len()),
        forall|i: int| 0 <= i < text@.len() ==> is_url_safe(#[trigger] text@[i]),
{
    URL_SAFE_NO_PAD.encode(bytes)
}

/// Calls `fill_bytes` of rand's `thread_rng` on as many bytes as a verifier has.
/// They are random: only their number is known.
#[verifier::external_body]
pub(crate) fn random_bytes() -> (bytes: Vec<u8>)
    ensures
        bytes@.len() == RANDOM_BYTES,
{
    let mut bytes = vec![0u8; RANDOM_BYTES];
    rand::thread_rng().fill_bytes(&mut bytes);
    bytes
}

/// A verifier and its challenge. The verifier is kept until the token is asked
/// for; only the challenge is sent before.
#[derive(Debug, Clone)]
pub struct Pkce {
    pub verifier: String,
    pub challenge: String,
    pub method: &'static str,
}

/// The challenge of a verifier: its digest in base64.
pub open spec fn challenge_for(verifier: Seq<char>) -> Seq<char> {
    base64url(sha256(encode_utf8(verifier)))
}

/// Whether a text is made of random bytes in base64: it can stand in an address as
/// it is, and has the length that the bytes take.
pub open spec fn is_token_text(text: Seq<char>) -> bool {
    &&& text.len() == base64_len(RANDOM_BYTES as nat)
    &&& forall|i: int| 0 <= i < text.len() ==> is_url_safe(#[trigger] text[i])
}

/// The challenge of a verifier.
pub fn challenge_of_verifier(verifier: &str) -> (challenge: String)
    ensures
        challenge@ == challenge_for(verifier@),
{
    let digest = sha256_digest(verifier.as_bytes());
    encode_base64url(digest.as_slice())
}

/// The pair whose verifier is made of these bytes.
pub fn pkce_of_bytes(bytes: &[u8]) -> (pair: Pkce)
    requires
        bytes@.len() == RANDOM_BYTES,
    ensures
        pair.verifier@ == base64url(bytes@),
        is_token_text(pair.verifier@),
        pair.challenge@ == challenge_for(pair.verifier@),
        pair.method@ == "S256"@,
{
    let verifier = encode_base64url(bytes);
    let challenge = challenge_of_verifier(verifier.as_str());
    Pkce { verifier, challenge, method: "S256" }
}

/// Makes a new verifier and its challenge.
pub fn generate_pkce() -> (pair: Pkce)
    ensures
        exists|bytes: Seq<u8>|
            bytes.len() == RANDOM_BYTES && pair.verifier@ == #[trigger] base64url(bytes),
        is_token_text(pair.verifier@),
        pair.challenge@ == challenge_for(pair.verifier@),
        pair.method@ == "S256"@,
{
    let bytes = random_bytes();
    pkce_of_bytes(bytes.as_slice())
}

/// Makes a new state.
pub fn generate_state() -> (state: String)
    ensures
        exists|bytes: Seq<u8>| bytes.len() == RANDOM_BYTES && state@ == #[trigger] base64url(bytes),
        is_token_text(state@),
{
    let bytes = random_bytes();
    encode_base64url(bytes.as_slice())
}

/// A text made of random bytes needs no encoding in an address: it holds none of
/// the characters that mean something there.
pub proof fn law_random_texts_are_url_safe(text: Seq<char>)
    requires
        is_token_text(text),
    ensures
        text.len() == 43,
        !text.contains('+') && !text.contains('/') && !text.contains('='),
{
    assert(base64_len(RANDOM_BYTES as nat) == 43);
    if text.contains('+') {
        let i = choose|i: int| 0 <= i < text.len() && text[i] == '+';
        assert(is_url_safe(text[i]));
    }
    if text.contains('/') {
        let i = choose|i: int| 0 <= i < text.len() && text[i] == '/';
        assert(is_url_safe(text[i]));
    }
    if text.contains('=') {
        let i = choose|i: int| 0 <= i < text.len() && text[i] == '=';
        assert(is_url_safe(text[i]));
    }
}

/// A challenge is the digest of the verifier's bytes, spelled for an address, and a token
/// has the forty-three characters that thirty-two bytes take.
pub proof fn law_challenge_is_the_digest_of_the_verifier(verifier: Seq<char>, text: Seq<char>)
    ensures
        challenge_for(verifier) == base64url(sha256(encode_utf8(verifier))),
        is_token_text(text) ==> text.len() == 43,
{
}

} // verus!
