//! Hashing, message authentication and Base64, computed by the `sha2`,
//! `hmac` and `base64` crates, and the hexadecimal rendering of digests.
//!
//! What the outside crates compute is named, not restated: a caller's
//! contract speaks of `sha256_digest`, `hmac_sha256_tag`, `base64_decoded`
//! and `base64_encoded` applied to its own inputs.
use vstd::prelude::*;

use base64::Engine;
use hmac::Mac;
use sha2::Digest;

verus! {

/// SHA-256 of `data`, as `sha2::Sha256::digest` computes it.
pub uninterp spec fn sha256_digest(data: Seq<u8>) -> Seq<u8>;

/// HMAC-SHA256 of `msg` under `key`, as `hmac::Hmac<sha2::Sha256>` computes it.
pub uninterp spec fn hmac_sha256_tag(key: Seq<u8>, msg: Seq<u8>) -> Seq<u8>;

/// What the standard padded Base64 engine decodes `input` to, or `None`
/// when `input` is not valid Base64.
pub uninterp spec fn base64_decoded(input: Seq<u8>) -> Option<Seq<u8>>;

/// The standard padded Base64 text of `input`.
pub uninterp spec fn base64_encoded(input: Seq<u8>) -> Seq<char>;

/// `sha2::Sha256::digest(data)`. The digest is named by `sha256_digest`;
/// its length, 32 bytes, is fixed by the output type.
#[verifier::external_body]
pub(crate) fn sha256(data: &[u8]) -> (res: Vec<u8>)
    ensures
        res@ == sha256_digest(data@),
        res@.len() == 32,
{
    sha2::Sha256::digest(data).to_vec()
}

/// `Hmac::<Sha256>::new_from_slice(key)`, `update(msg)`, `finalize()`.
/// `new_from_slice` accepts a key of any length (longer keys are hashed,
/// shorter ones padded), so a tag always comes back; it is named by
/// `hmac_sha256_tag`, and its length, 32 bytes, is fixed by the output type.
#[verifier::external_body]
pub(crate) fn hmac_sha256(key: &[u8], msg: &[u8]) -> (res: Option<Vec<u8>>)
    ensures
        match res {
            Some(t) => t@ == hmac_sha256_tag(key@, msg@) && t@.len() == 32,
            None => false,
        },
{
    match <hmac::Hmac<sha2::Sha256> as Mac>::new_from_slice(key) {
        Ok(mut mac) => {
            mac.update(msg);
            Some(mac.finalize().into_bytes().to_vec())
        },
        Err(_) => None,
    }
}

/// `base64::engine::general_purpose::STANDARD.decode(input)`, with the
/// decoding error dropped. The result is named by `base64_decoded`.
#[verifier::external_body]
pub(crate) fn base64_decode(input: &[u8]) -> (res: Option<Vec<u8>>)
    ensures
        match res {
            Some(v) => base64_decoded(input@) == Some(v@),
            None => base64_decoded(input@) is None,
        },
{
    base64::engine::general_purpose::STANDARD.decode(input).ok()
}

/// A character of the standard Base64 alphabet (`A`-`Z`, `a`-`z`, `0`-`9`,
/// `+`, `/`) or the `=` padding.
pub open spec fn is_base64_char(c: char) -> bool {
    let n = c as u32;
    ||| 65 <= n <= 90
    ||| 97 <= n <= 122
    ||| 48 <= n <= 57
    ||| c == '+'
    ||| c == '/'
    ||| c == '='
}

/// `base64::engine::general_purpose::STANDARD.encode(input)`. The output
/// length is computed with a checked multiplication that panics on overflow,
/// hence the bound on the input. The text is named by `base64_encoded`; as
/// the engine's documentation says, it is written in the standard alphabet
/// with `=` padding.
#[verifier::external_body]
pub(crate) fn base64_encode(input: &[u8]) -> (res: String)
    requires
        input@.len() <= usize::MAX / 2,
    ensures
        res@ == base64_encoded(input@),
        forall|i: int| 0 <= i < res@.len() ==> is_base64_char(#[trigger] res@[i]),
{
    base64::engine::general_purpose::STANDARD.encode(input)
}

/// The lower-case hexadecimal digit for `d < 16`.
pub open spec fn hex_digit(d: int) -> char {
    if d < 10 {
        (48 + d) as char
    } else {
        (87 + d) as char
    }
}

/// Two lower-case hex digits per byte, high nibble first: what `{:x}`
/// prints for a digest.
pub open spec fn hex_of(bytes: Seq<u8>) -> Seq<char>
    decreases bytes.len(),
{
    if bytes.len() == 0 {
        Seq::empty()
    } else {
        hex_of(bytes.drop_last()) + seq![
            hex_digit(bytes.last() as int / 16),
            hex_digit(bytes.last() as int % 16),
        ]
    }
}

/// A lower-case hexadecimal digit: `0`–`9` or `a`–`f`.
pub open spec fn is_lower_hex(c: char) -> bool {
    ('0' <= c && c <= '9') || ('a' <= c && c <= 'f')
}

/// The hex text of `n` bytes has `2 * n` characters, each a lower-case
/// hex digit.
pub proof fn lemma_hex_of_shape(bytes: Seq<u8>)
    ensures
        hex_of(bytes).len() == 2 * bytes.len(),
        forall|i: int| 0 <= i < hex_of(bytes).len() ==> is_lower_hex(#[trigger] hex_of(bytes)[i]),
    decreases bytes.len(),
{
    if bytes.len() > 0 {
        lemma_hex_of_shape(bytes.drop_last());
        let b = bytes.last() as int;
        assert(0 <= b / 16 < 16 && 0 <= b % 16 < 16);
        let prev = hex_of(bytes.drop_last());
        assert forall|i: int| 0 <= i < hex_of(bytes).len() implies is_lower_hex(#[trigger] hex_of(bytes)[i]) by {
            if i < prev.len() {
                assert(hex_of(bytes)[i] == prev[i]);
            }
        }
    }
}

fn hex_char(d: u8) -> (res: char)
    requires
        d < 16,
    ensures
        res == hex_digit(d as int),
{
    if d < 10 {
        (48 + d) as char
    } else {
        (87 + d) as char
    }
}

pub fn hex_lower(bytes: &[u8]) -> (res: String)
    ensures
        res@ == hex_of(bytes@),
{
    let mut out = String::new();
    let mut i: usize = 0;
    while i < bytes.len()
        invariant
            i <= bytes.len(),
            out@ == hex_of(bytes@.take(i as int)),
        decreases bytes.len() - i,
    {
        let b = bytes[i];
        proof {
            assert(bytes@.take(i + 1).drop_last() =~= bytes@.take(i as int));
        }
        crate::text::push_char(&mut out, hex_char(b / 16));
        crate::text::push_char(&mut out, hex_char(b % 16));
        proof {
            assert(out@ =~= hex_of(bytes@.take(i + 1)));
        }
        i = i + 1;
    }
    proof {
        assert(bytes@.take(bytes@.len() as int) =~= bytes@);
    }
    out
}

} // verus!
