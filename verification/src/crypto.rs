//! The cryptographic primitives the signer relies on, named but not
//! restated: SHA-256 and HMAC-SHA256 as the outside crates compute them.

use vstd::prelude::*;

use hmac::Mac;
use sha2::Digest;

verus! {

/// What SHA-256 digests the input to, written as lowercase hex. A
/// function of the input alone.
pub uninterp spec fn sha256_lower_hex(content: Seq<char>) -> Seq<char>;

/// What HMAC-SHA256 computes for a key and a message, written as
/// uppercase hex. A function of the two alone.
pub uninterp spec fn hmac_sha256_upper_hex(key: Seq<char>, msg: Seq<char>) -> Seq<char>;

/// A lowercase hexadecimal digit.
pub open spec fn is_lower_hex_digit(c: char) -> bool {
    ('0' as int <= c as int && c as int <= '9' as int) || ('a' as int <= c as int && c as int
        <= 'f' as int)
}

/// An uppercase hexadecimal digit.
pub open spec fn is_upper_hex_digit(c: char) -> bool {
    ('0' as int <= c as int && c as int <= '9' as int) || ('A' as int <= c as int && c as int
        <= 'F' as int)
}

/// Relies on sha2's `Sha256` (the one-shot `Digest::digest`) and
/// generic-array's `LowerHex` formatting: the digest of the input bytes,
/// a 32-byte digest written as two lowercase hex digits per byte.
#[verifier::external_body]
pub(crate) fn sha256_hex(content: &str) -> (r: String)
    ensures
        r@ == sha256_lower_hex(content@),
        r@.len() == 64,
        forall|i: int| 0 <= i < r@.len() ==> is_lower_hex_digit(#[trigger] r@[i]),
{
    format!("{:x}", sha2::Sha256::digest(content.as_bytes()))
}

/// Relies on hmac's `Hmac<Sha256>` (`new_from_slice` accepts keys of any
/// length) and generic-array's `UpperHex` formatting: the MAC of the
/// message under the key, a 32-byte tag written as two uppercase hex
/// digits per byte.
#[verifier::external_body]
pub(crate) fn hmac_sha256_hex(key: &str, msg: &str) -> (r: String)
    ensures
        r@ == hmac_sha256_upper_hex(key@, msg@),
        r@.len() == 64,
        forall|i: int| 0 <= i < r@.len() ==> is_upper_hex_digit(#[trigger] r@[i]),
{
    let mut mac = hmac::Hmac::<sha2::Sha256>::new_from_slice(key.as_bytes())
        .expect("HMAC can take key of any size");
    mac.update(msg.as_bytes());
    format!("{:X}", mac.finalize().into_bytes())
}

/// Relies on rand's `random`: a fresh value from the thread-local
/// generator. Nothing can be promised of the value.
pub assume_specification<T>[ rand::random::<T> ]() -> (r: T)
    where
        rand::distributions::Standard: rand::distributions::Distribution<T>,
;

} // verus!
