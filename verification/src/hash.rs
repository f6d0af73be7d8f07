//! Identifier seeds and style-scope tokens. Both are short hexadecimal
//! hashes of a document uri (optionally joined with a counter), computed
//! with the IEEE CRC-32 checksum.

use vstd::prelude::*;
use crate::text::{dec_str, u64_to_string};

verus! {

/// The lowercase hexadecimal rendering of the IEEE CRC-32 checksum of the
/// UTF-8 bytes of `s`. The checksum itself is computed by an outside crate;
/// this name stands for its result, which depends on `s` alone.
pub uninterp spec fn crc32_hex_of(s: Seq<char>) -> Seq<char>;

/// Relies on `crc::crc32::checksum_ieee`: the IEEE CRC-32 of the given
/// bytes, a pure function of the bytes alone, here rendered as lowercase
/// hexadecimal.
#[verifier::external_body]
fn crc32_hex(s: &str) -> (r: String)
    ensures
        r@ == crc32_hex_of(s@),
{
    format!("{:x}", crc::crc32::checksum_ieee(s.as_bytes()))
}

/// The style-scope token of a document: the hash of its uri.
pub open spec fn scope_of(uri: Seq<char>) -> Seq<char> {
    crc32_hex_of(uri)
}

pub fn get_document_style_scope(uri: &String) -> (r: String)
    ensures
        r@ == scope_of(uri@),
{
    crc32_hex(uri.as_str())
}

/// The identifier seed of a fresh context: the hash of the uri joined with
/// the counter inherited from the instantiating context.
pub open spec fn seed_of(uri: Seq<char>, count: nat) -> Seq<char> {
    crc32_hex_of(uri + "-"@ + dec_str(count))
}

pub fn create_id_seed(uri: &String, curr_id_count: u64) -> (r: String)
    ensures
        r@ == seed_of(uri@, curr_id_count as nat),
{
    let mut key = uri.clone();
    key.append("-");
    let digits = u64_to_string(curr_id_count);
    key.append(digits.as_str());
    crc32_hex(key.as_str())
}

} // verus!
