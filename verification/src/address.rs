//! The address that belongs to an uncompressed public key.

use vstd::prelude::*;
use vstd::slice::slice_subrange;
use vstd::string::StringExecFns;
use crate::hex::{hex_encode, hex_string};

verus! {

/// The Keccak-256 digest of a byte string.
pub uninterp spec fn keccak256(data: Seq<u8>) -> Seq<u8>;

/// Calls `sha3::Keccak256::digest`.
///
/// The result is the digest of the data, as the function of the data alone
/// that `keccak256` names; it has 32 bytes.
#[verifier::external_body]
fn keccak256_digest(data: &[u8]) -> (r: Vec<u8>)
    ensures
        r@ == keccak256(data@),
        r@.len() == 32,
{
    <sha3::Keccak256 as sha3::Digest>::digest(data).to_vec()
}

/// The text of the address of a public key: `0x` and, in hexadecimal, the
/// last twenty bytes of the digest of the key without its first byte.
pub open spec fn address_of(public_key: Seq<u8>) -> Seq<char> {
    seq!['0', 'x'] + hex_string(keccak256(public_key.skip(1)).skip(12))
}

/// Computes the address of an uncompressed public key (65 bytes, of which
/// the first is a marker).
pub fn address(public_key: &[u8]) -> (r: String)
    requires
        public_key@.len() >= 1,
    ensures
        r@ == address_of(public_key@),
        r@.len() == 42,
{
    let bytes = slice_subrange(public_key, 1, public_key.len());
    assert(bytes@ =~= public_key@.skip(1));
    let digest = keccak256_digest(bytes);
    let final_bytes = slice_subrange(digest.as_slice(), 12, 32);
    assert(final_bytes@ =~= digest@.skip(12));
    let text = hex_encode(final_bytes);
    proof {
        reveal_strlit("0x");
        assert("0x"@ =~= seq!['0', 'x']);
    }
    String::from_str("0x").concat(text.as_str())
}

} // verus!
