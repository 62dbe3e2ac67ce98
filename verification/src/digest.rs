//! The content digest: a short BLAKE2b hash of a file's bytes, written in
//! lowercase hexadecimal.

use blake2::digest::{Update, VariableOutput};
use vstd::prelude::*;
use crate::error::ProcessError;

verus! {

/// The number of hash bytes behind a file's digest.
pub const DIGEST_BYTES: usize = 10;

/// The largest output length that BLAKE2b offers, in bytes.
pub const MAX_DIGEST_BYTES: usize = 64;

#[verifier::external_type_specification]
#[verifier::external_body]
pub struct ExInvalidOutputSize(blake2::digest::InvalidOutputSize);

/// The unkeyed BLAKE2b hash of `data` with an output of `size` bytes, as
/// the `blake2` crate computes it. Meaningful for sizes from 1 to 64.
pub uninterp spec fn blake2b(data: Seq<u8>, size: nat) -> Seq<u8>;

/// The lowercase hexadecimal digit of a value below sixteen.
pub open spec fn hex_digit(value: int) -> char {
    seq!['0', '1', '2', '3', '4', '5', '6', '7', '8', '9', 'a', 'b', 'c', 'd', 'e', 'f'][value]
}

/// The lowercase hexadecimal text of `data`: two digits for each byte, the
/// high half first.
pub open spec fn hex_string(data: Seq<u8>) -> Seq<char> {
    Seq::new(
        2 * data.len(),
        |i: int|
            if i % 2 == 0 {
                hex_digit(data[i / 2] as int / 16)
            } else {
                hex_digit(data[i / 2] as int % 16)
            },
    )
}

/// The digest of `data` from a hash of `size` bytes.
pub open spec fn digest_text(data: Seq<u8>, size: nat) -> Seq<char> {
    hex_string(blake2b(data, size))
}

/// Runs `blake2::VarBlake2b` over `data`: `new` with the output length,
/// one `update` with all of `data`, and `finalize_boxed`. `new` refuses
/// a length of zero and one above 64 and accepts every other; the hash that
/// comes out has the length asked for and depends on `data` and the length
/// alone.
#[verifier::external_body]
fn blake2b_var(data: &[u8], size: usize) -> (hash: Result<Vec<u8>, blake2::digest::InvalidOutputSize>)
    ensures
        hash is Ok <==> 1 <= size <= 64,
        hash matches Ok(bytes) ==> bytes@ == blake2b(data@, size as nat) && bytes@.len() == size,
{
    let mut hasher = blake2::VarBlake2b::new(size)?;
    hasher.update(data);
    Ok(hasher.finalize_boxed().into_vec())
}

/// Calls `hex::encode`, which writes each byte as two lowercase hexadecimal
/// digits, the high half first.
#[verifier::external_body]
fn hex_encode(data: &[u8]) -> (text: String)
    ensures
        text@ == hex_string(data@),
{
    hex::encode(data)
}

/// The lowercase hexadecimal text of a hash.
pub fn hex_digest(hash: &[u8]) -> (text: String)
    ensures
        text@ == hex_string(hash@),
        text@.len() == 2 * hash@.len(),
{
    hex_encode(hash)
}

/// The digest of a file's bytes from a hash of `size` bytes. It depends on
/// the bytes and the size alone. A size that BLAKE2b does not offer is
/// refused.
pub fn content_digest(data: &[u8], size: usize) -> (digest: Result<String, ProcessError>)
    ensures
        digest is Ok <==> 1 <= size <= MAX_DIGEST_BYTES,
        digest matches Ok(text) ==> text@ == digest_text(data@, size as nat) && text@.len() == 2
            * size,
        digest matches Err(e) ==> e == ProcessError::Hash,
{
    match blake2b_var(data, size) {
        Ok(hash) => Ok(hex_digest(hash.as_slice())),
        Err(_) => Err(ProcessError::Hash),
    }
}

} // verus!
