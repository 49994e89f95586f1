//! Content digests, by which a retrieved file is compared with the stored
//! copy.

use vstd::prelude::*;
use sha2::{Digest, Sha256};
use crate::archive::FileData;

verus! {

/// The SHA-256 digest of `data`.
pub uninterp spec fn sha256(data: Seq<u8>) -> Seq<u8>;

/// `Sha256::digest`: the 32 bytes of the SHA-256 digest of `data`.
#[verifier::external_body]
fn sha256_digest(data: &Vec<u8>) -> (digest: Vec<u8>)
    ensures
        digest@ == sha256(data@),
{
    Sha256::digest(data).iter().cloned().collect()
}

/// The digest of a stored copy, given its content.
pub fn sha256sum_file(content: &Vec<u8>) -> (digest: Vec<u8>)
    ensures
        digest@ == sha256(content@),
{
    sha256_digest(content)
}

/// The digest of a file taken out of an archive.
pub fn sha256sum_mem(data: &FileData) -> (digest: Vec<u8>)
    ensures
        digest@ == sha256(data@.data),
{
    sha256_digest(&data.data)
}

/// Whether a file with content `data` is new to a store that holds `stored`
/// under its name: nothing is stored, or the digests differ.
pub open spec fn differs_from_stored(stored: Option<Seq<u8>>, data: Seq<u8>) -> bool {
    match stored {
        None => true,
        Some(existing) => sha256(existing) != sha256(data),
    }
}

/// Whether `file_data` has to be written: the store holds no copy under its
/// name (`stored` is `None`), or holds one with another digest.
pub fn is_new(stored: &Option<Vec<u8>>, file_data: &FileData) -> (r: bool)
    ensures
        r == differs_from_stored(
            match stored {
                Some(existing) => Some(existing@),
                None => None,
            },
            file_data@.data,
        ),
{
    match stored {
        None => true,
        Some(existing) => {
            let existing_hash = sha256sum_file(existing);
            let new_hash = sha256sum_mem(file_data);
            let same = existing_hash == new_hash;
            proof {
                if same {
                    assert(existing_hash@ =~= new_hash@);
                }
            }
            !same
        },
    }
}

} // verus!
