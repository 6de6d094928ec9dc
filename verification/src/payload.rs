//! Message payloads travel to sessions as `bytes::Bytes`: one cheap
//! reference-counted chunk shared by every delivery, exactly as the service
//! hands them to its sessions. The chunk is opaque to the verifier, so its
//! contents are named by `bytes_view` and every conversion is a trusted
//! wrapper around the `bytes` crate.

use vstd::prelude::*;

verus! {

#[verifier::external_type_specification]
#[verifier::external_body]
pub struct ExBytes(bytes::Bytes);

/// The byte contents of a `bytes::Bytes` chunk.
pub uninterp spec fn bytes_view(b: bytes::Bytes) -> Seq<u8>;

/// Relies on `bytes::Bytes::from(Vec<u8>)`: the chunk holds exactly the bytes
/// of the vector.
#[verifier::external_body]
pub(crate) fn bytes_from_vec(v: Vec<u8>) -> (r: bytes::Bytes)
    ensures
        bytes_view(r) == v@,
{
    bytes::Bytes::from(v)
}

/// Relies on `<bytes::Bytes as Clone>::clone`: a new handle to the same
/// contents.
#[verifier::external_body]
pub(crate) fn bytes_clone(b: &bytes::Bytes) -> (r: bytes::Bytes)
    ensures
        bytes_view(r) == bytes_view(*b),
{
    b.clone()
}

/// Relies on `bytes::Bytes`'s deref to `[u8]` and `<[u8]>::to_vec`: copies the
/// contents out, unchanged.
#[verifier::external_body]
pub(crate) fn bytes_to_vec(b: &bytes::Bytes) -> (r: Vec<u8>)
    ensures
        r@ == bytes_view(*b),
{
    b.to_vec()
}

} // verus!
