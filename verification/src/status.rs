//! The gRPC status that a refused call is answered with.
use vstd::prelude::*;

verus! {

/// `tonic::Status`, carried through the library as it is: the mock keeps the
/// status a test configured and hands it back, without looking inside.
#[verifier::external_type_specification]
#[verifier::external_body]
pub struct ExStatus(tonic::Status);

/// Calls `<tonic::Status as Clone>::clone`. `Status` derives `Clone` over all of
/// its fields (code, message, details, metadata and the shared source), so the
/// contract claims that the copy is the same status.
#[verifier::external_body]
pub(crate) fn copy_status(status: &tonic::Status) -> (copy: tonic::Status)
    ensures
        copy == *status,
{
    status.clone()
}

} // verus!
