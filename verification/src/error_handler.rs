//! The error type shared by the image buffer and by callers that write images out.

use vstd::prelude::*;
use vstd::std_specs::convert::FromSpecImpl;

verus! {

/// `std::io::Error`, carried through as an opaque value: nothing is claimed
/// about what is inside it.
#[verifier::external_type_specification]
#[verifier::external_body]
pub struct ExIoError(std::io::Error);

pub type RayTracerResult<T> = Result<T, RayTracerError>;

/// What can go wrong between a render and the file it is written to.
#[derive(Debug)]
pub enum RayTracerError {
    /// A pixel coordinate lies outside the image.
    OutsideImageBuffer,
    /// Writing an image out failed.
    IOError(std::io::Error),
}

impl From<std::io::Error> for RayTracerError {
    /// Wraps an I/O error, so that `?` can pass it on.
    fn from(err: std::io::Error) -> (e: Self) {
        RayTracerError::IOError(err)
    }
}

impl FromSpecImpl<std::io::Error> for RayTracerError {
    open spec fn obeys_from_spec() -> bool {
        true
    }

    open spec fn from_spec(err: std::io::Error) -> Self {
        RayTracerError::IOError(err)
    }
}

} // verus!
