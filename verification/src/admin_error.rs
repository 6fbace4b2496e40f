//! The errors of the administration interface.
use crate::common_error::{
    body_text, common_message, common_status, error_body, CommonError, HelperError,
};
use vstd::prelude::*;

verus! {

/// An error of the administration interface.
#[derive(Debug, Clone, PartialEq, Eq)]
pub enum Error {
    /// An error that any interface can answer with.
    CommonError(CommonError),
    /// The access key does not exist.
    NoSuchAccessKey,
}

/// The HTTP status that stands for an error.
pub open spec fn status_of(e: Error) -> u16 {
    match e {
        Error::CommonError(c) => common_status(c),
        Error::NoSuchAccessKey => 404,
    }
}

/// The text of an error.
pub open spec fn message_of(e: Error) -> Seq<char> {
    match e {
        Error::CommonError(c) => common_message(c),
        Error::NoSuchAccessKey => "Access key not found"@,
    }
}

/// The error of this interface that an error of the helpers becomes.
pub open spec fn of_helper(err: HelperError) -> Error {
    match err {
        HelperError::Internal(i) => Error::CommonError(CommonError::InternalError(i)),
        HelperError::BadRequest(b) => Error::CommonError(CommonError::BadRequest(b)),
        HelperError::InvalidBucketName(_) => Error::CommonError(CommonError::InvalidBucketName),
        HelperError::NoSuchBucket(_) => Error::CommonError(CommonError::NoSuchBucket),
        HelperError::NoSuchAccessKey(_) => Error::NoSuchAccessKey,
    }
}

impl From<CommonError> for Error {
    fn from(err: CommonError) -> (r: Error) {
        Error::CommonError(err)
    }
}

impl vstd::std_specs::convert::FromSpecImpl<CommonError> for Error {
    open spec fn obeys_from_spec() -> bool {
        true
    }

    open spec fn from_spec(err: CommonError) -> Error {
        Error::CommonError(err)
    }
}

impl From<HelperError> for Error {
    fn from(err: HelperError) -> (r: Error) {
        match err {
            HelperError::Internal(i) => Error::CommonError(CommonError::InternalError(i)),
            HelperError::BadRequest(b) => Error::CommonError(CommonError::BadRequest(b)),
            HelperError::InvalidBucketName(_) => Error::CommonError(CommonError::InvalidBucketName),
            HelperError::NoSuchBucket(_) => Error::CommonError(CommonError::NoSuchBucket),
            HelperError::NoSuchAccessKey(_) => Error::NoSuchAccessKey,
        }
    }
}

impl vstd::std_specs::convert::FromSpecImpl<HelperError> for Error {
    open spec fn obeys_from_spec() -> bool {
        true
    }

    open spec fn from_spec(err: HelperError) -> Error {
        of_helper(err)
    }
}

impl Error {
    /// The HTTP status code that answers a request that failed with `self`.
    pub fn http_status_code(&self) -> (code: u16)
        ensures
            code == status_of(*self),
    {
        match self {
            Error::CommonError(c) => c.http_status_code(),
            Error::NoSuchAccessKey => 404,
        }
    }

    /// The headers that the error adds to the answer: none.
    pub fn add_http_headers(&self, header_map: &mut Vec<(String, String)>)
        ensures
            *final(header_map) == *old(header_map),
    {
    }

    /// The text of the error.
    pub fn message(&self) -> (r: String)
        ensures
            r@ == message_of(*self),
    {
        match self {
            Error::CommonError(c) => c.message(),
            Error::NoSuchAccessKey => String::from_str("Access key not found"),
        }
    }

    /// The body of the answer that reports the error.
    pub fn http_body(&self, garage_region: &str, path: &str) -> (r: String)
        ensures
            r@ == error_body(message_of(*self), garage_region@, path@),
    {
        let m = self.message();
        body_text(&m, garage_region, path)
    }
}

} // verus!
