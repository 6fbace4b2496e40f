//! The errors of the key-value interface.
use crate::common_error::{
    body_text, common_message, common_status, error_body, helper_message, CommonError,
    HelperError, SignatureError,
};
use crate::text::prefixed;
use vstd::prelude::*;

verus! {

/// An error of the key-value interface.
#[derive(Debug, Clone, PartialEq, Eq)]
pub enum Error {
    /// An error that any interface can answer with.
    CommonError(CommonError),
    /// The authorization header is malformed.
    AuthorizationHeaderMalformed(String),
    /// The requested item does not exist.
    NoSuchKey,
    /// Some base64 text of the request is malformed.
    InvalidBase64(String),
    /// A header of the request holds an invalid value.
    InvalidHeader(String),
    /// The request asks for a format that can not be given.
    NotAcceptable(String),
    /// The path or a parameter of the request is not UTF-8.
    InvalidUtf8Str(String),
}

/// The HTTP status that stands for an error.
pub open spec fn status_of(e: Error) -> u16 {
    match e {
        Error::CommonError(c) => common_status(c),
        Error::NoSuchKey => 404,
        Error::NotAcceptable(_) => 406,
        Error::AuthorizationHeaderMalformed(_) | Error::InvalidBase64(_) | Error::InvalidHeader(_)
        | Error::InvalidUtf8Str(_) => 400,
    }
}

/// The text of an error.
pub open spec fn message_of(e: Error) -> Seq<char> {
    match e {
        Error::CommonError(c) => common_message(c),
        Error::AuthorizationHeaderMalformed(m) => "Authorization header malformed, expected scope: "@
            + m@,
        Error::NoSuchKey => "Key not found"@,
        Error::InvalidBase64(m) => "Invalid base64: "@ + m@,
        Error::InvalidHeader(m) => "Invalid header value: "@ + m@,
        Error::NotAcceptable(m) => "Not acceptable: "@ + m@,
        Error::InvalidUtf8Str(m) => "Invalid UTF-8: "@ + m@,
    }
}

/// The error of this interface that an error of the signature layer
/// becomes.
pub open spec fn of_signature(err: SignatureError) -> Error {
    match err {
        SignatureError::CommonError(c) => Error::CommonError(c),
        SignatureError::AuthorizationHeaderMalformed(c) => Error::AuthorizationHeaderMalformed(c),
        SignatureError::InvalidUtf8Str(i) => Error::InvalidUtf8Str(i),
        SignatureError::InvalidHeader(h) => Error::InvalidHeader(h),
    }
}

impl From<CommonError> for Error {
    fn from(err: CommonError) -> (r: Error) {
        Error::CommonError(err)
    }
}

impl vstd::std_specs::convert::FromSpecImpl<CommonError> for Error {
    open spec fn obeys_from_spec() -> bool {
        true
    }

    open spec fn from_spec(err: CommonError) -> Error {
        Error::CommonError(err)
    }
}

impl From<SignatureError> for Error {
    fn from(err: SignatureError) -> (r: Error) {
        match err {
            SignatureError::CommonError(c) => Error::CommonError(c),
            SignatureError::AuthorizationHeaderMalformed(c) => Error::AuthorizationHeaderMalformed(
                c,
            ),
            SignatureError::InvalidUtf8Str(i) => Error::InvalidUtf8Str(i),
            SignatureError::InvalidHeader(h) => Error::InvalidHeader(h),
        }
    }
}

impl vstd::std_specs::convert::FromSpecImpl<SignatureError> for Error {
    open spec fn obeys_from_spec() -> bool {
        true
    }

    open spec fn from_spec(err: SignatureError) -> Error {
        of_signature(err)
    }
}

impl Error {
    /// The error of this interface that an error of the helpers becomes:
    /// an error about a bucket stays one, and any other is a bad request
    /// with the text of the error.
    pub fn from_helper(err: HelperError) -> (r: Error)
        ensures
            match err {
                HelperError::Internal(i) => r == Error::CommonError(CommonError::InternalError(i)),
                HelperError::BadRequest(b) => r == Error::CommonError(CommonError::BadRequest(b)),
                HelperError::InvalidBucketName(_) => r == Error::CommonError(
                    CommonError::InvalidBucketName,
                ),
                HelperError::NoSuchBucket(_) => r == Error::CommonError(CommonError::NoSuchBucket),
                HelperError::NoSuchAccessKey(_) => r matches Error::CommonError(
                    CommonError::BadRequest(m),
                ) && m@ == helper_message(err),
            },
    {
        match err {
            HelperError::Internal(i) => Error::CommonError(CommonError::InternalError(i)),
            HelperError::BadRequest(b) => Error::CommonError(CommonError::BadRequest(b)),
            HelperError::InvalidBucketName(_) => Error::CommonError(CommonError::InvalidBucketName),
            HelperError::NoSuchBucket(_) => Error::CommonError(CommonError::NoSuchBucket),
            e => {
                let m = e.message();
                Error::CommonError(CommonError::BadRequest(m))
            },
        }
    }

    /// The HTTP status code that answers a request that failed with `self`.
    pub fn http_status_code(&self) -> (code: u16)
        ensures
            code == status_of(*self),
    {
        match self {
            Error::CommonError(c) => c.http_status_code(),
            Error::NoSuchKey => 404,
            Error::NotAcceptable(_) => 406,
            Error::AuthorizationHeaderMalformed(_)
            | Error::InvalidBase64(_)
            | Error::InvalidHeader(_)
            | Error::InvalidUtf8Str(_) => 400,
        }
    }

    /// The headers that the error adds to the answer: none.
    pub fn add_http_headers(&self, header_map: &mut Vec<(String, String)>)
        ensures
            *final(header_map) == *old(header_map),
    {
    }

    /// The text of the error.
    pub fn message(&self) -> (r: String)
        ensures
            r@ == message_of(*self),
    {
        match self {
            Error::CommonError(c) => c.message(),
            Error::AuthorizationHeaderMalformed(m) => prefixed(
                "Authorization header malformed, expected scope: ",
                m,
            ),
            Error::NoSuchKey => String::from_str("Key not found"),
            Error::InvalidBase64(m) => prefixed("Invalid base64: ", m),
            Error::InvalidHeader(m) => prefixed("Invalid header value: ", m),
            Error::NotAcceptable(m) => prefixed("Not acceptable: ", m),
            Error::InvalidUtf8Str(m) => prefixed("Invalid UTF-8: ", m),
        }
    }

    /// The body of the answer that reports the error.
    pub fn http_body(&self, garage_region: &str, path: &str) -> (r: String)
        ensures
            r@ == error_body(message_of(*self), garage_region@, path@),
    {
        let m = self.message();
        body_text(&m, garage_region, path)
    }
}

} // verus!
