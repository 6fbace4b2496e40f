//! The errors that the interfaces of the server share, and the errors of the
//! helpers below them.
use crate::error::InternalError;
use crate::text::prefixed;
use vstd::prelude::*;

verus! {

/// An error that any interface of the server can answer with.
#[derive(Debug, Clone, PartialEq, Eq)]
pub enum CommonError {
    /// A failure of the storage layers below.
    InternalError(InternalError),
    /// A failure of the HTTP server library.
    Hyper(String),
    /// A failure while building an HTTP message.
    Http(String),
    /// The request is not allowed.
    Forbidden(String),
    /// The request is invalid.
    BadRequest(String),
    /// The bucket does not exist.
    NoSuchBucket,
    /// A bucket of that name exists already.
    BucketAlreadyExists,
    /// The bucket to delete holds objects.
    BucketNotEmpty,
    /// The name can not be given to a bucket.
    InvalidBucketName,
}

/// An error of the helpers that look up buckets and keys.
#[derive(Debug, Clone, PartialEq, Eq)]
pub enum HelperError {
    Internal(InternalError),
    BadRequest(String),
    /// The name can not be given to a bucket.
    InvalidBucketName(String),
    /// No bucket of that name or identifier exists.
    NoSuchBucket(String),
    /// No access key of that identifier exists.
    NoSuchAccessKey(String),
}

/// An error of the layer that checks the signature of a request.
#[derive(Debug, Clone, PartialEq, Eq)]
pub enum SignatureError {
    CommonError(CommonError),
    AuthorizationHeaderMalformed(String),
    InvalidUtf8Str(String),
    InvalidHeader(String),
}

/// The HTTP status that stands for a common error.
pub open spec fn common_status(e: CommonError) -> u16 {
    match e {
        CommonError::InternalError(InternalError::Rpc(_)) => 503,
        CommonError::InternalError(_) | CommonError::Hyper(_) | CommonError::Http(_) => 500,
        CommonError::BadRequest(_) => 400,
        CommonError::Forbidden(_) => 403,
        CommonError::NoSuchBucket => 404,
        CommonError::BucketNotEmpty | CommonError::BucketAlreadyExists => 409,
        CommonError::InvalidBucketName => 400,
    }
}

/// The text of a common error.
pub open spec fn common_message(e: CommonError) -> Seq<char> {
    match e {
        CommonError::InternalError(InternalError::Rpc(m)) => "Internal error: RPC error: "@ + m@,
        CommonError::InternalError(InternalError::Message(m)) => "Internal error: "@ + m@,
        CommonError::Hyper(m) => "Internal error (Hyper error): "@ + m@,
        CommonError::Http(m) => "Internal error (HTTP error): "@ + m@,
        CommonError::Forbidden(m) => "Forbidden: "@ + m@,
        CommonError::BadRequest(m) => "Bad request: "@ + m@,
        CommonError::NoSuchBucket => "Bucket not found"@,
        CommonError::BucketAlreadyExists => "Bucket already exists"@,
        CommonError::BucketNotEmpty => "Tried to delete a non-empty bucket"@,
        CommonError::InvalidBucketName => "Invalid bucket name"@,
    }
}

/// The text of an error of the helpers.
pub open spec fn helper_message(e: HelperError) -> Seq<char> {
    match e {
        HelperError::Internal(InternalError::Rpc(m)) => "Internal error: RPC error: "@ + m@,
        HelperError::Internal(InternalError::Message(m)) => "Internal error: "@ + m@,
        HelperError::BadRequest(m) => "Bad request: "@ + m@,
        HelperError::InvalidBucketName(m) => "Invalid bucket name: "@ + m@,
        HelperError::NoSuchBucket(m) => "Bucket not found: "@ + m@,
        HelperError::NoSuchAccessKey(m) => "Access key not found: "@ + m@,
    }
}

/// The text of an answer that reports an error: the text of the error, the
/// region and the path.
pub open spec fn error_body(message: Seq<char>, region: Seq<char>, path: Seq<char>) -> Seq<char> {
    "ERROR: "@ + message + "\n\ngarage region: "@ + region + "\npath: "@ + path
}

/// The body of the answer that reports an error with the given text.
pub(crate) fn body_text(message: &String, garage_region: &str, path: &str) -> (r: String)
    ensures
        r@ == error_body(message@, garage_region@, path@),
{
    let mut s = String::from_str("ERROR: ");
    s.append(message.as_str());
    s.append("\n\ngarage region: ");
    s.append(garage_region);
    s.append("\npath: ");
    s.append(path);
    s
}

impl CommonError {
    /// The HTTP status code that answers a request that failed with `self`.
    pub fn http_status_code(&self) -> (code: u16)
        ensures
            code == common_status(*self),
    {
        match self {
            CommonError::InternalError(InternalError::Rpc(_)) => 503,
            CommonError::InternalError(_) | CommonError::Hyper(_) | CommonError::Http(_) => 500,
            CommonError::BadRequest(_) => 400,
            CommonError::Forbidden(_) => 403,
            CommonError::NoSuchBucket => 404,
            CommonError::BucketNotEmpty | CommonError::BucketAlreadyExists => 409,
            CommonError::InvalidBucketName => 400,
        }
    }

    /// The text of the error.
    pub fn message(&self) -> (r: String)
        ensures
            r@ == common_message(*self),
    {
        match self {
            CommonError::InternalError(InternalError::Rpc(m)) => prefixed(
                "Internal error: RPC error: ",
                m,
            ),
            CommonError::InternalError(InternalError::Message(m)) => prefixed(
                "Internal error: ",
                m,
            ),
            CommonError::Hyper(m) => prefixed("Internal error (Hyper error): ", m),
            CommonError::Http(m) => prefixed("Internal error (HTTP error): ", m),
            CommonError::Forbidden(m) => prefixed("Forbidden: ", m),
            CommonError::BadRequest(m) => prefixed("Bad request: ", m),
            CommonError::NoSuchBucket => String::from_str("Bucket not found"),
            CommonError::BucketAlreadyExists => String::from_str("Bucket already exists"),
            CommonError::BucketNotEmpty => String::from_str("Tried to delete a non-empty bucket"),
            CommonError::InvalidBucketName => String::from_str("Invalid bucket name"),
        }
    }
}

impl HelperError {
    /// The text of the error.
    pub fn message(&self) -> (r: String)
        ensures
            r@ == helper_message(*self),
    {
        match self {
            HelperError::Internal(InternalError::Rpc(m)) => prefixed(
                "Internal error: RPC error: ",
                m,
            ),
            HelperError::Internal(InternalError::Message(m)) => prefixed("Internal error: ", m),
            HelperError::BadRequest(m) => prefixed("Bad request: ", m),
            HelperError::InvalidBucketName(m) => prefixed("Invalid bucket name: ", m),
            HelperError::NoSuchBucket(m) => prefixed("Bucket not found: ", m),
            HelperError::NoSuchAccessKey(m) => prefixed("Access key not found: ", m),
        }
    }
}

} // verus!
