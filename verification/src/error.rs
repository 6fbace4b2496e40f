//! The errors of the upload paths, their HTTP status and their text.
use crate::text::prefixed;
use vstd::prelude::*;
use vstd::string::to_string_from_display_ensures;

verus! {

/// A failure below this library: of the table engine, the block store or the
/// cluster layer.
#[derive(Debug, Clone, PartialEq, Eq)]
pub enum InternalError {
    /// A remote call failed; the failure may be transient.
    Rpc(String),
    /// Any other failure, with its message.
    Message(String),
}

/// An error of the object interface.
#[derive(Debug, Clone, PartialEq, Eq)]
pub enum Error {
    /// A failure of the storage layers below.
    InternalError(InternalError),
    /// A failure of the HTTP server library.
    Hyper(String),
    /// A failure while building an HTTP message.
    HTTP(String),
    /// The request is refused: a quota is reached or a permission is missing.
    Forbidden(String),
    /// The requested object does not exist.
    NotFound,
    /// A byte string of the request is not UTF-8.
    InvalidUTF8Str(String),
    /// An owned byte string of the request is not UTF-8.
    InvalidUTF8String(String),
    /// Some base64 text of the request is malformed.
    InvalidBase64(String),
    /// The XML body of the request is malformed.
    InvalidXML(String),
    /// A header of the request holds bytes that are not visible ASCII.
    InvalidHeader(String),
    /// The range header of the request is malformed.
    InvalidRange(String),
    /// The request is invalid for another reason.
    BadRequest(String),
    /// The key does not exist.
    NoSuchKey,
    /// The upload id is malformed or names no upload in progress.
    NoSuchUpload,
    /// A listed part is not the part that was uploaded.
    InvalidPart,
    /// The part numbers of the list do not increase.
    InvalidPartOrder,
    /// The list of parts is empty.
    EntityTooSmall,
    /// The request asks for something that is not supported.
    NotImplemented(String),
}

/// The mathematical value of an [`InternalError`].
pub enum InternalErrorView {
    Rpc(Seq<char>),
    Message(Seq<char>),
}

/// The mathematical value of an [`Error`].
pub enum ErrorView {
    InternalError(InternalErrorView),
    Hyper(Seq<char>),
    HTTP(Seq<char>),
    Forbidden(Seq<char>),
    NotFound,
    InvalidUTF8Str(Seq<char>),
    InvalidUTF8String(Seq<char>),
    InvalidBase64(Seq<char>),
    InvalidXML(Seq<char>),
    InvalidHeader(Seq<char>),
    InvalidRange(Seq<char>),
    BadRequest(Seq<char>),
    NoSuchKey,
    NoSuchUpload,
    InvalidPart,
    InvalidPartOrder,
    EntityTooSmall,
    NotImplemented(Seq<char>),
}

impl View for InternalError {
    type V = InternalErrorView;

    open spec fn view(&self) -> InternalErrorView {
        match self {
            InternalError::Rpc(m) => InternalErrorView::Rpc(m@),
            InternalError::Message(m) => InternalErrorView::Message(m@),
        }
    }
}

impl View for Error {
    type V = ErrorView;

    open spec fn view(&self) -> ErrorView {
        match self {
            Error::InternalError(e) => ErrorView::InternalError(e@),
            Error::Hyper(m) => ErrorView::Hyper(m@),
            Error::HTTP(m) => ErrorView::HTTP(m@),
            Error::Forbidden(m) => ErrorView::Forbidden(m@),
            Error::NotFound => ErrorView::NotFound,
            Error::InvalidUTF8Str(m) => ErrorView::InvalidUTF8Str(m@),
            Error::InvalidUTF8String(m) => ErrorView::InvalidUTF8String(m@),
            Error::InvalidBase64(m) => ErrorView::InvalidBase64(m@),
            Error::InvalidXML(m) => ErrorView::InvalidXML(m@),
            Error::InvalidHeader(m) => ErrorView::InvalidHeader(m@),
            Error::InvalidRange(m) => ErrorView::InvalidRange(m@),
            Error::BadRequest(m) => ErrorView::BadRequest(m@),
            Error::NoSuchKey => ErrorView::NoSuchKey,
            Error::NoSuchUpload => ErrorView::NoSuchUpload,
            Error::InvalidPart => ErrorView::InvalidPart,
            Error::InvalidPartOrder => ErrorView::InvalidPartOrder,
            Error::EntityTooSmall => ErrorView::EntityTooSmall,
            Error::NotImplemented(m) => ErrorView::NotImplemented(m@),
        }
    }
}

/// The HTTP status that stands for an error.
pub open spec fn status_of(e: ErrorView) -> u16 {
    match e {
        ErrorView::NotFound | ErrorView::NoSuchKey | ErrorView::NoSuchUpload => 404,
        ErrorView::Forbidden(_) => 403,
        ErrorView::InternalError(InternalErrorView::Rpc(_)) => 503,
        ErrorView::InternalError(_) | ErrorView::Hyper(_) | ErrorView::HTTP(_) => 500,
        ErrorView::NotImplemented(_) => 501,
        _ => 400,
    }
}

/// The text of an error, as its body shows it.
pub open spec fn message_of(e: ErrorView) -> Seq<char> {
    match e {
        ErrorView::InternalError(InternalErrorView::Rpc(m)) => "Internal error: RPC error: "@ + m,
        ErrorView::InternalError(InternalErrorView::Message(m)) => "Internal error: "@ + m,
        ErrorView::Hyper(m) => "Internal error (Hyper error): "@ + m,
        ErrorView::HTTP(m) => "Internal error (HTTP error): "@ + m,
        ErrorView::Forbidden(m) => "Forbidden: "@ + m,
        ErrorView::NotFound => "Not found"@,
        ErrorView::InvalidUTF8Str(m) => "Invalid UTF-8: "@ + m,
        ErrorView::InvalidUTF8String(m) => "Invalid UTF-8: "@ + m,
        ErrorView::InvalidBase64(m) => "Invalid base64: "@ + m,
        ErrorView::InvalidXML(m) => "Invalid XML: "@ + m,
        ErrorView::InvalidHeader(m) => "Invalid header value: "@ + m,
        ErrorView::InvalidRange(m) => "Invalid HTTP range: "@ + m,
        ErrorView::BadRequest(m) => "Bad request: "@ + m,
        ErrorView::NoSuchKey => "Key not found"@,
        ErrorView::NoSuchUpload => "Upload not found"@,
        ErrorView::InvalidPart => "Part not found or invalid"@,
        ErrorView::InvalidPartOrder => "Parts are not given in increasing order"@,
        ErrorView::EntityTooSmall => "The list of parts is empty"@,
        ErrorView::NotImplemented(m) => "Not implemented: "@ + m,
    }
}

/// The plain-text body of an error: its text, the region and the path.
pub open spec fn body_of(e: ErrorView, region: Seq<char>, path: Seq<char>) -> Seq<char> {
    "ERROR: "@ + message_of(e) + "\n\ngarage region: "@ + region + "\npath: "@ + path
}

impl Error {
    /// An error of kind `BadRequest` with the given message.
    pub fn bad_request(msg: &str) -> (e: Error)
        ensures
            e@ == ErrorView::BadRequest(msg@),
    {
        Error::BadRequest(String::from_str(msg))
    }

    /// An error of kind `Forbidden` with the given message.
    pub fn forbidden(msg: &str) -> (e: Error)
        ensures
            e@ == ErrorView::Forbidden(msg@),
    {
        Error::Forbidden(String::from_str(msg))
    }

    /// The HTTP status code that answers a request that failed with `self`.
    pub fn http_status_code(&self) -> (code: u16)
        ensures
            code == status_of(self@),
    {
        match self {
            Error::NotFound | Error::NoSuchKey | Error::NoSuchUpload => 404,
            Error::Forbidden(_) => 403,
            Error::InternalError(InternalError::Rpc(_)) => 503,
            Error::InternalError(_) | Error::Hyper(_) | Error::HTTP(_) => 500,
            Error::NotImplemented(_) => 501,
            _ => 400,
        }
    }

    /// The text of the error.
    pub fn message(&self) -> (r: String)
        ensures
            r@ == message_of(self@),
    {
        match self {
            Error::InternalError(InternalError::Rpc(m)) => prefixed(
                "Internal error: RPC error: ",
                m,
            ),
            Error::InternalError(InternalError::Message(m)) => prefixed("Internal error: ", m),
            Error::Hyper(m) => prefixed("Internal error (Hyper error): ", m),
            Error::HTTP(m) => prefixed("Internal error (HTTP error): ", m),
            Error::Forbidden(m) => prefixed("Forbidden: ", m),
            Error::NotFound => String::from_str("Not found"),
            Error::InvalidUTF8Str(m) => prefixed("Invalid UTF-8: ", m),
            Error::InvalidUTF8String(m) => prefixed("Invalid UTF-8: ", m),
            Error::InvalidBase64(m) => prefixed("Invalid base64: ", m),
            Error::InvalidXML(m) => prefixed("Invalid XML: ", m),
            Error::InvalidHeader(m) => prefixed("Invalid header value: ", m),
            Error::InvalidRange(m) => prefixed("Invalid HTTP range: ", m),
            Error::BadRequest(m) => prefixed("Bad request: ", m),
            Error::NoSuchKey => String::from_str("Key not found"),
            Error::NoSuchUpload => String::from_str("Upload not found"),
            Error::InvalidPart => String::from_str("Part not found or invalid"),
            Error::InvalidPartOrder => String::from_str("Parts are not given in increasing order"),
            Error::EntityTooSmall => String::from_str("The list of parts is empty"),
            Error::NotImplemented(m) => prefixed("Not implemented: ", m),
        }
    }

    /// The body of the response that reports the error.
    pub fn http_body(&self, garage_region: &str, path: &str) -> (r: String)
        ensures
            r@ == body_of(self@, garage_region@, path@),
    {
        let mut s = String::from_str("ERROR: ");
        let m = self.message();
        s.append(m.as_str());
        s.append("\n\ngarage region: ");
        s.append(garage_region);
        s.append("\npath: ");
        s.append(path);
        s
    }
}

/// Turns a failure or an absence into an error of kind `BadRequest`.
pub trait OkOrBadRequest {
    type S2;

    fn ok_or_bad_request(self, reason: &'static str) -> Self::S2;
}

impl<T, E: core::fmt::Display> OkOrBadRequest for Result<T, E> {
    type S2 = Result<T, Error>;

    /// The success unchanged; for a failure the reason, a colon and the text
    /// of the failure.
    fn ok_or_bad_request(self, reason: &'static str) -> (r: Result<T, Error>)
        ensures
            match self {
                Ok(x) => r == Ok::<T, Error>(x),
                Err(e) => r matches Err(Error::BadRequest(m)) && exists|t: String|
                    to_string_from_display_ensures::<E>(&e, t) && m@ == reason@ + ": "@ + t@,
            },
    {
        match self {
            Ok(x) => Ok(x),
            Err(e) => {
                let t = e.to_string();
                let mut m = String::from_str(reason);
                m.append(": ");
                m.append(t.as_str());
                Err(Error::BadRequest(m))
            },
        }
    }
}

impl<T> OkOrBadRequest for Option<T> {
    type S2 = Result<T, Error>;

    /// The value unchanged; for an absence the reason.
    fn ok_or_bad_request(self, reason: &'static str) -> (r: Result<T, Error>)
        ensures
            match self {
                Some(x) => r == Ok::<T, Error>(x),
                None => r matches Err(e) && e@ == ErrorView::BadRequest(reason@),
            },
    {
        match self {
            Some(x) => Ok(x),
            None => Err(Error::bad_request(reason)),
        }
    }
}

/// Turns a failure or an absence into an error of kind `InternalError`.
pub trait OkOrInternalError {
    type S2;

    fn ok_or_internal_error(self, reason: &'static str) -> Self::S2;
}

impl<T, E: core::fmt::Display> OkOrInternalError for Result<T, E> {
    type S2 = Result<T, Error>;

    /// The success unchanged; for a failure the reason, a colon and the text
    /// of the failure.
    fn ok_or_internal_error(self, reason: &'static str) -> (r: Result<T, Error>)
        ensures
            match self {
                Ok(x) => r == Ok::<T, Error>(x),
                Err(e) => r matches Err(Error::InternalError(InternalError::Message(m)))
                    && exists|t: String|
                    to_string_from_display_ensures::<E>(&e, t) && m@ == reason@ + ": "@ + t@,
            },
    {
        match self {
            Ok(x) => Ok(x),
            Err(e) => {
                let t = e.to_string();
                let mut m = String::from_str(reason);
                m.append(": ");
                m.append(t.as_str());
                Err(Error::InternalError(InternalError::Message(m)))
            },
        }
    }
}

impl<T> OkOrInternalError for Option<T> {
    type S2 = Result<T, Error>;

    /// The value unchanged; for an absence the reason.
    fn ok_or_internal_error(self, reason: &'static str) -> (r: Result<T, Error>)
        ensures
            match self {
                Some(x) => r == Ok::<T, Error>(x),
                None => r matches Err(e) && e@ == ErrorView::InternalError(
                    InternalErrorView::Message(reason@),
                ),
            },
    {
        match self {
            Some(x) => Ok(x),
            None => Err(Error::InternalError(InternalError::Message(String::from_str(reason)))),
        }
    }
}

} // verus!
