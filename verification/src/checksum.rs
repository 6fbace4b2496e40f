//! The checksums of a request, held against the digests of the data.
use crate::data;
use crate::digest::{sha256_of, sha256sum};
use crate::encoding::{base64_encode, base64_text};
use crate::error::{Error, ErrorView};
use crate::text::{opt_chars, str_eq, trim_quotes, trim_quotes_spec};
use vstd::prelude::*;

verus! {

/// What the checksums of a request, held against the digests of the data,
/// come to. `md5_base64` is the base64 text of the MD5 digest of the data.
/// The header's value counts without the double quotes around it.
pub open spec fn checksum_verdict(
    md5_base64: Seq<char>,
    data_sha256sum: Seq<u8>,
    content_md5: Option<Seq<char>>,
    content_sha256: Option<data::Hash>,
) -> Result<(), ErrorView> {
    if content_sha256 is Some && content_sha256->0@ != data_sha256sum {
        Err(ErrorView::BadRequest("Unable to validate x-amz-content-sha256"@))
    } else if content_md5 is Some && trim_quotes_spec(content_md5->0) != md5_base64 {
        Err(ErrorView::BadRequest("Unable to validate content-md5"@))
    } else {
        Ok(())
    }
}

/// Holds the checksums of a request against the SHA-256 digest of the data
/// and the base64 text of their MD5 digest.
pub fn check_checksums(
    md5_base64: &str,
    data_sha256sum: data::Hash,
    content_md5: Option<&str>,
    content_sha256: Option<data::Hash>,
) -> (r: Result<(), Error>)
    ensures
        match r {
            Ok(()) => checksum_verdict(
                md5_base64@,
                data_sha256sum@,
                opt_chars(content_md5),
                content_sha256,
            ) is Ok,
            Err(e) => checksum_verdict(
                md5_base64@,
                data_sha256sum@,
                opt_chars(content_md5),
                content_sha256,
            ) == Err::<(), ErrorView>(e@),
        },
{
    if let Some(expected_sha256) = content_sha256 {
        if expected_sha256 != data_sha256sum {
            return Err(Error::bad_request("Unable to validate x-amz-content-sha256"));
        }
    }
    if let Some(expected_md5) = content_md5 {
        if !str_eq(trim_quotes(expected_md5), md5_base64) {
            return Err(Error::bad_request("Unable to validate content-md5"));
        }
    }
    Ok(())
}

/// Validates the MD5 digest of the data against the `content-md5` header
/// and their SHA-256 digest against the signed `x-amz-content-sha256`.
pub fn ensure_checksum_matches(
    data_md5sum: &[u8; 16],
    data_sha256sum: data::Hash,
    content_md5: Option<&str>,
    content_sha256: Option<data::Hash>,
) -> (r: Result<(), Error>)
    ensures
        match r {
            Ok(()) => checksum_verdict(
                base64_text(data_md5sum@),
                data_sha256sum@,
                opt_chars(content_md5),
                content_sha256,
            ) is Ok,
            Err(e) => checksum_verdict(
                base64_text(data_md5sum@),
                data_sha256sum@,
                opt_chars(content_md5),
                content_sha256,
            ) == Err::<(), ErrorView>(e@),
        },
{
    let md5_base64 = base64_encode(data_md5sum);
    check_checksums(md5_base64.as_str(), data_sha256sum, content_md5, content_sha256)
}

/// Checks the body of a request against the SHA-256 digest that the
/// signature of the request covers.
pub fn verify_signed_content(expected_sha256: data::Hash, body: &[u8]) -> (r: Result<(), Error>)
    ensures
        match r {
            Ok(()) => expected_sha256@ == sha256_of(body@),
            Err(e) => expected_sha256@ != sha256_of(body@) && e@ == ErrorView::BadRequest(
                "Request content hash does not match signed hash"@,
            ),
        },
{
    check_signed_content(expected_sha256, sha256sum(body))
}

/// Checks the SHA-256 digest of the body of a request against the digest
/// that the signature of the request covers.
pub fn check_signed_content(expected_sha256: data::Hash, body_sha256: data::Hash) -> (r: Result<
    (),
    Error,
>)
    ensures
        match r {
            Ok(()) => expected_sha256@ == body_sha256@,
            Err(e) => expected_sha256@ != body_sha256@ && e@ == ErrorView::BadRequest(
                "Request content hash does not match signed hash"@,
            ),
        },
{
    if expected_sha256 != body_sha256 {
        return Err(Error::bad_request("Request content hash does not match signed hash"));
    }
    Ok(())
}

} // verus!
