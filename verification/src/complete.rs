//! Completing a multipart upload: the list of parts held against the
//! catalogue of the upload, the ETag and the size of the object.
use crate::data::Uuid;
use crate::data;
use crate::digest::{md5_absorbed, md5_of, Md5Hasher};
use crate::encoding::{hex_encode, hex_text};
use crate::error::{Error, ErrorView};
use crate::multipart::{decode_upload_id, opt_object, opt_version, upload_of};
use crate::object::{
    find_upload, object_with, DataView, HeadersView, MetaView, Object, ObjectVersion,
    ObjectVersionData, ObjectVersionMeta, ObjectVersionState, ObjectVersionView, ObjectView,
    StateView,
};
use crate::part_numbers::{check_block_parts, same_part_numbers};
use crate::parts_list::{
    parse_complete_multipart_upload, parts_of_body, parts_view, CompleteMultipartUploadPart,
    PartView,
};
use crate::quota::{check_quotas, quota_result, BucketCounters, BucketQuotas};
use crate::text::{decimal, str_eq, u64_to_string};
use crate::version::{blocks_size, etags_view, Version, VersionView};
use vstd::prelude::*;
use vstd::utf8::encode_utf8;

verus! {

/// Whether the part numbers strictly increase.
pub open spec fn strictly_increasing(parts: Seq<PartView>) -> bool {
    forall|i: int|
        0 <= i < parts.len() - 1 ==> (#[trigger] parts[i]).part_number < parts[i + 1].part_number
}

/// Whether the part numbers are 1, 2, 3 and so on.
pub open spec fn consecutive_from_one(parts: Seq<PartView>) -> bool {
    forall|i: int| 0 <= i < parts.len() ==> (#[trigger] parts[i]).part_number == i + 1
}

/// Whether the listed parts are, one by one, the parts that were received:
/// the same numbers with the same ETags, in the same order.
pub open spec fn same_parts(parts: Seq<PartView>, stored: Seq<(u64, Seq<char>)>) -> bool {
    &&& parts.len() == stored.len()
    &&& forall|i: int|
        0 <= i < parts.len() ==> (#[trigger] parts[i]).part_number == stored[i].0 && parts[i].etag
            == stored[i].1
}

/// The message of the error for part numbers with a gap.
pub open spec fn not_consecutive_message() -> Seq<char> {
    "Garage does not support completing a Multipart upload with non-consecutive part numbers. This is a restriction of Garage's data model, which might be fixed in a future release. See issue #204 for more information on this topic."@
}

/// The message of the error for blocks that belong to no listed part.
pub open spec fn parts_mismatch_message() -> Seq<char> {
    "Part numbers in block list and part list do not match. This can happen if a part was partially uploaded. Please abort the multipart upload and try again."@
}

/// The error, if any, that the list of parts of a request to complete an
/// upload meets against the catalogue of the upload. An empty list is the
/// first thing to be refused, whatever the catalogue holds.
pub open spec fn complete_checks(parts: Seq<PartView>, version: VersionView) -> Result<
    (),
    ErrorView,
> {
    if parts.len() == 0 {
        Err(ErrorView::EntityTooSmall)
    } else if version.blocks.len() == 0 {
        Err(ErrorView::BadRequest("No data was uploaded"@))
    } else if !strictly_increasing(parts) {
        Err(ErrorView::InvalidPartOrder)
    } else if !consecutive_from_one(parts) {
        Err(ErrorView::NotImplemented(not_consecutive_message()))
    } else if !same_parts(parts, version.parts_etags) {
        Err(ErrorView::InvalidPart)
    } else if !same_part_numbers(parts, version.blocks) {
        Err(ErrorView::BadRequest(parts_mismatch_message()))
    } else {
        Ok(())
    }
}

/// The bytes of the ETags of the parts, one after the other.
pub open spec fn etags_bytes(stored: Seq<(u64, Seq<char>)>) -> Seq<u8>
    decreases stored.len(),
{
    if stored.len() == 0 {
        Seq::empty()
    } else {
        etags_bytes(stored.drop_last()) + encode_utf8(stored.last().1)
    }
}

/// The ETag of an upload of several parts: the hexadecimal text of the MD5
/// digest of the bytes of the ETags of its parts, a hyphen, and the number
/// of parts.
pub open spec fn multipart_etag(stored: Seq<(u64, Seq<char>)>, num_parts: nat) -> Seq<char> {
    hex_text(md5_of(etags_bytes(stored))) + seq!['-'] + decimal(num_parts)
}

/// What completing an upload writes and answers with.
#[derive(Debug, PartialEq, Eq)]
pub struct CompletedUpload {
    /// The row that completes the version.
    pub object: Object,
    /// The ETag of the object.
    pub etag: String,
}

/// Why an upload was not completed.
#[derive(Debug, PartialEq, Eq)]
pub struct FailedCompletion {
    pub error: Error,
    /// The row to write before the error is reported: where a quota refuses
    /// the object, the version is marked as aborted.
    pub abort: Option<Object>,
}

/// The request is refused with the error, and nothing is written.
pub open spec fn refused(r: Result<CompletedUpload, FailedCompletion>, e: ErrorView) -> bool {
    r matches Err(f) && f.error@ == e && f.abort is None
}

/// The headers of a version in progress.
pub open spec fn uploading_headers(v: ObjectVersionView) -> HeadersView {
    match v.state {
        StateView::Uploading(h) => h,
        _ => arbitrary(),
    }
}

/// What completing the upload `id` with the listed parts comes to.
pub open spec fn complete_decides(
    r: Result<CompletedUpload, FailedCompletion>,
    parts: Seq<PartView>,
    id: Seq<char>,
    bucket_id: Uuid,
    key: Seq<char>,
    object: Option<ObjectView>,
    version: Option<VersionView>,
    quotas: BucketQuotas,
    counters: BucketCounters,
) -> bool {
    if upload_of(id) is None {
        refused(r, ErrorView::NoSuchUpload)
    } else if object is None {
        refused(r, ErrorView::NoSuchKey)
    } else if find_upload(object->0.versions, upload_of(id)->0) is None {
        refused(r, ErrorView::NoSuchUpload)
    } else if version is None {
        refused(r, ErrorView::NoSuchKey)
    } else if complete_checks(parts, version->0) is Err {
        refused(r, complete_checks(parts, version->0)->Err_0)
    } else {
        let uuid = upload_of(id)->0;
        let versions = object->0.versions;
        let upload = versions[find_upload(versions, uuid)->0];
        let size = blocks_size(version->0.blocks) as u64;
        let etag = multipart_etag(version->0.parts_etags, parts.len());
        match quota_result(quotas, counters, size, Some(versions)) {
            Err(e) => {
                &&& r matches Err(f)
                &&& f.error@ == e
                &&& f.abort matches Some(row)
                &&& row@ == object_with(bucket_id, key, uuid, upload.timestamp, StateView::Aborted)
            },
            Ok(()) => {
                &&& r matches Ok(done)
                &&& done.etag@ == etag
                &&& md5_of(etags_bytes(version->0.parts_etags)).len() == 16
                &&& done.object@ == object_with(
                    bucket_id,
                    key,
                    uuid,
                    upload.timestamp,
                    StateView::Complete(
                        DataView::FirstBlock(
                            MetaView { headers: uploading_headers(upload), size, etag },
                            version->0.blocks[0].1.hash,
                        ),
                    ),
                )
            },
        }
    }
}

/// A list whose part numbers increase but are not 1, 2, 3 and so on is
/// answered with `NotImplemented`, whatever parts and blocks the catalogue
/// of an upload with data holds.
pub proof fn lemma_gap_is_refused(parts: Seq<PartView>, version: VersionView)
    requires
        parts.len() > 0,
        version.blocks.len() > 0,
        strictly_increasing(parts),
        !consecutive_from_one(parts),
    ensures
        complete_checks(parts, version) == Err::<(), ErrorView>(
            ErrorView::NotImplemented(not_consecutive_message()),
        ),
{
}

/// A list in which a part number does not increase is answered with
/// `InvalidPartOrder`, before the numbers are held against 1, 2, 3 and so
/// on, whatever the catalogue of an upload with data holds.
pub proof fn lemma_disorder_is_refused(parts: Seq<PartView>, version: VersionView, i: int)
    requires
        version.blocks.len() > 0,
        0 <= i < parts.len() - 1,
        parts[i].part_number >= parts[i + 1].part_number,
    ensures
        complete_checks(parts, version) == Err::<(), ErrorView>(ErrorView::InvalidPartOrder),
{
}

/// A list of parts 1, 2, 3 and so on in which a listed ETag is not the
/// ETag that was received for the part is answered with `InvalidPart`.
pub proof fn lemma_other_etag_is_refused(parts: Seq<PartView>, version: VersionView, i: int)
    requires
        version.blocks.len() > 0,
        consecutive_from_one(parts),
        0 <= i < parts.len(),
        i < version.parts_etags.len() ==> parts[i].etag != version.parts_etags[i].1,
    ensures
        complete_checks(parts, version) == Err::<(), ErrorView>(ErrorView::InvalidPart),
{
    assert forall|j: int| 0 <= j < parts.len() - 1 implies (#[trigger] parts[j]).part_number
        < parts[j + 1].part_number by {
        assert(parts[j + 1].part_number == j + 2);
    }
}

/// An upload that is not completed for another reason than a quota leaves
/// nothing to write: the version stays as it is, and can be completed or
/// aborted later.
pub proof fn lemma_refusal_writes_nothing(
    r: Result<CompletedUpload, FailedCompletion>,
    parts: Seq<PartView>,
    id: Seq<char>,
    bucket_id: Uuid,
    key: Seq<char>,
    object: Option<ObjectView>,
    version: Option<VersionView>,
    quotas: BucketQuotas,
    counters: BucketCounters,
)
    requires
        complete_decides(r, parts, id, bucket_id, key, object, version, quotas, counters),
        r is Err,
        !(r->Err_0.error@ is Forbidden),
    ensures
        r->Err_0.abort is None,
{
}

/// Whether a character is a lower-case hexadecimal digit.
pub open spec fn lower_hex(c: char) -> bool {
    ('0' <= c && c <= '9') || ('a' <= c && c <= 'f')
}

/// The ETag of an upload that was completed is the hexadecimal text of the
/// MD5 digest of the bytes of the ETags of its parts, in their order, a
/// hyphen and the number of parts: 32 lower-case hexadecimal digits, the
/// hyphen, and the decimal numeral. The row that completes the version
/// holds the same text.
pub proof fn lemma_completed_etag(
    r: Result<CompletedUpload, FailedCompletion>,
    parts: Seq<PartView>,
    id: Seq<char>,
    bucket_id: Uuid,
    key: Seq<char>,
    object: Option<ObjectView>,
    version: Option<VersionView>,
    quotas: BucketQuotas,
    counters: BucketCounters,
)
    requires
        complete_decides(r, parts, id, bucket_id, key, object, version, quotas, counters),
        r is Ok,
    ensures
        version is Some,
        same_parts(parts, version->0.parts_etags),
        r->Ok_0.etag@ == hex_text(md5_of(etags_bytes(version->0.parts_etags))) + seq!['-']
            + decimal(parts.len()),
        r->Ok_0.etag@.len() == 33 + decimal(parts.len()).len(),
        forall|i: int| 0 <= i < 32 ==> lower_hex(#[trigger] r->Ok_0.etag@[i]),
        r->Ok_0.etag@[32] == '-',
        r->Ok_0.etag@.subrange(33, r->Ok_0.etag@.len() as int) == decimal(parts.len()),
        r->Ok_0.object@.versions.len() == 1,
        r->Ok_0.object@.versions[0].state matches StateView::Complete(
            DataView::FirstBlock(meta, _),
        ) && meta.etag == r->Ok_0.etag@,
{
    let digest = md5_of(etags_bytes(version->0.parts_etags));
    let hex = hex_text(digest);
    let etag = r->Ok_0.etag@;
    assert(hex.len() == 32);
    assert forall|i: int| 0 <= i < 32 implies lower_hex(#[trigger] etag[i]) by {
        let b = digest[i / 2] as int;
        assert(0 <= b / 16 < 16 && 0 <= b % 16 < 16);
        assert(etag[i] == hex[i]);
    }
    assert(etag.subrange(33, etag.len() as int) =~= decimal(parts.len()));
}

fn refuse(error: Error) -> (r: Result<CompletedUpload, FailedCompletion>)
    ensures
        refused(r, error@),
{
    Err(FailedCompletion { error, abort: None })
}

fn check_increasing(parts: &Vec<CompleteMultipartUploadPart>) -> (r: bool)
    ensures
        r == strictly_increasing(parts_view(parts@)),
{
    let ghost s = parts_view(parts@);
    let mut i: usize = 1;
    while i < parts.len()
        invariant
            1 <= i,
            s == parts_view(parts@),
            forall|j: int| 0 <= j < i - 1 ==> (#[trigger] s[j]).part_number < s[j + 1].part_number,
        decreases parts@.len() - i,
    {
        if !(parts[i - 1].part_number < parts[i].part_number) {
            assert(!(s[i - 1].part_number < s[i - 1 + 1].part_number));
            return false;
        }
        i = i + 1;
    }
    true
}

fn check_consecutive(parts: &Vec<CompleteMultipartUploadPart>) -> (r: bool)
    ensures
        r == consecutive_from_one(parts_view(parts@)),
{
    let ghost s = parts_view(parts@);
    let mut i: usize = 0;
    while i < parts.len()
        invariant
            i <= parts@.len(),
            s == parts_view(parts@),
            forall|j: int| 0 <= j < i ==> (#[trigger] s[j]).part_number == j + 1,
        decreases parts@.len() - i,
    {
        if parts[i].part_number as u128 != i as u128 + 1 {
            assert(s[i as int].part_number != i + 1);
            return false;
        }
        i = i + 1;
    }
    true
}

fn check_same_parts(parts: &Vec<CompleteMultipartUploadPart>, stored: &Vec<(u64, String)>) -> (r:
    bool)
    ensures
        r == same_parts(parts_view(parts@), etags_view(stored@)),
{
    let ghost s = parts_view(parts@);
    let ghost t = etags_view(stored@);
    if parts.len() != stored.len() {
        return false;
    }
    let mut i: usize = 0;
    while i < parts.len()
        invariant
            i <= parts@.len(),
            parts@.len() == stored@.len(),
            s == parts_view(parts@),
            t == etags_view(stored@),
            forall|j: int|
                0 <= j < i ==> (#[trigger] s[j]).part_number == t[j].0 && s[j].etag == t[j].1,
        decreases parts@.len() - i,
    {
        if parts[i].part_number != stored[i].0 || !str_eq(
            parts[i].etag.as_str(),
            stored[i].1.as_str(),
        ) {
            assert(s[i as int].part_number != t[i as int].0 || s[i as int].etag != t[i as int].1);
            return false;
        }
        i = i + 1;
    }
    true
}

/// Holds the listed parts against the catalogue of the upload.
fn check_parts(parts: &Vec<CompleteMultipartUploadPart>, version: &Version) -> (r: Result<
    (),
    Error,
>)
    ensures
        match r {
            Ok(()) => complete_checks(parts_view(parts@), version@) is Ok,
            Err(e) => complete_checks(parts_view(parts@), version@) == Err::<(), ErrorView>(e@),
        },
{
    if parts.len() == 0 {
        return Err(Error::EntityTooSmall);
    }
    if version.blocks.is_empty() {
        return Err(Error::bad_request("No data was uploaded"));
    }
    if !check_increasing(parts) {
        return Err(Error::InvalidPartOrder);
    }
    if !check_consecutive(parts) {
        return Err(
            Error::NotImplemented(
                String::from_str(
                    "Garage does not support completing a Multipart upload with non-consecutive part numbers. This is a restriction of Garage's data model, which might be fixed in a future release. See issue #204 for more information on this topic.",
                ),
            ),
        );
    }
    if !check_same_parts(parts, version.parts_etags.items()) {
        return Err(Error::InvalidPart);
    }
    proof {
        let s = parts_view(parts@);
        assert forall|i: int, j: int| 0 <= i < j < s.len() implies (#[trigger] s[i]).part_number
            != (#[trigger] s[j]).part_number by {
            assert(s[i].part_number == i + 1 && s[j].part_number == j + 1);
        }
    }
    if !check_block_parts(parts, version.blocks.items()) {
        return Err(
            Error::bad_request(
                "Part numbers in block list and part list do not match. This can happen if a part was partially uploaded. Please abort the multipart upload and try again.",
            ),
        );
    }
    Ok(())
}

/// The ETag of an upload of `num_parts` parts whose ETags, taken as one
/// byte string, have the given MD5 digest: the hexadecimal text of the
/// digest, a hyphen, and the number of parts.
pub fn etag_of_digest(digest: &[u8; 16], num_parts: usize) -> (r: String)
    ensures
        r@ == hex_text(digest@) + seq!['-'] + decimal(num_parts as nat),
{
    let mut etag = hex_encode(digest.as_slice());
    proof {
        reveal_strlit("-");
    }
    etag.append("-");
    let n = u64_to_string(num_parts as u64);
    etag.append(n.as_str());
    etag
}

/// The ETag of an upload whose parts have the given ETags.
pub fn aggregate_etag(stored: &Vec<(u64, String)>, num_parts: usize) -> (r: String)
    ensures
        r@ == multipart_etag(etags_view(stored@), num_parts as nat),
        md5_of(etags_bytes(etags_view(stored@))).len() == 16,
{
    let ghost t = etags_view(stored@);
    let mut hasher = Md5Hasher::new();
    let mut i: usize = 0;
    while i < stored.len()
        invariant
            i <= stored@.len(),
            t == etags_view(stored@),
            md5_absorbed(hasher) == etags_bytes(t.subrange(0, i as int)),
        decreases stored@.len() - i,
    {
        proof {
            assert(t.subrange(0, i + 1).drop_last() =~= t.subrange(0, i as int));
        }
        hasher.update(stored[i].1.as_str().as_bytes());
        i = i + 1;
    }
    assert(t.subrange(0, i as int) =~= t);
    let digest = hasher.finalize();
    etag_of_digest(&digest, num_parts)
}

/// Completes the upload `upload_id` of `key` in `bucket_id` with the listed
/// parts, once the rows of the object and of the upload were read.
///
/// An empty list is refused first. Then the upload has to hold data, and
/// the list has to have part numbers that increase and are 1, 2, 3 and so
/// on, and has to name the parts that were received, with their ETags, and
/// that have the blocks of the upload. The size of the
/// object is the sum of the sizes of the blocks. Where a quota refuses it,
/// the version is marked as aborted; else it is completed, with the ETag of
/// the parts and the first block of the first part.
pub fn complete_multipart_upload(
    parts: &Vec<CompleteMultipartUploadPart>,
    bucket_id: Uuid,
    key: &str,
    upload_id: &str,
    object: Option<&Object>,
    version: Option<&Version>,
    quotas: &BucketQuotas,
    counters: &BucketCounters,
) -> (r: Result<CompletedUpload, FailedCompletion>)
    requires
        version matches Some(v) ==> blocks_size(v@.blocks) <= u64::MAX,
    ensures
        complete_decides(
            r,
            parts_view(parts@),
            upload_id@,
            bucket_id,
            key@,
            opt_object(object),
            opt_version(version),
            *quotas,
            *counters,
        ),
{
    let version_uuid = match decode_upload_id(upload_id) {
        Ok(u) => u,
        Err(e) => {
            return refuse(e);
        },
    };
    let object = match object {
        Some(o) => o,
        None => {
            return refuse(Error::NoSuchKey);
        },
    };
    let i = match object.find_uploading(&version_uuid) {
        Some(i) => i,
        None => {
            return refuse(Error::NoSuchUpload);
        },
    };
    let version = match version {
        Some(v) => v,
        None => {
            return refuse(Error::NoSuchKey);
        },
    };
    match check_parts(parts, version) {
        Err(e) => {
            return refuse(e);
        },
        Ok(()) => {},
    }
    let entry = &object.versions()[i];
    let headers = match &entry.1 {
        ObjectVersionState::Uploading(h) => h.duplicate(),
        _ => {
            return refuse(Error::NoSuchUpload);
        },
    };
    let etag = aggregate_etag(version.parts_etags.items(), parts.len());
    let total_size = match version.total_size() {
        Some(n) => n,
        None => {
            return refuse(Error::NoSuchUpload);
        },
    };
    let timestamp = entry.0.timestamp;
    match check_quotas(quotas, counters, total_size, Some(object)) {
        Err(error) => {
            let aborted = ObjectVersion {
                uuid: version_uuid,
                timestamp,
                state: ObjectVersionState::Aborted,
            };
            let row = Object::single(bucket_id, String::from_str(key), aborted);
            return Err(FailedCompletion { error, abort: Some(row) });
        },
        Ok(()) => {},
    }
    let first_hash = version.blocks.items()[0].1.hash;
    let completed = ObjectVersion {
        uuid: version_uuid,
        timestamp,
        state: ObjectVersionState::Complete(
            ObjectVersionData::FirstBlock(
                ObjectVersionMeta { headers, size: total_size, etag: etag.clone() },
                first_hash,
            ),
        ),
    };
    let row = Object::single(bucket_id, String::from_str(key), completed);
    Ok(CompletedUpload { object: row, etag })
}

/// Completes an upload from the body of the request, which lists the
/// parts: a body that is no XML document or lists no parts is refused, and
/// the rest is as in [`complete_multipart_upload`].
pub fn handle_complete_multipart_upload(
    body: &str,
    bucket_id: Uuid,
    key: &str,
    upload_id: &str,
    object: Option<&Object>,
    version: Option<&Version>,
    quotas: &BucketQuotas,
    counters: &BucketCounters,
) -> (r: Result<CompletedUpload, FailedCompletion>)
    requires
        version matches Some(v) ==> blocks_size(v@.blocks) <= u64::MAX,
    ensures
        match parts_of_body(body@) {
            Err(e) => refused(r, e),
            Ok(parts) => complete_decides(
                r,
                parts,
                upload_id@,
                bucket_id,
                key@,
                opt_object(object),
                opt_version(version),
                *quotas,
                *counters,
            ),
        },
{
    let parts = match parse_complete_multipart_upload(body) {
        Ok(p) => p,
        Err(e) => {
            return Err(FailedCompletion { error: e, abort: None });
        },
    };
    complete_multipart_upload(
        &parts,
        bucket_id,
        key,
        upload_id,
        object,
        version,
        quotas,
        counters,
    )
}

} // verus!
