//! Writing one object: the decisions of a PUT, from its first block to the
//! row that completes it.
use crate::block_writer::{block_write_of, read_and_put_blocks, BlockPipeline, BlockWrite};
use crate::checksum::{checksum_verdict, ensure_checksum_matches};
use crate::cleanup::InterruptedCleanup;
use crate::data::Uuid;
use crate::data;
use crate::digest::{blake2_of, blake2sum, md5_of, md5sum, sha256_of, sha256sum};
use crate::encoding::{base64_text, hex_encode, hex_text};
use crate::error::{Error, ErrorView};
use crate::headers::{get_headers, header_text, object_headers, RequestHeaders};
use crate::object::{
    lemma_final_row_overrides, lemma_max_timestamp, max_timestamp, merge_versions, object_with,
    DataView, HeadersView, MetaView, Object, ObjectVersion, ObjectVersionData,
    ObjectVersionHeaders, ObjectVersionMeta, ObjectVersionState, ObjectVersionView, StateView,
};
use crate::quota::{check_quotas, quota_result, versions_of, BucketCounters, BucketQuotas};
use crate::text::opt_chars;
use crate::version::{empty_version, Version};
use vstd::prelude::*;

verus! {

/// A body shorter than this is kept in the row of the object itself.
pub const INLINE_THRESHOLD: usize = 3072;

/// The time stamp of a new version of a key: the time, or where the key
/// holds versions, one more than their greatest time stamp if that is
/// later.
pub open spec fn next_timestamp(prev: Option<Seq<ObjectVersionView>>, now_msec: u64) -> int {
    match prev {
        Some(v) => match max_timestamp(v) {
            Some(t) => if t + 1 > now_msec {
                t + 1
            } else {
                now_msec as int
            },
            None => now_msec as int,
        },
        None => now_msec as int,
    }
}

/// The time stamp of a new version is later than that of every version
/// that its key holds, and not before the time.
pub proof fn lemma_timestamp_after(prev: Seq<ObjectVersionView>, now_msec: u64)
    ensures
        next_timestamp(Some(prev), now_msec) >= now_msec,
        forall|i: int|
            0 <= i < prev.len() ==> next_timestamp(Some(prev), now_msec) > (
            #[trigger] prev[i]).timestamp,
{
    lemma_max_timestamp(prev);
}

/// The time stamp of a new version of the key that holds `existing_object`.
/// It is later than that of every version of the key.
pub fn version_timestamp(existing_object: Option<&Object>, now_msec: u64) -> (r: u64)
    requires
        next_timestamp(versions_of(existing_object), now_msec) <= u64::MAX,
    ensures
        r == next_timestamp(versions_of(existing_object), now_msec),
        r >= now_msec,
        existing_object matches Some(o) ==> forall|i: int|
            0 <= i < o@.versions.len() ==> r > (#[trigger] o@.versions[i]).timestamp,
{
    match existing_object {
        Some(o) => {
            proof {
                lemma_max_timestamp(o@.versions);
            }
            match o.last_timestamp() {
                Some(t) => if t >= now_msec {
                    t + 1
                } else {
                    now_msec
                },
                None => now_msec,
            }
        },
        None => now_msec,
    }
}

/// A PUT whose body did not fit in the row of the object: what is kept
/// from its first block to its last.
pub struct StreamingUpload {
    pub bucket_id: Uuid,
    pub key: String,
    pub version_uuid: Uuid,
    pub version_timestamp: u64,
    pub headers: ObjectVersionHeaders,
    pub first_block_hash: data::Hash,
    pub pipeline: BlockPipeline,
}

/// What a PUT does after its first block.
pub enum PutStart {
    /// The body is short: `object` holds it and is written, and the PUT is
    /// answered with the version and the ETag.
    Inline { object: Object, version_uuid: Uuid, etag: String },
    /// The body is long: `object` and `version` are written to reserve the
    /// upload, `cleanup` guards it, `first_write` is written for the first
    /// block, whose bytes come back in `first_block`, and `upload` takes the
    /// blocks that follow.
    Streaming {
        object: Object,
        version: Version,
        cleanup: InterruptedCleanup,
        first_block: Vec<u8>,
        first_write: BlockWrite,
        upload: StreamingUpload,
    },
}

/// What a PUT that went through writes and answers with.
#[derive(Debug, PartialEq, Eq)]
pub struct PutDone {
    pub object: Object,
    pub version_uuid: Uuid,
    pub etag: String,
}

/// The row that completes a version whose data, with the given MD5 digest,
/// are held in the row itself, and the ETag of the version: the hexadecimal
/// text of the digest.
pub fn inline_object(
    bucket_id: Uuid,
    key: String,
    version_uuid: Uuid,
    version_timestamp: u64,
    headers: ObjectVersionHeaders,
    data: Vec<u8>,
    data_md5sum: &[u8; 16],
) -> (r: (Object, String))
    ensures
        r.1@ == hex_text(data_md5sum@),
        r.0@ == object_with(
            bucket_id,
            key@,
            version_uuid,
            version_timestamp,
            StateView::Complete(
                DataView::Inline(
                    MetaView {
                        headers: headers@,
                        size: data@.len() as u64,
                        etag: hex_text(data_md5sum@),
                    },
                    data@,
                ),
            ),
        ),
{
    let etag = hex_encode(data_md5sum.as_slice());
    let size = data.len() as u64;
    let object_version = ObjectVersion {
        uuid: version_uuid,
        timestamp: version_timestamp,
        state: ObjectVersionState::Complete(
            ObjectVersionData::Inline(
                ObjectVersionMeta { headers, size, etag: etag.clone() },
                data,
            ),
        ),
    };
    (Object::single(bucket_id, key, object_version), etag)
}

/// The row that completes a version whose data, of the given size and MD5
/// digest, are held in blocks, and the ETag of the version: the hexadecimal
/// text of the digest.
pub fn streamed_object(
    bucket_id: Uuid,
    key: String,
    version_uuid: Uuid,
    version_timestamp: u64,
    headers: ObjectVersionHeaders,
    total_size: u64,
    data_md5sum: &[u8; 16],
    first_block_hash: data::Hash,
) -> (r: (Object, String))
    ensures
        r.1@ == hex_text(data_md5sum@),
        r.0@ == object_with(
            bucket_id,
            key@,
            version_uuid,
            version_timestamp,
            StateView::Complete(
                DataView::FirstBlock(
                    MetaView { headers: headers@, size: total_size, etag: hex_text(data_md5sum@) },
                    first_block_hash,
                ),
            ),
        ),
{
    let etag = hex_encode(data_md5sum.as_slice());
    let object_version = ObjectVersion {
        uuid: version_uuid,
        timestamp: version_timestamp,
        state: ObjectVersionState::Complete(
            ObjectVersionData::FirstBlock(
                ObjectVersionMeta { headers, size: total_size, etag: etag.clone() },
                first_block_hash,
            ),
        ),
    };
    (Object::single(bucket_id, key, object_version), etag)
}

/// The error, if any, that the checksums and then the quotas answer a
/// write of `data` with.
pub open spec fn put_verdict(
    data: Seq<u8>,
    content_md5: Option<Seq<char>>,
    content_sha256: Option<data::Hash>,
    quotas: BucketQuotas,
    counters: BucketCounters,
    prev: Option<Seq<ObjectVersionView>>,
) -> Result<(), ErrorView> {
    match checksum_verdict(
        base64_text(md5_of(data)),
        sha256_of(data),
        content_md5,
        content_sha256,
    ) {
        Err(e) => Err(e),
        Ok(()) => quota_result(quotas, counters, data.len() as u64, prev),
    }
}

/// The bytes of the first block, where there is one.
pub open spec fn first_bytes(first_block: Option<Vec<u8>>) -> Seq<u8> {
    match first_block {
        Some(b) => b@,
        None => Seq::empty(),
    }
}

/// What `save_stream` decides for a first block of `data`.
pub open spec fn save_stream_decides(
    r: Result<PutStart, Error>,
    headers: HeadersView,
    data: Seq<u8>,
    prev: Option<Seq<ObjectVersionView>>,
    bucket_id: Uuid,
    key: Seq<char>,
    content_md5: Option<Seq<char>>,
    content_sha256: Option<data::Hash>,
    version_uuid: Uuid,
    now_msec: u64,
    quotas: BucketQuotas,
    counters: BucketCounters,
) -> bool {
    let ts = next_timestamp(prev, now_msec) as u64;
    if data.len() < INLINE_THRESHOLD {
        match put_verdict(data, content_md5, content_sha256, quotas, counters, prev) {
            Err(e) => r matches Err(f) && f@ == e,
            Ok(()) => {
                &&& r matches Ok(PutStart::Inline { object, version_uuid: v, etag })
                &&& v == version_uuid
                &&& etag@ == hex_text(md5_of(data))
                &&& object@ == object_with(
                    bucket_id,
                    key,
                    version_uuid,
                    ts,
                    StateView::Complete(
                        DataView::Inline(
                            MetaView {
                                headers,
                                size: data.len() as u64,
                                etag: hex_text(md5_of(data)),
                            },
                            data,
                        ),
                    ),
                )
            },
        }
    } else {
        &&& r matches Ok(
            PutStart::Streaming { object, version, cleanup, first_block, first_write, upload },
        )
        &&& first_block@ == data
        &&& object@ == object_with(bucket_id, key, version_uuid, ts, StateView::Uploading(headers))
        &&& version@ == empty_version(version_uuid, bucket_id, key)
        &&& cleanup.armed_for(bucket_id, key, version_uuid, ts)
        &&& upload.first_block_hash@ == blake2_of(data)
        &&& block_write_of(
            first_write,
            empty_version(version_uuid, bucket_id, key),
            1,
            0,
            upload.first_block_hash,
            data.len(),
        )
        &&& upload.bucket_id == bucket_id
        &&& upload.key@ == key
        &&& upload.version_uuid == version_uuid
        &&& upload.version_timestamp == ts
        &&& upload.headers@ == headers
        &&& upload.pipeline.data() == data
        &&& upload.pipeline.version() == empty_version(version_uuid, bucket_id, key)
        &&& upload.pipeline.part_number() == 1
    }
}

/// A body below the threshold whose checksums and size pass is written as
/// one row and nothing else: the row holds one version, complete, with the
/// bytes of the body in the row itself, their length, the hexadecimal text
/// of their MD5 digest as ETag, and the headers; the PUT is answered with
/// the version and that ETag. No catalogue and no block is written.
pub proof fn lemma_short_body_is_inline(
    r: Result<PutStart, Error>,
    headers: HeadersView,
    data: Seq<u8>,
    prev: Option<Seq<ObjectVersionView>>,
    bucket_id: Uuid,
    key: Seq<char>,
    content_md5: Option<Seq<char>>,
    content_sha256: Option<data::Hash>,
    version_uuid: Uuid,
    now_msec: u64,
    quotas: BucketQuotas,
    counters: BucketCounters,
)
    requires
        save_stream_decides(
            r,
            headers,
            data,
            prev,
            bucket_id,
            key,
            content_md5,
            content_sha256,
            version_uuid,
            now_msec,
            quotas,
            counters,
        ),
        data.len() < INLINE_THRESHOLD,
        put_verdict(data, content_md5, content_sha256, quotas, counters, prev) is Ok,
    ensures
        r matches Ok(PutStart::Inline { object, version_uuid: v, etag }) && {
            &&& v == version_uuid
            &&& etag@ == hex_text(md5_of(data))
            &&& object@.bucket_id == bucket_id
            &&& object@.key == key
            &&& object@.versions.len() == 1
            &&& object@.versions[0].uuid == version_uuid
            &&& object@.versions[0].state matches StateView::Complete(DataView::Inline(meta, bytes))
                && {
                &&& bytes == data
                &&& meta.size == data.len()
                &&& meta.etag == hex_text(md5_of(data))
                &&& meta.headers == headers
            }
        },
{
}

/// A PUT that is streamed and does not go through leaves an aborted
/// version and no complete one: the row that its guard yields marks the
/// version that was reserved, at its time stamp, as aborted, and merged
/// with the row that reserved it, in either order, that row is all there
/// is.
pub proof fn lemma_interrupted_put_is_aborted(
    r: Result<PutStart, Error>,
    headers: HeadersView,
    data: Seq<u8>,
    prev: Option<Seq<ObjectVersionView>>,
    bucket_id: Uuid,
    key: Seq<char>,
    content_md5: Option<Seq<char>>,
    content_sha256: Option<data::Hash>,
    version_uuid: Uuid,
    now_msec: u64,
    quotas: BucketQuotas,
    counters: BucketCounters,
)
    requires
        save_stream_decides(
            r,
            headers,
            data,
            prev,
            bucket_id,
            key,
            content_md5,
            content_sha256,
            version_uuid,
            now_msec,
            quotas,
            counters,
        ),
        data.len() >= INLINE_THRESHOLD,
    ensures
        r matches Ok(PutStart::Streaming { object, cleanup, .. }) && {
            let aborted = object_with(
                bucket_id,
                key,
                version_uuid,
                object@.versions[0].timestamp,
                StateView::Aborted,
            );
            &&& object@.versions.len() == 1
            &&& object@.versions[0].uuid == version_uuid
            &&& object@.versions[0].state is Uploading
            &&& cleanup.released_row() == Some(aborted)
            &&& merge_versions(object@.versions, aborted.versions) == aborted.versions
            &&& merge_versions(aborted.versions, object@.versions) == aborted.versions
            &&& forall|i: int|
                0 <= i < aborted.versions.len() ==> !((#[trigger] aborted.versions[i]).state
                    is Complete)
        },
{
    let ts = next_timestamp(prev, now_msec) as u64;
    lemma_final_row_overrides(version_uuid, ts, headers, StateView::Aborted);
}

/// Decides what a PUT of `key` in `bucket_id` does once its first block is
/// there and the row that the key holds was read.
///
/// A body shorter than [`INLINE_THRESHOLD`] is complete with its first
/// block: its checksums and the quotas are checked, and the object is
/// written once, holding the body. No catalogue and no block reference is
/// written for it. A longer body is streamed: the version is reserved as
/// uploading, and the blocks go through the pipeline.
pub fn save_stream(
    headers: ObjectVersionHeaders,
    first_block: Option<Vec<u8>>,
    existing_object: Option<&Object>,
    bucket_id: Uuid,
    key: &str,
    content_md5: Option<&str>,
    content_sha256: Option<data::Hash>,
    version_uuid: Uuid,
    now_msec: u64,
    quotas: &BucketQuotas,
    counters: &BucketCounters,
) -> (r: Result<PutStart, Error>)
    requires
        next_timestamp(versions_of(existing_object), now_msec) <= u64::MAX,
    ensures
        save_stream_decides(
            r,
            headers@,
            first_bytes(first_block),
            versions_of(existing_object),
            bucket_id,
            key@,
            opt_chars(content_md5),
            content_sha256,
            version_uuid,
            now_msec,
            *quotas,
            *counters,
        ),
{
    let first_block: Vec<u8> = match first_block {
        Some(b) => b,
        None => Vec::new(),
    };
    let version_timestamp = version_timestamp(existing_object, now_msec);
    if first_block.len() < INLINE_THRESHOLD {
        let data_md5sum = md5sum(first_block.as_slice());
        let data_sha256sum = sha256sum(first_block.as_slice());
        let size = first_block.len() as u64;
        match ensure_checksum_matches(&data_md5sum, data_sha256sum, content_md5, content_sha256) {
            Err(e) => {
                return Err(e);
            },
            Ok(()) => {},
        }
        match check_quotas(quotas, counters, size, existing_object) {
            Err(e) => {
                return Err(e);
            },
            Ok(()) => {},
        }
        let (object, etag) = inline_object(
            bucket_id,
            String::from_str(key),
            version_uuid,
            version_timestamp,
            headers,
            first_block,
            &data_md5sum,
        );
        return Ok(PutStart::Inline { object, version_uuid, etag });
    }
    let cleanup = InterruptedCleanup::new(
        bucket_id,
        String::from_str(key),
        version_uuid,
        version_timestamp,
    );
    let object_version = ObjectVersion {
        uuid: version_uuid,
        timestamp: version_timestamp,
        state: ObjectVersionState::Uploading(headers.duplicate()),
    };
    let object = Object::single(bucket_id, String::from_str(key), object_version);
    let version = Version::new(version_uuid, bucket_id, String::from_str(key), false);
    let first_block_hash = blake2sum(first_block.as_slice());
    let (pipeline, first_write) = read_and_put_blocks(
        &version,
        1,
        first_block.as_slice(),
        first_block_hash,
    );
    let upload = StreamingUpload {
        bucket_id,
        key: String::from_str(key),
        version_uuid,
        version_timestamp,
        headers,
        first_block_hash,
        pipeline,
    };
    Ok(PutStart::Streaming { object, version, cleanup, first_block, first_write, upload })
}

impl StreamingUpload {
    /// Takes the next block of the body.
    pub fn put_block(self, block: &[u8]) -> (r: (StreamingUpload, BlockWrite))
        requires
            self.pipeline.data().len() + block@.len() <= u64::MAX,
        ensures
            r.0.pipeline.data() == self.pipeline.data() + block@,
            r.0.pipeline.version() == self.pipeline.version(),
            r.0.pipeline.part_number() == self.pipeline.part_number(),
            r.0.bucket_id == self.bucket_id,
            r.0.key@ == self.key@,
            r.0.version_uuid == self.version_uuid,
            r.0.version_timestamp == self.version_timestamp,
            r.0.headers@ == self.headers@,
            r.0.first_block_hash == self.first_block_hash,
            r.1.hash@ == blake2_of(block@),
            block_write_of(
                r.1,
                self.pipeline.version(),
                self.pipeline.part_number(),
                self.pipeline.data().len() as u64,
                r.1.hash,
                block@.len(),
            ),
    {
        let StreamingUpload {
            bucket_id,
            key,
            version_uuid,
            version_timestamp,
            headers,
            first_block_hash,
            pipeline,
        } = self;
        let (pipeline, write) = pipeline.put_block(block);
        (
            StreamingUpload {
                bucket_id,
                key,
                version_uuid,
                version_timestamp,
                headers,
                first_block_hash,
                pipeline,
            },
            write,
        )
    }

    /// Ends the PUT after its last block: the digests of the whole body are
    /// held against the checksums of the request, and its size against the
    /// quotas. Where both pass, the result is the row that completes the
    /// version, naming its first block, and the answer. On an error nothing
    /// is written here: the guard of the upload marks the version as aborted.
    pub fn finish(
        self,
        content_md5: Option<&str>,
        content_sha256: Option<data::Hash>,
        quotas: &BucketQuotas,
        counters: &BucketCounters,
        existing_object: Option<&Object>,
    ) -> (r: Result<PutDone, Error>)
        ensures
            match put_verdict(
                self.pipeline.data(),
                opt_chars(content_md5),
                content_sha256,
                *quotas,
                *counters,
                versions_of(existing_object),
            ) {
                Err(e) => r matches Err(f) && f@ == e,
                Ok(()) => {
                    &&& r matches Ok(done)
                    &&& done.version_uuid == self.version_uuid
                    &&& done.etag@ == hex_text(md5_of(self.pipeline.data()))
                    &&& done.object@ == object_with(
                        self.bucket_id,
                        self.key@,
                        self.version_uuid,
                        self.version_timestamp,
                        StateView::Complete(
                            DataView::FirstBlock(
                                MetaView {
                                    headers: self.headers@,
                                    size: self.pipeline.data().len() as u64,
                                    etag: hex_text(md5_of(self.pipeline.data())),
                                },
                                self.first_block_hash,
                            ),
                        ),
                    )
                },
            },
    {
        let StreamingUpload {
            bucket_id,
            key,
            version_uuid,
            version_timestamp,
            headers,
            first_block_hash,
            pipeline,
        } = self;
        let (total_size, data_md5sum, data_sha256sum) = pipeline.finish();
        match ensure_checksum_matches(&data_md5sum, data_sha256sum, content_md5, content_sha256) {
            Err(e) => {
                return Err(e);
            },
            Ok(()) => {},
        }
        match check_quotas(quotas, counters, total_size, existing_object) {
            Err(e) => {
                return Err(e);
            },
            Ok(()) => {},
        }
        let (object, etag) = streamed_object(
            bucket_id,
            key,
            version_uuid,
            version_timestamp,
            headers,
            total_size,
            &data_md5sum,
            first_block_hash,
        );
        Ok(PutDone { object, version_uuid, etag })
    }
}

/// What a PUT with the given request headers does after its first block:
/// the headers that stay with the object and the `content-md5` header are
/// taken from the request, and the rest is as in [`save_stream`].
pub fn handle_put(
    request: &RequestHeaders,
    first_block: Option<Vec<u8>>,
    existing_object: Option<&Object>,
    bucket_id: Uuid,
    key: &str,
    content_sha256: Option<data::Hash>,
    version_uuid: Uuid,
    now_msec: u64,
    quotas: &BucketQuotas,
    counters: &BucketCounters,
) -> (r: Result<PutStart, Error>)
    requires
        next_timestamp(versions_of(existing_object), now_msec) <= u64::MAX,
    ensures
        match object_headers(request.fields@) {
            Err(e) => r matches Err(f) && f@ == e,
            Ok(headers) => match header_text(request.fields@, "content-md5"@) {
                Err(e) => r matches Err(f) && f@ == e,
                Ok(content_md5) => save_stream_decides(
                    r,
                    headers,
                    first_bytes(first_block),
                    versions_of(existing_object),
                    bucket_id,
                    key@,
                    content_md5,
                    content_sha256,
                    version_uuid,
                    now_msec,
                    *quotas,
                    *counters,
                ),
            },
        },
{
    let headers = match get_headers(request) {
        Ok(h) => h,
        Err(e) => {
            return Err(e);
        },
    };
    let content_md5 = match request.get_text("content-md5") {
        Ok(m) => m,
        Err(e) => {
            return Err(e);
        },
    };
    match &content_md5 {
        Some(m) => save_stream(
            headers,
            first_block,
            existing_object,
            bucket_id,
            key,
            Some(m.as_str()),
            content_sha256,
            version_uuid,
            now_msec,
            quotas,
            counters,
        ),
        None => save_stream(
            headers,
            first_block,
            existing_object,
            bucket_id,
            key,
            None,
            content_sha256,
            version_uuid,
            now_msec,
            quotas,
            counters,
        ),
    }
}

} // verus!
