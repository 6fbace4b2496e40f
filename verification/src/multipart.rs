//! The multipart upload protocol: creating an upload, taking its parts,
//! completing and aborting it.
use crate::block_writer::{block_write_of, read_and_put_blocks, BlockPipeline, BlockWrite};
use crate::checksum::{checksum_verdict, ensure_checksum_matches};
use crate::data::Uuid;
use crate::data;
use crate::digest::{blake2_of, blake2sum, md5_of, sha256_of};
use crate::encoding::{
    base64_text, hex_bytes, hex_decode, hex_encode, hex_text, hex_uuid, lemma_hex_round_trip,
};
use crate::error::{Error, ErrorView};
use crate::headers::{get_headers, header_text, object_headers, RequestHeaders};
use crate::object::{
    find_upload, object_with, Object, ObjectVersion, ObjectVersionState, ObjectView, StateView,
};
use crate::text::{decimal, str_eq, u64_to_string};
use crate::version::{empty_version, etags_view, has_part, Version, VersionView};
use vstd::prelude::*;

verus! {

/// The upload that an upload id names: the identifier whose lower-case
/// hexadecimal text the id is.
#[verifier::opaque]
pub open spec fn upload_of(id: Seq<char>) -> Option<Uuid> {
    if exists|uuid: Uuid| id == hex_text(uuid@) {
        Some(choose|uuid: Uuid| id == hex_text(uuid@))
    } else {
        None
    }
}

/// Reads an upload id: the lower-case hexadecimal text of the sixteen bytes
/// of the identifier of the upload. Any other text names no upload.
pub fn decode_upload_id(id: &str) -> (r: Result<Uuid, Error>)
    ensures
        match r {
            Ok(uuid) => id@ == hex_text(uuid@) && upload_of(id@) == Some(uuid),
            Err(e) => e@ == ErrorView::NoSuchUpload && upload_of(id@) is None,
        },
{
    proof {
        reveal(upload_of);
        assert(forall|uuid: Uuid| id@ == hex_text(uuid@) ==> hex_bytes(id@) == Some(uuid@));
        if upload_of(id@) is Some {
            let c = upload_of(id@)->0;
            assert forall|uuid: Uuid| id@ == hex_text(uuid@) implies uuid == c by {
                assert(uuid.bytes =~= c.bytes);
            }
        }
    }
    let id_bin = match hex_decode(id) {
        Some(b) => b,
        None => {
            return Err(Error::NoSuchUpload);
        },
    };
    if id_bin.len() != 16 {
        return Err(Error::NoSuchUpload);
    }
    let mut bytes = [0u8;16];
    let mut i: usize = 0;
    while i < 16
        invariant
            i <= 16,
            id_bin@.len() == 16,
            forall|j: int| 0 <= j < i ==> bytes@[j] == id_bin@[j],
        decreases 16 - i,
    {
        bytes[i] = id_bin[i];
        i = i + 1;
    }
    assert(bytes@ =~= id_bin@);
    let uuid = Uuid { bytes };
    let text = hex_uuid(&uuid);
    if !str_eq(text.as_str(), id) {
        return Err(Error::NoSuchUpload);
    }
    Ok(uuid)
}

/// What creating an upload writes and answers with.
#[derive(Debug, PartialEq, Eq)]
pub struct MultipartCreated {
    /// The row of the object, with the upload as a version in progress.
    pub object: Object,
    /// The catalogue of the upload, without blocks.
    pub version: Version,
    /// The upload id of the answer.
    pub upload_id: String,
}

/// Creates the upload `version_uuid` of `key` in `bucket_id` at the time
/// `now_msec`: the version is reserved as uploading with the headers of the
/// request, its catalogue is empty, and the upload id is the hexadecimal
/// text of the identifier.
pub fn handle_create_multipart_upload(
    version_uuid: Uuid,
    now_msec: u64,
    request: &RequestHeaders,
    bucket_id: Uuid,
    key: &str,
) -> (r: Result<MultipartCreated, Error>)
    ensures
        match object_headers(request.fields@) {
            Err(e) => r matches Err(f) && f@ == e,
            Ok(headers) => {
                &&& r matches Ok(c)
                &&& c.object@ == object_with(
                    bucket_id,
                    key@,
                    version_uuid,
                    now_msec,
                    StateView::Uploading(headers),
                )
                &&& c.version@ == empty_version(version_uuid, bucket_id, key@)
                &&& c.upload_id@ == hex_text(version_uuid@)
                &&& upload_of(c.upload_id@) == Some(version_uuid)
            },
        },
{
    let headers = match get_headers(request) {
        Ok(h) => h,
        Err(e) => {
            return Err(e);
        },
    };
    let object_version = ObjectVersion {
        uuid: version_uuid,
        timestamp: now_msec,
        state: ObjectVersionState::Uploading(headers),
    };
    let object = Object::single(bucket_id, String::from_str(key), object_version);
    let version = Version::new(version_uuid, bucket_id, String::from_str(key), false);
    let upload_id = hex_uuid(&version_uuid);
    proof {
        lemma_upload_of(version_uuid);
    }
    Ok(MultipartCreated { object, version, upload_id })
}

/// The hexadecimal text of an identifier names that identifier.
pub proof fn lemma_upload_of(uuid: Uuid)
    ensures
        upload_of(hex_text(uuid@)) == Some(uuid),
{
    reveal(upload_of);
    let c = upload_of(hex_text(uuid@))->0;
    lemma_hex_round_trip(c@);
    assert(uuid.bytes =~= c.bytes);
}

/// The message of the error for a part that was received before.
pub open spec fn already_uploaded_message(part_number: u64) -> Seq<char> {
    "Part number "@ + decimal(part_number as nat) + " has already been uploaded"@
}

/// Whether part `part_number` of the upload `id` of an object can be taken:
/// the identifier of the upload, or the error that refuses the part.
pub open spec fn part_admitted(
    id: Seq<char>,
    part_number: u64,
    content_md5: Result<Option<Seq<char>>, ErrorView>,
    object: Option<ObjectView>,
    version: Option<VersionView>,
    first_block: Seq<u8>,
) -> Result<Uuid, ErrorView> {
    match upload_of(id) {
        None => Err(ErrorView::NoSuchUpload),
        Some(uuid) => if content_md5 is Err {
            Err(content_md5->Err_0)
        } else if first_block.len() == 0 {
            Err(ErrorView::BadRequest("Empty body"@))
        } else if object is None || find_upload(object->0.versions, uuid) is None {
            Err(ErrorView::NoSuchUpload)
        } else if version is Some && has_part(version->0.parts_etags, part_number) {
            Err(ErrorView::BadRequest(already_uploaded_message(part_number)))
        } else {
            Ok(uuid)
        },
    }
}

/// A part is taken once: where the catalogue of the upload holds the ETag
/// of a part, as it does after the part was received in full, the part is
/// refused when it comes again, with a message that says so, unless the
/// request is refused for another reason before.
pub proof fn lemma_part_taken_once(
    id: Seq<char>,
    part_number: u64,
    content_md5: Option<Seq<char>>,
    object: ObjectView,
    version: VersionView,
    first_block: Seq<u8>,
)
    requires
        has_part(version.parts_etags, part_number),
    ensures
        part_admitted(id, part_number, Ok(content_md5), Some(object), Some(version), first_block)
            is Err,
        upload_of(id) is Some && first_block.len() > 0 && find_upload(
            object.versions,
            upload_of(id)->0,
        ) is Some ==> part_admitted(
            id,
            part_number,
            Ok(content_md5),
            Some(object),
            Some(version),
            first_block,
        ) == Err::<Uuid, ErrorView>(
            ErrorView::BadRequest(already_uploaded_message(part_number)),
        ),
{
}

/// One part of an upload on its way to the store.
pub struct PartUpload {
    pub version_uuid: Uuid,
    pub bucket_id: Uuid,
    pub key: String,
    pub part_number: u64,
    pub content_md5: Option<String>,
    pub content_sha256: Option<data::Hash>,
    pub pipeline: BlockPipeline,
}

/// What taking a part starts with: what is written for its first block,
/// and what takes the blocks that follow.
pub struct PartStart {
    pub first_write: BlockWrite,
    pub upload: PartUpload,
}

/// What a part that was received in full writes and answers with.
#[derive(Debug, PartialEq, Eq)]
pub struct PartDone {
    /// The catalogue of the upload with the ETag of the part.
    pub version: Version,
    /// The ETag of the part: the hexadecimal text of its MD5 digest.
    pub etag: String,
}

/// The value of an object, where there is one.
pub open spec fn opt_object(object: Option<&Object>) -> Option<ObjectView> {
    match object {
        Some(o) => Some(o@),
        None => None,
    }
}

/// The value of a catalogue, where there is one.
pub open spec fn opt_version(version: Option<&Version>) -> Option<VersionView> {
    match version {
        Some(v) => Some(v@),
        None => None,
    }
}

/// The characters of a string, where there is one.
pub open spec fn opt_string(s: Option<String>) -> Option<Seq<char>> {
    match s {
        Some(t) => Some(t@),
        None => None,
    }
}

/// The bytes of a block, where there is one.
pub open spec fn opt_bytes(block: Option<&[u8]>) -> Seq<u8> {
    match block {
        Some(b) => b@,
        None => Seq::empty(),
    }
}

fn already_uploaded(part_number: u64) -> (e: Error)
    ensures
        e@ == ErrorView::BadRequest(already_uploaded_message(part_number)),
{
    let mut m = String::from_str("Part number ");
    let n = u64_to_string(part_number);
    m.append(n.as_str());
    m.append(" has already been uploaded");
    Error::BadRequest(m)
}

/// Checks whether a part can be taken.
fn admit_part(
    request: &RequestHeaders,
    part_number: u64,
    upload_id: &str,
    object: Option<&Object>,
    version: Option<&Version>,
    first_block: Option<&[u8]>,
) -> (r: Result<(Uuid, Option<String>), Error>)
    ensures
        match part_admitted(
            upload_id@,
            part_number,
            header_text(request.fields@, "content-md5"@),
            opt_object(object),
            opt_version(version),
            opt_bytes(first_block),
        ) {
            Err(e) => r matches Err(f) && f@ == e,
            Ok(uuid) => r matches Ok(a) && a.0 == uuid && header_text(
                request.fields@,
                "content-md5"@,
            ) == Ok::<Option<Seq<char>>, ErrorView>(opt_string(a.1)),
        },
{
    let version_uuid = match decode_upload_id(upload_id) {
        Ok(u) => u,
        Err(e) => {
            return Err(e);
        },
    };
    let content_md5 = match request.get_text("content-md5") {
        Ok(m) => m,
        Err(e) => {
            return Err(e);
        },
    };
    match first_block {
        Some(b) => if b.len() == 0 {
            return Err(Error::bad_request("Empty body"));
        },
        None => {
            return Err(Error::bad_request("Empty body"));
        },
    }
    let object = match object {
        Some(o) => o,
        None => {
            return Err(Error::NoSuchUpload);
        },
    };
    if object.find_uploading(&version_uuid).is_none() {
        return Err(Error::NoSuchUpload);
    }
    if let Some(v) = version {
        if v.has_part_number(part_number) {
            return Err(already_uploaded(part_number));
        }
    }
    Ok((version_uuid, content_md5))
}

/// Decides whether part `part_number` of the upload `upload_id` of `key`
/// is taken, once the rows of the object and of the upload were read and
/// the first block of the part is there.
///
/// The part is refused where the upload id names no upload, the body is
/// empty, the object is missing or does not hold the upload as a version in
/// progress, or the part was received before. Else its first block is
/// entered at offset 0 of the part.
pub fn handle_put_part(
    request: &RequestHeaders,
    bucket_id: Uuid,
    key: &str,
    part_number: u64,
    upload_id: &str,
    content_sha256: Option<data::Hash>,
    object: Option<&Object>,
    version: Option<&Version>,
    first_block: Option<&[u8]>,
) -> (r: Result<PartStart, Error>)
    ensures
        match part_admitted(
            upload_id@,
            part_number,
            header_text(request.fields@, "content-md5"@),
            opt_object(object),
            opt_version(version),
            opt_bytes(first_block),
        ) {
            Err(e) => r matches Err(f) && f@ == e,
            Ok(uuid) => {
                &&& r matches Ok(start)
                &&& start.upload.version_uuid == uuid
                &&& start.upload.bucket_id == bucket_id
                &&& start.upload.key@ == key@
                &&& start.upload.part_number == part_number
                &&& header_text(request.fields@, "content-md5"@) == Ok::<
                    Option<Seq<char>>,
                    ErrorView,
                >(opt_string(start.upload.content_md5))
                &&& start.upload.content_sha256 == content_sha256
                &&& start.upload.pipeline.data() == opt_bytes(first_block)
                &&& start.upload.pipeline.version() == empty_version(uuid, bucket_id, key@)
                &&& start.upload.pipeline.part_number() == part_number
                &&& start.first_write.hash@ == blake2_of(opt_bytes(first_block))
                &&& block_write_of(
                    start.first_write,
                    empty_version(uuid, bucket_id, key@),
                    part_number,
                    0,
                    start.first_write.hash,
                    opt_bytes(first_block).len(),
                )
            },
        },
{
    let (version_uuid, content_md5) = match admit_part(
        request,
        part_number,
        upload_id,
        object,
        version,
        first_block,
    ) {
        Ok(a) => a,
        Err(e) => {
            return Err(e);
        },
    };
    let first_block: &[u8] = match first_block {
        Some(b) => b,
        None => {
            return Err(Error::NoSuchUpload);
        },
    };
    let version = Version::new(version_uuid, bucket_id, String::from_str(key), false);
    let first_block_hash = blake2sum(first_block);
    let (pipeline, first_write) = read_and_put_blocks(
        &version,
        part_number,
        first_block,
        first_block_hash,
    );
    Ok(
        PartStart {
            first_write,
            upload: PartUpload {
                version_uuid,
                bucket_id,
                key: String::from_str(key),
                part_number,
                content_md5,
                content_sha256,
                pipeline,
            },
        },
    )
}

/// What is written and answered for part `part_number` of an upload once
/// its data, with the given MD5 digest, were received in full: the ETag of
/// the part is the hexadecimal text of the digest, and the row enters it in
/// the catalogue of the upload.
pub fn part_done(
    version_uuid: Uuid,
    bucket_id: Uuid,
    key: String,
    part_number: u64,
    data_md5sum: &[u8; 16],
) -> (done: PartDone)
    ensures
        done.etag@ == hex_text(data_md5sum@),
        done.version@ == (VersionView {
            parts_etags: seq![(part_number, hex_text(data_md5sum@))],
            ..empty_version(version_uuid, bucket_id, key@)
        }),
        has_part(done.version@.parts_etags, part_number),
{
    let etag = hex_encode(data_md5sum.as_slice());
    let mut version = Version::new(version_uuid, bucket_id, key, false);
    version.parts_etags.put(part_number, etag.clone());
    assert(etags_view(version.parts_etags@) =~= seq![(part_number, etag@)]);
    assert(version@.parts_etags[0].0 == part_number);
    PartDone { version, etag }
}

impl PartUpload {
    /// Takes the next block of the part.
    pub fn put_block(self, block: &[u8]) -> (r: (PartUpload, BlockWrite))
        requires
            self.pipeline.data().len() + block@.len() <= u64::MAX,
        ensures
            r.0.pipeline.data() == self.pipeline.data() + block@,
            r.0.pipeline.version() == self.pipeline.version(),
            r.0.pipeline.part_number() == self.pipeline.part_number(),
            r.0.version_uuid == self.version_uuid,
            r.0.bucket_id == self.bucket_id,
            r.0.key@ == self.key@,
            r.0.part_number == self.part_number,
            opt_string(r.0.content_md5) == opt_string(self.content_md5),
            r.0.content_sha256 == self.content_sha256,
            r.1.hash@ == blake2_of(block@),
            block_write_of(
                r.1,
                self.pipeline.version(),
                self.pipeline.part_number(),
                self.pipeline.data().len() as u64,
                r.1.hash,
                block@.len(),
            ),
    {
        let PartUpload {
            version_uuid,
            bucket_id,
            key,
            part_number,
            content_md5,
            content_sha256,
            pipeline,
        } = self;
        let (pipeline, write) = pipeline.put_block(block);
        (
            PartUpload {
                version_uuid,
                bucket_id,
                key,
                part_number,
                content_md5,
                content_sha256,
                pipeline,
            },
            write,
        )
    }

    /// Ends the part after its last block: the digests of the part are held
    /// against the checksums of the request. Where they pass, the ETag of
    /// the part, the hexadecimal text of its MD5 digest, is entered in the
    /// catalogue of the upload.
    pub fn finish(self) -> (r: Result<PartDone, Error>)
        ensures
            match checksum_verdict(
                base64_text(md5_of(self.pipeline.data())),
                sha256_of(self.pipeline.data()),
                opt_string(self.content_md5),
                self.content_sha256,
            ) {
                Err(e) => r matches Err(f) && f@ == e,
                Ok(()) => {
                    &&& r matches Ok(done)
                    &&& done.etag@ == hex_text(md5_of(self.pipeline.data()))
                    &&& done.version@ == (VersionView {
                        parts_etags: seq![(self.part_number, done.etag@)],
                        ..empty_version(self.version_uuid, self.bucket_id, self.key@)
                    })
                    &&& has_part(done.version@.parts_etags, self.part_number)
                },
            },
    {
        let PartUpload {
            version_uuid,
            bucket_id,
            key,
            part_number,
            content_md5,
            content_sha256,
            pipeline,
        } = self;
        let (_, data_md5sum, data_sha256sum) = pipeline.finish();
        let checked = match &content_md5 {
            Some(m) => ensure_checksum_matches(
                &data_md5sum,
                data_sha256sum,
                Some(m.as_str()),
                content_sha256,
            ),
            None => ensure_checksum_matches(&data_md5sum, data_sha256sum, None, content_sha256),
        };
        match checked {
            Err(e) => {
                return Err(e);
            },
            Ok(()) => {},
        }
        Ok(part_done(version_uuid, bucket_id, key, part_number, &data_md5sum))
    }
}

/// Aborts the upload `upload_id` of `key` in `bucket_id`, once the row of
/// the object was read: the result is the row to write, which holds the
/// version of the upload, at its time stamp, as aborted. Blocks and block
/// references stay as they are.
pub fn handle_abort_multipart_upload(
    bucket_id: Uuid,
    key: &str,
    upload_id: &str,
    object: Option<&Object>,
) -> (r: Result<Object, Error>)
    ensures
        match upload_of(upload_id@) {
            None => r matches Err(e) && e@ == ErrorView::NoSuchUpload,
            Some(uuid) => match object {
                None => r matches Err(e) && e@ == ErrorView::NoSuchKey,
                Some(o) => match find_upload(o@.versions, uuid) {
                    None => r matches Err(e) && e@ == ErrorView::NoSuchUpload,
                    Some(i) => r matches Ok(row) && row@ == object_with(
                        bucket_id,
                        key@,
                        uuid,
                        o@.versions[i].timestamp,
                        StateView::Aborted,
                    ),
                },
            },
        },
{
    let version_uuid = match decode_upload_id(upload_id) {
        Ok(u) => u,
        Err(e) => {
            return Err(e);
        },
    };
    let object = match object {
        Some(o) => o,
        None => {
            return Err(Error::NoSuchKey);
        },
    };
    let i = match object.find_uploading(&version_uuid) {
        Some(i) => i,
        None => {
            return Err(Error::NoSuchUpload);
        },
    };
    let entry = &object.versions()[i];
    let object_version = ObjectVersion {
        uuid: entry.0.uuid,
        timestamp: entry.0.timestamp,
        state: ObjectVersionState::Aborted,
    };
    Ok(Object::single(bucket_id, String::from_str(key), object_version))
}

} // verus!
