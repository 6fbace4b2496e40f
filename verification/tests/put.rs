use s3_ingest::chunker::StreamChunker;
use s3_ingest::data::Uuid;
use s3_ingest::digest::{blake2sum, md5sum, sha256sum};
use s3_ingest::error::Error;
use s3_ingest::headers::{put_response, HeaderField, RequestHeaders};
use s3_ingest::object::{
    Object, ObjectVersion, ObjectVersionData, ObjectVersionHeaders, ObjectVersionMeta,
    ObjectVersionState,
};
use s3_ingest::block_writer::{put_block_meta, read_and_put_blocks};
use s3_ingest::checksum::{check_checksums, ensure_checksum_matches};
use s3_ingest::cleanup::InterruptedCleanup;
use s3_ingest::put::{handle_put, save_stream, version_timestamp, PutStart, INLINE_THRESHOLD};
use s3_ingest::quota::{BucketCounters, BucketQuotas};
use s3_ingest::version::{BlockRef, Version, VersionBlock, VersionBlockKey};

const MIB: usize = 1024 * 1024;

fn no_quotas() -> BucketQuotas {
    BucketQuotas { max_size: None, max_objects: None }
}

fn counters(objects: i64, bytes: i64) -> BucketCounters {
    BucketCounters { objects, bytes }
}

fn headers() -> ObjectVersionHeaders {
    ObjectVersionHeaders::new("text/plain".to_string())
}

fn bucket() -> Uuid {
    Uuid::new([1; 16])
}

fn version_id() -> Uuid {
    Uuid::new([0xab; 16])
}

fn hex(bytes: &[u8]) -> String {
    bytes.iter().map(|b| format!("{:02x}", b)).collect()
}

fn complete_object(uuid: Uuid, timestamp: u64, size: u64) -> Object {
    Object::new(
        bucket(),
        "key".to_string(),
        vec![ObjectVersion {
            uuid,
            timestamp,
            state: ObjectVersionState::Complete(ObjectVersionData::FirstBlock(
                ObjectVersionMeta { headers: headers(), size, etag: "e".to_string() },
                s3_ingest::data::Hash::new([9; 32]),
            )),
        }],
    )
}

#[test]
fn inline_put_of_hello() {
    let start = save_stream(
        headers(),
        Some(b"hello".to_vec()),
        None,
        bucket(),
        "key",
        None,
        None,
        version_id(),
        1000,
        &no_quotas(),
        &counters(0, 0),
    )
    .unwrap();
    match start {
        PutStart::Inline { object, version_uuid, etag } => {
            assert_eq!(etag, "5d41402abc4b2a76b9719d911017c592");
            assert_eq!(version_uuid, version_id());
            assert_eq!(object.bucket_id, bucket());
            assert_eq!(object.key, "key");
            let versions = object.versions();
            assert_eq!(versions.len(), 1);
            assert_eq!(versions[0].0.uuid, version_id());
            assert_eq!(versions[0].0.timestamp, 1000);
            match &versions[0].1 {
                ObjectVersionState::Complete(ObjectVersionData::Inline(meta, bytes)) => {
                    assert_eq!(bytes, b"hello");
                    assert_eq!(meta.size, 5);
                    assert_eq!(meta.etag, "5d41402abc4b2a76b9719d911017c592");
                    assert_eq!(meta.headers, headers());
                }
                other => panic!("not inline: {:?}", other),
            }
            let response = put_response(version_uuid, &etag);
            assert_eq!(
                response,
                vec![
                    ("x-amz-version-id".to_string(), "ab".repeat(16)),
                    ("ETag".to_string(), "\"5d41402abc4b2a76b9719d911017c592\"".to_string()),
                ]
            );
            assert_eq!(response[0].1.len(), 32);
        }
        PutStart::Streaming { .. } => panic!("a short body is kept inline"),
    }
}

#[test]
fn empty_body_is_inline() {
    let start = save_stream(
        headers(),
        None,
        None,
        bucket(),
        "key",
        None,
        None,
        version_id(),
        5,
        &no_quotas(),
        &counters(0, 0),
    )
    .unwrap();
    match start {
        PutStart::Inline { object, etag, .. } => {
            assert_eq!(etag, "d41d8cd98f00b204e9800998ecf8427e");
            match &object.versions()[0].1 {
                ObjectVersionState::Complete(ObjectVersionData::Inline(meta, bytes)) => {
                    assert!(bytes.is_empty());
                    assert_eq!(meta.size, 0);
                }
                other => panic!("not inline: {:?}", other),
            }
        }
        PutStart::Streaming { .. } => panic!("an empty body is kept inline"),
    }
}

#[test]
fn inline_boundary() {
    assert_eq!(INLINE_THRESHOLD, 3072);
    let below = vec![7u8; INLINE_THRESHOLD - 1];
    let start = save_stream(
        headers(),
        Some(below.clone()),
        None,
        bucket(),
        "key",
        None,
        None,
        version_id(),
        1,
        &no_quotas(),
        &counters(0, 0),
    )
    .unwrap();
    match start {
        PutStart::Inline { object, .. } => match &object.versions()[0].1 {
            ObjectVersionState::Complete(ObjectVersionData::Inline(_, bytes)) => {
                assert_eq!(bytes, &below)
            }
            other => panic!("not inline: {:?}", other),
        },
        PutStart::Streaming { .. } => panic!("below the threshold a body is kept inline"),
    }
    let at = vec![7u8; INLINE_THRESHOLD];
    let start = save_stream(
        headers(),
        Some(at.clone()),
        None,
        bucket(),
        "key",
        None,
        None,
        version_id(),
        1,
        &no_quotas(),
        &counters(0, 0),
    )
    .unwrap();
    match start {
        PutStart::Inline { .. } => panic!("at the threshold a body is streamed"),
        PutStart::Streaming { object, version, cleanup, first_block, first_write, upload } => {
            assert_eq!(first_block, at);
            assert!(matches!(&object.versions()[0].1, ObjectVersionState::Uploading(h) if *h == headers()));
            assert_eq!(object.versions()[0].0.uuid, version_id());
            assert_eq!(version.uuid, version_id());
            assert!(version.blocks.is_empty());
            assert!(version.parts_etags.is_empty());
            assert!(!version.deleted);
            assert!(cleanup.target.is_some());
            assert_eq!(upload.first_block_hash, blake2sum(&at));
            assert_eq!(first_write.hash, blake2sum(&at));
            assert_eq!(
                first_write.version.blocks.items(),
                &vec![(
                    VersionBlockKey { part_number: 1, offset: 0 },
                    VersionBlock { hash: blake2sum(&at), size: INLINE_THRESHOLD as u64 }
                )]
            );
            assert_eq!(
                first_write.block_ref,
                BlockRef { block: blake2sum(&at), version: version_id(), deleted: false }
            );
        }
    }
}

#[test]
fn streaming_put_with_wrong_md5() {
    let body = vec![0xAAu8; 2 * MIB];
    let blocks = StreamChunker::chunk_all(&vec![body.clone()], MIB);
    assert_eq!(blocks.len(), 2);
    let mut blocks = blocks.into_iter();
    let start = save_stream(
        headers(),
        blocks.next(),
        None,
        bucket(),
        "key",
        Some("AAAAAAAAAAAAAAAAAAAAAA=="),
        None,
        version_id(),
        1000,
        &no_quotas(),
        &counters(0, 0),
    )
    .unwrap();
    let (mut cleanup, mut upload) = match start {
        PutStart::Streaming { cleanup, upload, .. } => (cleanup, upload),
        PutStart::Inline { .. } => panic!("a long body is streamed"),
    };
    for block in blocks {
        let (next, write) = upload.put_block(&block);
        upload = next;
        assert_eq!(write.hash, blake2sum(&block));
        assert_eq!(write.version.blocks.items()[0].0, VersionBlockKey { part_number: 1, offset: MIB as u64 });
    }
    let done = upload.finish(
        Some("AAAAAAAAAAAAAAAAAAAAAA=="),
        None,
        &no_quotas(),
        &counters(0, 0),
        None,
    );
    assert_eq!(done, Err(Error::BadRequest("Unable to validate content-md5".to_string())));
    assert_eq!(done.unwrap_err().http_status_code(), 400);
    // Nothing completes the version: the guard marks it as aborted.
    let row = cleanup.release().expect("the guard still stands");
    assert_eq!(row.versions().len(), 1);
    assert_eq!(row.versions()[0].0.uuid, version_id());
    assert_eq!(row.versions()[0].0.timestamp, 1000);
    assert_eq!(row.versions()[0].1, ObjectVersionState::Aborted);
    assert_eq!(cleanup.release(), None);
}

#[test]
fn streaming_put_goes_through() {
    let body: Vec<u8> = (0..(2 * MIB + 17)).map(|i| (i % 253) as u8).collect();
    let blocks = StreamChunker::chunk_all(&vec![body[..MIB / 2].to_vec(), body[MIB / 2..].to_vec()], MIB);
    assert_eq!(blocks.len(), 3);
    let md5 = md5sum(&body);
    let md5_base64 = "\"".to_string() + &base64_of(&md5) + "\"";
    let sha = sha256sum(&body);
    let mut blocks = blocks.into_iter();
    let first = blocks.next().unwrap();
    let start = save_stream(
        headers(),
        Some(first.clone()),
        None,
        bucket(),
        "key",
        Some(&md5_base64),
        Some(sha),
        version_id(),
        1000,
        &no_quotas(),
        &counters(0, 0),
    )
    .unwrap();
    let (mut cleanup, mut upload) = match start {
        PutStart::Streaming { cleanup, upload, .. } => (cleanup, upload),
        PutStart::Inline { .. } => panic!("a long body is streamed"),
    };
    let mut offset = MIB as u64;
    for block in blocks {
        let (next, write) = upload.put_block(&block);
        upload = next;
        assert_eq!(write.version.blocks.items()[0].0, VersionBlockKey { part_number: 1, offset });
        assert_eq!(write.version.blocks.items()[0].1.size, block.len() as u64);
        offset += block.len() as u64;
    }
    let done = upload
        .finish(Some(&md5_base64), Some(sha), &no_quotas(), &counters(0, 0), None)
        .unwrap();
    cleanup.cancel();
    assert_eq!(cleanup.release(), None);
    assert_eq!(done.etag, hex(&md5));
    assert_eq!(done.version_uuid, version_id());
    match &done.object.versions()[0].1 {
        ObjectVersionState::Complete(ObjectVersionData::FirstBlock(meta, hash)) => {
            assert_eq!(meta.size, body.len() as u64);
            assert_eq!(meta.etag, hex(&md5));
            assert_eq!(*hash, blake2sum(&first));
        }
        other => panic!("not complete: {:?}", other),
    }
    assert_eq!(done.object.versions()[0].0.timestamp, 1000);
}

fn base64_of(bytes: &[u8]) -> String {
    const ALPHABET: &[u8; 64] =
        b"ABCDEFGHIJKLMNOPQRSTUVWXYZabcdefghijklmnopqrstuvwxyz0123456789+/";
    let mut out = String::new();
    for chunk in bytes.chunks(3) {
        let b = [chunk[0], *chunk.get(1).unwrap_or(&0), *chunk.get(2).unwrap_or(&0)];
        let n = ((b[0] as u32) << 16) | ((b[1] as u32) << 8) | b[2] as u32;
        out.push(ALPHABET[(n >> 18) as usize & 63] as char);
        out.push(ALPHABET[(n >> 12) as usize & 63] as char);
        out.push(if chunk.len() > 1 { ALPHABET[(n >> 6) as usize & 63] as char } else { '=' });
        out.push(if chunk.len() > 2 { ALPHABET[n as usize & 63] as char } else { '=' });
    }
    out
}

#[test]
fn checksums_are_validated() {
    let data = b"hello";
    let md5 = md5sum(data);
    let sha = sha256sum(data);
    assert_eq!(base64_of(&md5), "XUFAKrxLKna5cZ2REBfFkg==");
    assert_eq!(ensure_checksum_matches(&md5, sha, None, None), Ok(()));
    assert_eq!(ensure_checksum_matches(&md5, sha, Some("XUFAKrxLKna5cZ2REBfFkg=="), None), Ok(()));
    assert_eq!(
        ensure_checksum_matches(&md5, sha, Some("\"XUFAKrxLKna5cZ2REBfFkg==\""), Some(sha)),
        Ok(())
    );
    assert_eq!(
        ensure_checksum_matches(&md5, sha, Some("XUFAKrxLKna5cZ2REBfFkg="), None),
        Err(Error::BadRequest("Unable to validate content-md5".to_string()))
    );
    // The bytes themselves are not their own base64 text.
    assert_eq!(
        ensure_checksum_matches(&md5, sha, Some("5d41402abc4b2a76b9719d911017c592"), None),
        Err(Error::BadRequest("Unable to validate content-md5".to_string()))
    );
    assert_eq!(
        ensure_checksum_matches(&md5, sha, None, Some(sha256sum(b"other"))),
        Err(Error::BadRequest("Unable to validate x-amz-content-sha256".to_string()))
    );
    // Both fail: the signed digest is reported.
    assert_eq!(
        ensure_checksum_matches(&md5, sha, Some("x"), Some(sha256sum(b"other"))),
        Err(Error::BadRequest("Unable to validate x-amz-content-sha256".to_string()))
    );
    assert_eq!(check_checksums("abc", sha, Some("\"\"abc\""), None), Ok(()));
    assert_eq!(
        check_checksums("abc", sha, Some("abd"), None),
        Err(Error::BadRequest("Unable to validate content-md5".to_string()))
    );
}

#[test]
fn inline_put_with_wrong_checksum_is_refused() {
    let r = save_stream(
        headers(),
        Some(b"hello".to_vec()),
        None,
        bucket(),
        "key",
        Some("AAAAAAAAAAAAAAAAAAAAAA=="),
        None,
        version_id(),
        1000,
        &no_quotas(),
        &counters(0, 0),
    );
    assert!(matches!(r, Err(Error::BadRequest(m)) if m == "Unable to validate content-md5"));
}

#[test]
fn timestamps_are_monotonic() {
    assert_eq!(version_timestamp(None, 77), 77);
    let empty = Object::new(bucket(), "key".to_string(), vec![]);
    assert_eq!(version_timestamp(Some(&empty), 77), 77);
    let old = complete_object(Uuid::new([2; 16]), 5000, 10);
    assert_eq!(version_timestamp(Some(&old), 77), 5001);
    assert_eq!(version_timestamp(Some(&old), 5000), 5001);
    assert_eq!(version_timestamp(Some(&old), 5001), 5001);
    assert_eq!(version_timestamp(Some(&old), 6000), 6000);
    let two = Object::new(
        bucket(),
        "key".to_string(),
        vec![
            ObjectVersion { uuid: Uuid::new([3; 16]), timestamp: 90, state: ObjectVersionState::Aborted },
            ObjectVersion { uuid: Uuid::new([2; 16]), timestamp: 40, state: ObjectVersionState::Aborted },
        ],
    );
    assert_eq!(two.versions()[0].0.timestamp, 40);
    assert_eq!(two.versions()[1].0.timestamp, 90);
    assert_eq!(two.last_timestamp(), Some(90));
    assert_eq!(version_timestamp(Some(&two), 10), 91);
    // A second PUT of the key comes after the first one.
    let start = save_stream(
        headers(),
        Some(b"again".to_vec()),
        Some(&old),
        bucket(),
        "key",
        None,
        None,
        version_id(),
        1000,
        &no_quotas(),
        &counters(1, 10),
    )
    .unwrap();
    match start {
        PutStart::Inline { object, .. } => assert_eq!(object.versions()[0].0.timestamp, 5001),
        PutStart::Streaming { .. } => panic!("a short body is kept inline"),
    }
}

#[test]
fn handle_put_reads_the_request_headers() {
    let request = RequestHeaders {
        fields: vec![
            HeaderField { name: "content-type".to_string(), value: b"image/png".to_vec() },
            HeaderField { name: "content-md5".to_string(), value: b"XUFAKrxLKna5cZ2REBfFkg==".to_vec() },
            HeaderField { name: "x-amz-meta-a".to_string(), value: b"1".to_vec() },
        ],
    };
    let start = handle_put(
        &request,
        Some(b"hello".to_vec()),
        None,
        bucket(),
        "key",
        None,
        version_id(),
        1000,
        &no_quotas(),
        &counters(0, 0),
    )
    .unwrap();
    match start {
        PutStart::Inline { object, etag, .. } => {
            assert_eq!(etag, "5d41402abc4b2a76b9719d911017c592");
            match &object.versions()[0].1 {
                ObjectVersionState::Complete(ObjectVersionData::Inline(meta, _)) => {
                    assert_eq!(meta.headers.content_type, "image/png");
                    assert_eq!(
                        meta.headers.other.entries(),
                        &vec![("x-amz-meta-a".to_string(), "1".to_string())]
                    );
                }
                other => panic!("not inline: {:?}", other),
            }
        }
        PutStart::Streaming { .. } => panic!("a short body is kept inline"),
    }
    let wrong = RequestHeaders {
        fields: vec![HeaderField { name: "content-md5".to_string(), value: b"AAAA".to_vec() }],
    };
    let r = handle_put(
        &wrong,
        Some(b"hello".to_vec()),
        None,
        bucket(),
        "key",
        None,
        version_id(),
        1000,
        &no_quotas(),
        &counters(0, 0),
    );
    assert!(matches!(r, Err(Error::BadRequest(m)) if m == "Unable to validate content-md5"));
    let unreadable = RequestHeaders {
        fields: vec![HeaderField { name: "content-md5".to_string(), value: vec![0xff] }],
    };
    let r = handle_put(
        &unreadable,
        Some(b"hello".to_vec()),
        None,
        bucket(),
        "key",
        None,
        version_id(),
        1000,
        &no_quotas(),
        &counters(0, 0),
    );
    assert!(matches!(r, Err(Error::InvalidHeader(_))));
}

#[test]
fn block_rows() {
    let mut version = Version::new(version_id(), bucket(), "key".to_string(), false);
    let h1 = blake2sum(b"one");
    let h2 = blake2sum(b"two");
    version.blocks.put(VersionBlockKey { part_number: 2, offset: 0 }, VersionBlock { hash: h1, size: 3 });
    let (row, block_ref) = put_block_meta(&version, 1, 10, h2, 4);
    assert_eq!(
        row.blocks.items(),
        &vec![
            (VersionBlockKey { part_number: 1, offset: 10 }, VersionBlock { hash: h2, size: 4 }),
            (VersionBlockKey { part_number: 2, offset: 0 }, VersionBlock { hash: h1, size: 3 }),
        ]
    );
    assert_eq!(row.uuid, version_id());
    assert_eq!(row.bucket_id, bucket());
    assert_eq!(row.key, "key");
    assert_eq!(block_ref, BlockRef { block: h2, version: version_id(), deleted: false });
    // The catalogue that was handed in is not changed.
    assert_eq!(version.blocks.len(), 1);
    // A block at the same place takes the place of the one before.
    let (row, _) = put_block_meta(&row, 1, 10, h1, 5);
    assert_eq!(row.blocks.len(), 2);
    assert_eq!(row.blocks.items()[0].1, VersionBlock { hash: h1, size: 5 });
    assert_eq!(row.total_size(), Some(8));
}

#[test]
fn pipeline_digests_agree_with_one_shot_digests() {
    let body: Vec<u8> = (0..10_000).map(|i| (i * 7 % 256) as u8).collect();
    let version = Version::new(version_id(), bucket(), "key".to_string(), false);
    for block_size in [1usize, 3, 999, 4096, 10_000, 20_000] {
        let blocks = StreamChunker::chunk_all(&vec![body.clone()], block_size);
        let (mut pipeline, first) =
            read_and_put_blocks(&version, 4, &blocks[0], blake2sum(&blocks[0]));
        assert_eq!(first.version.blocks.items()[0].0, VersionBlockKey { part_number: 4, offset: 0 });
        let mut offset = blocks[0].len() as u64;
        for block in &blocks[1..] {
            let (next, write) = pipeline.put_block(block);
            pipeline = next;
            assert_eq!(write.hash, blake2sum(block));
            assert_eq!(
                write.version.blocks.items(),
                &vec![(
                    VersionBlockKey { part_number: 4, offset },
                    VersionBlock { hash: blake2sum(block), size: block.len() as u64 }
                )]
            );
            offset += block.len() as u64;
        }
        let (size, md5, sha) = pipeline.finish();
        assert_eq!(size, body.len() as u64);
        assert_eq!(md5, md5sum(&body));
        assert_eq!(sha, sha256sum(&body));
    }
}

#[test]
fn cleanup_guard() {
    let mut guard = InterruptedCleanup::new(bucket(), "key".to_string(), version_id(), 12);
    let row = guard.release().unwrap();
    assert_eq!(row.bucket_id, bucket());
    assert_eq!(row.key, "key");
    assert_eq!(row.versions().len(), 1);
    assert_eq!(row.versions()[0].0.uuid, version_id());
    assert_eq!(row.versions()[0].0.timestamp, 12);
    assert_eq!(row.versions()[0].1, ObjectVersionState::Aborted);
    assert_eq!(guard.release(), None);
    let mut guard = InterruptedCleanup::new(bucket(), "key".to_string(), version_id(), 12);
    guard.cancel();
    assert_eq!(guard.release(), None);
}

#[test]
fn final_states_dominate() {
    let uploading = ObjectVersionState::Uploading(headers());
    let complete = ObjectVersionState::Complete(ObjectVersionData::Inline(
        ObjectVersionMeta { headers: headers(), size: 1, etag: "e".to_string() },
        vec![1],
    ));
    let mut s = uploading.clone();
    s.merge(&ObjectVersionState::Aborted);
    assert_eq!(s, ObjectVersionState::Aborted);
    let mut s = ObjectVersionState::Aborted;
    s.merge(&uploading);
    assert_eq!(s, ObjectVersionState::Aborted);
    let mut s = uploading.clone();
    s.merge(&complete);
    assert_eq!(s, complete);
    let mut s = complete.clone();
    s.merge(&uploading);
    assert_eq!(s, complete);
    let mut s = complete.clone();
    s.merge(&ObjectVersionState::Aborted);
    assert_eq!(s, ObjectVersionState::Aborted);
    let mut s = uploading.clone();
    s.merge(&uploading);
    assert_eq!(s, uploading);
}

#[test]
fn rows_from_given_digests() {
    let digest: [u8; 16] = [
        0x00, 0x11, 0x22, 0x33, 0x44, 0x55, 0x66, 0x77, 0x88, 0x99, 0xaa, 0xbb, 0xcc, 0xdd, 0xee,
        0xff,
    ];
    let (object, etag) = s3_ingest::put::inline_object(
        bucket(),
        "key".to_string(),
        version_id(),
        9,
        headers(),
        vec![1, 2, 3],
        &digest,
    );
    assert_eq!(etag, "00112233445566778899aabbccddeeff");
    assert_eq!(
        object,
        Object::new(
            bucket(),
            "key".to_string(),
            vec![ObjectVersion {
                uuid: version_id(),
                timestamp: 9,
                state: ObjectVersionState::Complete(ObjectVersionData::Inline(
                    ObjectVersionMeta { headers: headers(), size: 3, etag: etag.clone() },
                    vec![1, 2, 3],
                )),
            }],
        )
    );
    let hash = s3_ingest::data::Hash::new([6; 32]);
    let (object, etag) = s3_ingest::put::streamed_object(
        bucket(),
        "key".to_string(),
        version_id(),
        9,
        headers(),
        77,
        &digest,
        hash,
    );
    assert_eq!(etag, "00112233445566778899aabbccddeeff");
    assert_eq!(
        object.versions()[0].1,
        ObjectVersionState::Complete(ObjectVersionData::FirstBlock(
            ObjectVersionMeta { headers: headers(), size: 77, etag },
            hash,
        ))
    );
}

#[test]
fn pipeline_offsets() {
    let version = Version::new(version_id(), bucket(), "key".to_string(), false);
    let (pipeline, _) = read_and_put_blocks(&version, 1, b"abcd", blake2sum(b"abcd"));
    assert_eq!(pipeline.next_offset(), 4);
    let (pipeline, write) = pipeline.put_block(b"efghij");
    assert_eq!(write.version.blocks.items()[0].0.offset, 4);
    assert_eq!(pipeline.next_offset(), 10);
}

#[test]
fn signed_content() {
    let sha = sha256sum(b"body");
    assert_eq!(s3_ingest::checksum::verify_signed_content(sha, b"body"), Ok(()));
    assert_eq!(
        s3_ingest::checksum::verify_signed_content(sha, b"other"),
        Err(Error::BadRequest("Request content hash does not match signed hash".to_string()))
    );
    assert_eq!(s3_ingest::checksum::check_signed_content(sha, sha), Ok(()));
    assert!(s3_ingest::checksum::check_signed_content(sha, sha256sum(b"")).is_err());
}

#[test]
fn digests_over_any_number_of_blocks() {
    let body: Vec<u8> = (0..5000).map(|i| (i * 13 % 256) as u8).collect();
    let version = Version::new(version_id(), bucket(), "key".to_string(), false);
    for block_size in [1usize, 7, 64, 4999, 5000] {
        let blocks = StreamChunker::chunk_all(&vec![body.clone()], block_size);
        let (pipeline, _) = read_and_put_blocks(&version, 2, &blocks[0], blake2sum(&blocks[0]));
        let rest: Vec<Vec<u8>> = blocks[1..].to_vec();
        let (pipeline, writes) = pipeline.put_blocks(&rest).expect("the data fit");
        assert_eq!(writes.len(), rest.len());
        let mut offset = blocks[0].len() as u64;
        for (w, b) in writes.iter().zip(rest.iter()) {
            assert_eq!(w.hash, blake2sum(b));
            assert_eq!(
                w.version.blocks.items(),
                &vec![(
                    VersionBlockKey { part_number: 2, offset },
                    VersionBlock { hash: blake2sum(b), size: b.len() as u64 }
                )]
            );
            offset += b.len() as u64;
        }
        let (size, md5, sha) = pipeline.finish();
        assert_eq!(size, 5000);
        assert_eq!(md5, md5sum(&body));
        assert_eq!(sha, sha256sum(&body));
    }
    let (pipeline, _) = read_and_put_blocks(&version, 2, b"x", blake2sum(b"x"));
    let (pipeline, writes) = pipeline.put_blocks(&vec![]).unwrap();
    assert!(writes.is_empty());
    assert_eq!(pipeline.finish().1, md5sum(b"x"));
}
