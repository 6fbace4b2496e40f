use s3_ingest::data::Uuid;
use s3_ingest::object::{
    Object, ObjectVersion, ObjectVersionData, ObjectVersionHeaders, ObjectVersionMeta,
    ObjectVersionState, VersionKey,
};

fn headers() -> ObjectVersionHeaders {
    let mut h = ObjectVersionHeaders::new("text/plain".to_string());
    h.put("x-amz-meta-a".to_string(), "1".to_string());
    h
}

fn complete(size: u64) -> ObjectVersionState {
    ObjectVersionState::Complete(ObjectVersionData::Inline(
        ObjectVersionMeta { headers: headers(), size, etag: "etag".to_string() },
        vec![0; size as usize],
    ))
}

fn version(id: u8, timestamp: u64, state: ObjectVersionState) -> ObjectVersion {
    ObjectVersion { uuid: Uuid::new([id; 16]), timestamp, state }
}

fn object(versions: Vec<ObjectVersion>) -> Object {
    Object::new(Uuid::new([0xb; 16]), "key".to_string(), versions)
}

fn keys(o: &Object) -> Vec<(u64, u8)> {
    o.versions().iter().map(|e| (e.0.timestamp, e.0.uuid.bytes[0])).collect()
}

#[test]
fn versions_are_kept_in_order() {
    let o = object(vec![
        version(3, 20, ObjectVersionState::Aborted),
        version(1, 30, ObjectVersionState::Aborted),
        version(2, 20, ObjectVersionState::Aborted),
        version(9, 10, complete(1)),
        version(2, 20, complete(2)),
    ]);
    assert_eq!(keys(&o), vec![(10, 9), (20, 2), (20, 3), (30, 1)]);
    // Of two versions with one key the later one stays.
    assert_eq!(o.versions()[1].1, complete(2));
    assert_eq!(o.last_timestamp(), Some(30));
    assert_eq!(
        o.versions()[0].0,
        VersionKey { timestamp: 10, uuid: Uuid::new([9; 16]) }
    );
    let single = Object::single(
        Uuid::new([0xb; 16]),
        "key".to_string(),
        version(1, 5, ObjectVersionState::Aborted),
    );
    assert_eq!(single, object(vec![version(1, 5, ObjectVersionState::Aborted)]));
}

#[test]
fn uploads_are_found() {
    let o = object(vec![
        version(1, 10, ObjectVersionState::Uploading(headers())),
        version(2, 20, ObjectVersionState::Aborted),
        version(3, 30, complete(1)),
        version(1, 40, ObjectVersionState::Uploading(headers())),
        version(3, 50, ObjectVersionState::Uploading(headers())),
    ]);
    assert_eq!(o.find_uploading(&Uuid::new([1; 16])), Some(0));
    assert_eq!(o.find_uploading(&Uuid::new([2; 16])), None);
    assert_eq!(o.find_uploading(&Uuid::new([3; 16])), Some(4));
    assert_eq!(o.find_uploading(&Uuid::new([4; 16])), None);
    assert!(o.versions()[0].1.is_uploading());
    assert!(!o.versions()[0].1.is_complete());
    assert!(o.versions()[2].1.is_complete());
    let v = version(3, 30, complete(1));
    assert!(v.is_complete() && !v.is_uploading());
}

#[test]
fn rows_of_an_object_merge() {
    let mut a = object(vec![
        version(1, 10, ObjectVersionState::Uploading(headers())),
        version(2, 20, ObjectVersionState::Uploading(headers())),
        version(3, 30, complete(3)),
    ]);
    let b = object(vec![
        version(2, 20, complete(2)),
        version(1, 10, ObjectVersionState::Aborted),
        version(4, 5, ObjectVersionState::Uploading(headers())),
        version(3, 30, ObjectVersionState::Uploading(headers())),
        version(3, 31, ObjectVersionState::Aborted),
    ]);
    a.merge(&b);
    assert_eq!(keys(&a), vec![(5, 4), (10, 1), (20, 2), (30, 3), (31, 3)]);
    assert_eq!(a.versions()[0].1, ObjectVersionState::Uploading(headers()));
    assert_eq!(a.versions()[1].1, ObjectVersionState::Aborted);
    assert_eq!(a.versions()[2].1, complete(2));
    assert_eq!(a.versions()[3].1, complete(3));
    assert_eq!(a.versions()[4].1, ObjectVersionState::Aborted);
    assert_eq!(a.bucket_id, Uuid::new([0xb; 16]));
    assert_eq!(a.key, "key");
    // Merging a row with itself leaves it as it is.
    let same = object(vec![
        version(4, 5, ObjectVersionState::Uploading(headers())),
        version(1, 10, ObjectVersionState::Aborted),
        version(2, 20, complete(2)),
        version(3, 30, complete(3)),
        version(3, 31, ObjectVersionState::Aborted),
    ]);
    assert_eq!(a, same);
    a.merge(&same);
    assert_eq!(a, same);
}

#[test]
fn aborted_row_overrides_the_reserved_version() {
    let reserved = || object(vec![version(7, 1000, ObjectVersionState::Uploading(headers()))]);
    let aborted = || object(vec![version(7, 1000, ObjectVersionState::Aborted)]);
    let mut row = reserved();
    row.merge(&aborted());
    assert_eq!(row, aborted());
    let mut row = aborted();
    row.merge(&reserved());
    assert_eq!(row, aborted());
    // A version that was aborted is not completed later.
    let mut row = aborted();
    row.merge(&object(vec![version(7, 1000, complete(1))]));
    assert_eq!(row, aborted());
    assert!(row.versions().iter().all(|e| !e.1.is_complete()));
}

#[test]
fn copies_are_equal() {
    let h = headers();
    assert_eq!(h.duplicate(), h);
    let c = complete(4);
    assert_eq!(c.duplicate(), c);
    let first = ObjectVersionState::Complete(ObjectVersionData::FirstBlock(
        ObjectVersionMeta { headers: headers(), size: 9, etag: "etag".to_string() },
        s3_ingest::data::Hash::new([5; 32]),
    ));
    assert_eq!(first.duplicate(), first);
    assert_eq!(ObjectVersionState::Aborted.duplicate(), ObjectVersionState::Aborted);
}
