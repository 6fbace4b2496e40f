use s3_ingest::data::Uuid;
use s3_ingest::error::Error;
use s3_ingest::object::{
    Object, ObjectVersion, ObjectVersionData, ObjectVersionHeaders, ObjectVersionMeta,
    ObjectVersionState,
};
use s3_ingest::quota::{check_quotas, BucketCounters, BucketQuotas};

const MIB: u64 = 1024 * 1024;

fn headers() -> ObjectVersionHeaders {
    ObjectVersionHeaders::new("blob".to_string())
}

fn object_of(size: u64) -> Object {
    Object::new(
        Uuid::new([1; 16]),
        "key".to_string(),
        vec![
            ObjectVersion {
                uuid: Uuid::new([2; 16]),
                timestamp: 1,
                state: ObjectVersionState::Complete(ObjectVersionData::FirstBlock(
                    ObjectVersionMeta { headers: headers(), size, etag: "e".to_string() },
                    s3_ingest::data::Hash::new([9; 32]),
                )),
            },
            ObjectVersion {
                uuid: Uuid::new([3; 16]),
                timestamp: 2,
                state: ObjectVersionState::Uploading(headers()),
            },
            ObjectVersion {
                uuid: Uuid::new([4; 16]),
                timestamp: 3,
                state: ObjectVersionState::Aborted,
            },
        ],
    )
}

#[test]
fn counts_of_an_object() {
    assert_eq!(object_of(10).counts(), (1, 10));
    let none = Object::new(Uuid::new([1; 16]), "key".to_string(), vec![]);
    assert_eq!(none.counts(), (0, 0));
    let uploading = Object::new(
        Uuid::new([1; 16]),
        "key".to_string(),
        vec![ObjectVersion {
            uuid: Uuid::new([3; 16]),
            timestamp: 2,
            state: ObjectVersionState::Uploading(headers()),
        }],
    );
    assert_eq!(uploading.counts(), (0, 0));
    let two = Object::new(
        Uuid::new([1; 16]),
        "key".to_string(),
        vec![
            ObjectVersion {
                uuid: Uuid::new([2; 16]),
                timestamp: 1,
                state: ObjectVersionState::Complete(ObjectVersionData::Inline(
                    ObjectVersionMeta { headers: headers(), size: 3, etag: "e".to_string() },
                    vec![1, 2, 3],
                )),
            },
            ObjectVersion {
                uuid: Uuid::new([2; 16]),
                timestamp: 2,
                state: ObjectVersionState::Complete(ObjectVersionData::FirstBlock(
                    ObjectVersionMeta { headers: headers(), size: u64::MAX, etag: "e".to_string() },
                    s3_ingest::data::Hash::new([9; 32]),
                )),
            },
        ],
    );
    assert_eq!(two.counts(), (1, u64::MAX as u128 + 3));
}

#[test]
fn no_quota_allows_everything() {
    let q = BucketQuotas { max_size: None, max_objects: None };
    let c = BucketCounters { objects: i64::MAX, bytes: i64::MAX };
    assert_eq!(check_quotas(&q, &c, u64::MAX, None), Ok(()));
}

#[test]
fn object_quota() {
    let q = BucketQuotas { max_size: None, max_objects: Some(10) };
    assert_eq!(check_quotas(&q, &BucketCounters { objects: 9, bytes: 0 }, 1, None), Ok(()));
    assert_eq!(
        check_quotas(&q, &BucketCounters { objects: 10, bytes: 0 }, 1, None),
        Err(Error::Forbidden(
            "Object quota is reached, maximum objects for this bucket: 10".to_string()
        ))
    );
    // Writing over an object adds none.
    assert_eq!(
        check_quotas(&q, &BucketCounters { objects: 50, bytes: 0 }, 1, Some(&object_of(5))),
        Ok(())
    );
    // A key that holds no data yet counts as a new object.
    let empty = Object::new(Uuid::new([1; 16]), "key".to_string(), vec![]);
    assert!(matches!(
        check_quotas(&q, &BucketCounters { objects: 10, bytes: 0 }, 1, Some(&empty)),
        Err(Error::Forbidden(_))
    ));
}

#[test]
fn size_quota() {
    let q = BucketQuotas { max_size: Some(10 * MIB), max_objects: None };
    let c = BucketCounters { objects: 1, bytes: (4 * MIB) as i64 };
    assert_eq!(check_quotas(&q, &c, 6 * MIB, None), Ok(()));
    assert_eq!(
        check_quotas(&q, &c, 6 * MIB + 1, None),
        Err(Error::Forbidden(
            "Bucket size quota is reached, maximum total size of objects for this bucket: 10485760. The bucket is already 4194304 bytes, and this object would add 6291457 bytes.".to_string()
        ))
    );
    // What the key held before does not count twice.
    assert_eq!(check_quotas(&q, &c, 8 * MIB, Some(&object_of(2 * MIB))), Ok(()));
    assert!(matches!(
        check_quotas(&q, &c, 8 * MIB + 1, Some(&object_of(2 * MIB))),
        Err(Error::Forbidden(_))
    ));
    assert_eq!(
        check_quotas(&q, &c, 8 * MIB + 1, Some(&object_of(2 * MIB))).unwrap_err().http_status_code(),
        403
    );
    let negative = BucketCounters { objects: 0, bytes: -5 };
    assert_eq!(check_quotas(&q, &negative, 10 * MIB + 5, None), Ok(()));
    assert_eq!(
        check_quotas(&q, &negative, 10 * MIB + 6, None),
        Err(Error::Forbidden(
            "Bucket size quota is reached, maximum total size of objects for this bucket: 10485760. The bucket is already -5 bytes, and this object would add 10485766 bytes.".to_string()
        ))
    );
}

#[test]
fn shrinking_write_is_never_blocked() {
    // The bucket is far over both quotas.
    let q = BucketQuotas { max_size: Some(MIB), max_objects: Some(1) };
    let c = BucketCounters { objects: 1000, bytes: (500 * MIB) as i64 };
    let old = object_of(10 * MIB);
    assert_eq!(check_quotas(&q, &c, MIB, Some(&old)), Ok(()));
    assert_eq!(check_quotas(&q, &c, 10 * MIB, Some(&old)), Ok(()));
    assert_eq!(check_quotas(&q, &c, 0, Some(&old)), Ok(()));
    assert!(check_quotas(&q, &c, 10 * MIB + 1, Some(&old)).is_err());
    assert!(check_quotas(&q, &c, MIB, None).is_err());
}

#[test]
fn both_quotas_report_the_objects_first() {
    let q = BucketQuotas { max_size: Some(1), max_objects: Some(1) };
    let c = BucketCounters { objects: 1, bytes: 1 };
    assert_eq!(
        check_quotas(&q, &c, 5, None),
        Err(Error::Forbidden(
            "Object quota is reached, maximum objects for this bucket: 1".to_string()
        ))
    );
}
