use s3_ingest::bucket_alias::{
    is_valid_bucket_name, AliasParams, BucketAlias, BucketAliasTable, Deletable, DeletedFilter, Lww,
};
use s3_ingest::data::Uuid;

#[test]
fn valid_bucket_names() {
    for name in [
        "abc",
        "my-bucket",
        "my.bucket",
        "a.b-c.d",
        "0bucket9",
        "123",
        "1.2.3",
        "1.2.3.4.5",
        "1.2.3.256",
        "1.2.3.04",
        "01.2.3.4",
        "1.2.3.4a",
        "1..2.3",
        "1.2.3.1234",
        "xn-bucket",
        "bucket-s3alia",
        "s3alias",
        &"a".repeat(63),
    ] {
        assert!(is_valid_bucket_name(name), "{:?}", name);
    }
}

#[test]
fn invalid_bucket_names() {
    for name in [
        "",
        "a",
        "ab",
        &"a".repeat(64),
        "Bucket",
        "my_bucket",
        "my bucket",
        "bücket",
        "-bucket",
        ".bucket",
        "bucket-",
        "bucket.",
        "1.2.3.4",
        "0.0.0.0",
        "255.255.255.255",
        "127.0.0.1",
        "10.20.30.40",
        "xn--bucket",
        "bucket-s3alias",
        "-s3alias",
        "a:b",
        "::1",
    ] {
        assert!(!is_valid_bucket_name(name), "{:?}", name);
    }
}

#[test]
fn aliases() {
    let id = Uuid::new([4; 16]);
    assert_eq!(BucketAlias::new("-bad".to_string(), id, 5), None);
    let alias = BucketAlias::new("good".to_string(), id, 5).unwrap();
    assert_eq!(alias.name(), "good");
    assert_eq!(alias.sort_key(), "good");
    assert!(!alias.is_deleted());
    assert_eq!(alias.state, Lww { ts: 5, v: Deletable::Present(AliasParams { bucket_id: id }) });
    assert_eq!(alias.state(), alias.state);
    assert!(BucketAliasTable::matches_filter(&alias, &DeletedFilter::Any));
    assert!(BucketAliasTable::matches_filter(&alias, &DeletedFilter::NotDeleted));
    assert!(!BucketAliasTable::matches_filter(&alias, &DeletedFilter::Deleted));
    let mut deleted = alias.clone();
    deleted.state = Lww { ts: 6, v: Deletable::Deleted };
    assert!(deleted.is_deleted());
    assert!(BucketAliasTable::matches_filter(&deleted, &DeletedFilter::Deleted));
    assert!(!BucketAliasTable::matches_filter(&deleted, &DeletedFilter::NotDeleted));
}

#[test]
fn merging_aliases() {
    let low = Uuid::new([4; 16]);
    let high = Uuid::new([5; 16]);
    let at = |ts: u64, id: Uuid| BucketAlias::new("name".to_string(), id, ts).unwrap();
    let mut a = at(5, low);
    a.merge(&at(6, high));
    assert_eq!(a.state, at(6, high).state);
    let mut a = at(6, low);
    a.merge(&at(5, high));
    assert_eq!(a.state, at(6, low).state);
    let mut a = at(5, low);
    a.merge(&at(5, high));
    assert_eq!(a.state, at(5, high).state);
    let mut a = at(5, high);
    a.merge(&at(5, low));
    assert_eq!(a.state, at(5, high).state);
    let mut deleted = at(5, low);
    deleted.state.v = Deletable::Deleted;
    let mut a = at(5, high);
    a.merge(&deleted);
    assert!(a.is_deleted());
    let mut d = deleted.clone();
    d.merge(&at(5, high));
    assert!(d.is_deleted());
    d.merge(&at(9, high));
    assert!(!d.is_deleted());
    assert_eq!(d.name(), "name");
}

#[test]
fn addresses_in_dotted_decimal_notation() {
    for (name, is_address) in [
        ("1.2.3.4", true),
        ("0.0.0.0", true),
        ("255.255.255.255", true),
        ("1.2.3.0", true),
        ("100.200.100.200", true),
        ("25.5.25.5", true),
        ("256.1.1.1", false),
        ("1.2.3.04", false),
        ("01.2.3.4", false),
        ("1.2.3", false),
        ("1.2.3.4.5", false),
        ("1..3.4", false),
        ("1.2.3.4a", false),
        ("999.1.1.1", false),
        ("1.2.3.1234", false),
        ("00.0.0.0", false),
        ("1.2.3.a", false),
        ("a.b.c.d", false),
        ("192.168.001.1", false),
        ("0.00.0.0", false),
    ] {
        assert_eq!(is_valid_bucket_name(name), !is_address, "{:?}", name);
    }
}
