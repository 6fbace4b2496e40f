use s3_ingest::admin::{
    bucket_info_results, handle_create_bucket, handle_get_bucket_info, handle_list_buckets,
    relevant_keys,
    AliasEntry, BucketInfo, BucketLocalAlias, BucketSelector, CreateBucketLocalAlias,
    CreateBucketRequest, GetBucketInfoKey, KeyBucketPermResult, KeyInfo, KeyLocalAlias,
    ListBucketResultItem, LocalAliasEntry,
};
use s3_ingest::admin_error::Error;
use s3_ingest::bucket_alias::{BucketAlias, Deletable, Lww};
use s3_ingest::common_error::CommonError;
use s3_ingest::data::Uuid;

fn s(t: &str) -> String {
    t.to_string()
}

fn bucket() -> BucketInfo {
    BucketInfo {
        id: Uuid::new([0x1f; 16]),
        aliases: vec![
            AliasEntry { name: s("one"), active: true },
            AliasEntry { name: s("gone"), active: false },
            AliasEntry { name: s("two"), active: true },
        ],
        local_aliases: vec![
            LocalAliasEntry { access_key_id: s("GK1"), alias: s("mine"), active: true },
            LocalAliasEntry { access_key_id: s("GK2"), alias: s("old"), active: false },
        ],
        authorized_keys: vec![s("GK1")],
    }
}

fn key(id: &str, deleted: bool) -> KeyInfo {
    KeyInfo {
        key_id: s(id),
        deleted,
        name: s("name of ") + id,
        permissions: Some(KeyBucketPermResult { read: true, write: false, owner: true }),
        local_aliases: vec![
            KeyLocalAlias { alias: s("mine"), bucket: Some(Uuid::new([0x1f; 16])) },
            KeyLocalAlias { alias: s("other"), bucket: Some(Uuid::new([0x2f; 16])) },
            KeyLocalAlias { alias: s("none"), bucket: None },
            KeyLocalAlias { alias: s("also"), bucket: Some(Uuid::new([0x1f; 16])) },
        ],
    }
}

#[test]
fn list_of_buckets() {
    assert_eq!(handle_list_buckets(&vec![]), vec![]);
    let mut second = bucket();
    second.id = Uuid::new([0; 16]);
    second.aliases = vec![];
    second.local_aliases = vec![];
    assert_eq!(
        handle_list_buckets(&vec![bucket(), second]),
        vec![
            ListBucketResultItem {
                id: "1f".repeat(16),
                global_aliases: vec![s("one"), s("two")],
                local_aliases: vec![BucketLocalAlias { access_key_id: s("GK1"), alias: s("mine") }],
            },
            ListBucketResultItem {
                id: "00".repeat(16),
                global_aliases: vec![],
                local_aliases: vec![],
            },
        ]
    );
}

#[test]
fn bucket_of_a_request() {
    let bad = |m: &str| Err(Error::CommonError(CommonError::BadRequest(s(m))));
    assert_eq!(
        handle_get_bucket_info(Some(&"1f".repeat(16)), None),
        Ok(BucketSelector::Id(Uuid::new([0x1f; 16])))
    );
    assert_eq!(
        handle_get_bucket_info(Some(&"1F".repeat(16)), None),
        Ok(BucketSelector::Id(Uuid::new([0x1f; 16])))
    );
    assert_eq!(handle_get_bucket_info(Some("1f"), None), bad("Invalid bucket id"));
    assert_eq!(handle_get_bucket_info(Some("xyz"), None), bad("Invalid bucket id"));
    assert_eq!(
        handle_get_bucket_info(None, Some("alias")),
        Ok(BucketSelector::GlobalAlias(s("alias")))
    );
    assert_eq!(
        handle_get_bucket_info(None, None),
        bad("Either id or globalAlias must be provided (but not both)")
    );
    assert_eq!(
        handle_get_bucket_info(Some(&"1f".repeat(16)), Some("alias")),
        bad("Either id or globalAlias must be provided (but not both)")
    );
}

#[test]
fn information_on_a_bucket() {
    let mut plain = key("GK3", false);
    plain.permissions = None;
    plain.local_aliases = vec![];
    let info = bucket_info_results(&bucket(), &vec![key("GK1", false), key("GK2", true), plain]);
    assert_eq!(info.id, "1f".repeat(16));
    assert_eq!(info.global_aliases, vec![s("one"), s("two")]);
    assert_eq!(
        info.keys,
        vec![
            GetBucketInfoKey {
                access_key_id: s("GK1"),
                name: s("name of GK1"),
                permissions: KeyBucketPermResult { read: true, write: false, owner: true },
                bucket_local_aliases: vec![s("mine"), s("also")],
            },
            GetBucketInfoKey {
                access_key_id: s("GK3"),
                name: s("name of GK3"),
                permissions: KeyBucketPermResult { read: false, write: false, owner: false },
                bucket_local_aliases: vec![],
            },
        ]
    );
}

#[test]
fn creating_a_bucket() {
    let request = |global: Option<&str>, local: Option<&str>| CreateBucketRequest {
        global_alias: global.map(s),
        local_alias: local.map(|a| CreateBucketLocalAlias {
            access_key_id: s("GK1"),
            alias: s(a),
            all_permissions: true,
        }),
    };
    let invalid = |name: &str| {
        Err(Error::CommonError(CommonError::BadRequest(
            s(name) + ": Invalid bucket name. See AWS documentation for constraints on S3 bucket names:\nhttps://docs.aws.amazon.com/AmazonS3/latest/userguide/bucketnamingrules.html",
        )))
    };
    let k = key("GK1", false);
    assert_eq!(handle_create_bucket(&request(None, None), None, None), Ok(()));
    assert_eq!(handle_create_bucket(&request(Some("fine"), None), None, None), Ok(()));
    assert_eq!(handle_create_bucket(&request(Some("fine"), Some("new")), None, Some(&k)), Ok(()));
    assert_eq!(handle_create_bucket(&request(Some("Bad"), Some("new")), None, Some(&k)), invalid("Bad"));
    assert_eq!(handle_create_bucket(&request(Some("fine"), Some("-x-")), None, Some(&k)), invalid("-x-"));
    let taken = BucketAlias::new(s("fine"), Uuid::new([1; 16]), 1).unwrap();
    assert_eq!(
        handle_create_bucket(&request(Some("fine"), None), Some(&taken), None),
        Err(Error::CommonError(CommonError::BucketAlreadyExists))
    );
    let mut free = taken.clone();
    free.state = Lww { ts: 2, v: Deletable::Deleted };
    assert_eq!(handle_create_bucket(&request(Some("fine"), None), Some(&free), None), Ok(()));
    assert_eq!(
        handle_create_bucket(&request(None, Some("new")), None, None),
        Err(Error::NoSuchAccessKey)
    );
    assert_eq!(
        handle_create_bucket(&request(None, Some("new")), None, Some(&key("GK1", true))),
        Err(Error::NoSuchAccessKey)
    );
    assert_eq!(
        handle_create_bucket(&request(None, Some("mine")), None, Some(&k)),
        Err(Error::CommonError(CommonError::BadRequest(s("Local alias already exists"))))
    );
}

#[test]
fn keys_to_read_for_a_bucket() {
    let mut b = bucket();
    assert_eq!(relevant_keys(&b), vec![s("GK1"), s("GK2")]);
    b.authorized_keys = vec![s("GK3"), s("GK1"), s("GK3")];
    b.local_aliases.push(LocalAliasEntry { access_key_id: s("GK4"), alias: s("x"), active: true });
    b.local_aliases.push(LocalAliasEntry { access_key_id: s("GK2"), alias: s("y"), active: true });
    assert_eq!(relevant_keys(&b), vec![s("GK3"), s("GK1"), s("GK2"), s("GK4")]);
    b.authorized_keys = vec![];
    b.local_aliases = vec![];
    assert_eq!(relevant_keys(&b), Vec::<String>::new());
}
