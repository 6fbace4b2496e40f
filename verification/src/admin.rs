//! The decisions of the administration of buckets: which bucket a request
//! means, what is shown of a bucket, and whether a bucket can be created.
use crate::admin_error::Error;
use crate::bucket_alias::{is_valid_bucket_name, valid_bucket_name, BucketAlias, Deletable};
use crate::common_error::CommonError;
use crate::data::Uuid;
use crate::encoding::{hex_bytes, hex_decode, hex_text, hex_uuid};
use vstd::prelude::*;

verus! {

/// A global alias of a bucket, and whether it is in force.
#[derive(Debug, Clone, PartialEq, Eq)]
pub struct AliasEntry {
    pub name: String,
    pub active: bool,
}

/// An alias of a bucket in the name space of an access key, and whether it
/// is in force.
#[derive(Debug, Clone, PartialEq, Eq)]
pub struct LocalAliasEntry {
    pub access_key_id: String,
    pub alias: String,
    pub active: bool,
}

/// What the administration reads of a bucket.
#[derive(Debug, Clone, PartialEq, Eq)]
pub struct BucketInfo {
    pub id: Uuid,
    pub aliases: Vec<AliasEntry>,
    pub local_aliases: Vec<LocalAliasEntry>,
    /// The identifiers of the access keys that have a permission on the
    /// bucket.
    pub authorized_keys: Vec<String>,
}

/// What an access key may do with a bucket.
#[derive(Debug, Clone, Copy, PartialEq, Eq)]
pub struct KeyBucketPermResult {
    pub read: bool,
    pub write: bool,
    pub owner: bool,
}

/// An alias that an access key has for a bucket, if it stands for one.
#[derive(Debug, Clone, PartialEq, Eq)]
pub struct KeyLocalAlias {
    pub alias: String,
    pub bucket: Option<Uuid>,
}

/// What the administration reads of an access key, with regard to one
/// bucket.
#[derive(Debug, Clone, PartialEq, Eq)]
pub struct KeyInfo {
    pub key_id: String,
    pub deleted: bool,
    pub name: String,
    /// The permissions of the key on the bucket, if it has any.
    pub permissions: Option<KeyBucketPermResult>,
    pub local_aliases: Vec<KeyLocalAlias>,
}

/// A local alias as the list of buckets shows it.
#[derive(Debug, Clone, PartialEq, Eq)]
pub struct BucketLocalAlias {
    pub access_key_id: String,
    pub alias: String,
}

/// A bucket as the list of buckets shows it.
#[derive(Debug, Clone, PartialEq, Eq)]
pub struct ListBucketResultItem {
    pub id: String,
    pub global_aliases: Vec<String>,
    pub local_aliases: Vec<BucketLocalAlias>,
}

/// An access key as the information on a bucket shows it.
#[derive(Debug, Clone, PartialEq, Eq)]
pub struct GetBucketInfoKey {
    pub access_key_id: String,
    pub name: String,
    pub permissions: KeyBucketPermResult,
    pub bucket_local_aliases: Vec<String>,
}

/// The information on a bucket.
#[derive(Debug, Clone, PartialEq, Eq)]
pub struct GetBucketInfoResult {
    pub id: String,
    pub global_aliases: Vec<String>,
    pub keys: Vec<GetBucketInfoKey>,
}

/// The names of the global aliases that are in force, in their order.
pub open spec fn active_names(entries: Seq<AliasEntry>) -> Seq<Seq<char>>
    decreases entries.len(),
{
    if entries.len() == 0 {
        Seq::empty()
    } else if entries.last().active {
        active_names(entries.drop_last()).push(entries.last().name@)
    } else {
        active_names(entries.drop_last())
    }
}

/// The local aliases that are in force, in their order: the access key and
/// the alias of each.
pub open spec fn active_local(entries: Seq<LocalAliasEntry>) -> Seq<(Seq<char>, Seq<char>)>
    decreases entries.len(),
{
    if entries.len() == 0 {
        Seq::empty()
    } else if entries.last().active {
        active_local(entries.drop_last()).push(
            (entries.last().access_key_id@, entries.last().alias@),
        )
    } else {
        active_local(entries.drop_last())
    }
}

/// The aliases among `aliases` that stand for the bucket, in their order.
pub open spec fn aliases_for(aliases: Seq<KeyLocalAlias>, bucket: Uuid) -> Seq<Seq<char>>
    decreases aliases.len(),
{
    if aliases.len() == 0 {
        Seq::empty()
    } else if aliases.last().bucket matches Some(b) && b@ == bucket@ {
        aliases_for(aliases.drop_last(), bucket).push(aliases.last().alias@)
    } else {
        aliases_for(aliases.drop_last(), bucket)
    }
}

/// The characters of each string of a list.
pub open spec fn texts(s: Seq<String>) -> Seq<Seq<char>> {
    s.map_values(|v: String| v@)
}

/// The access key and the alias of each local alias of a list.
pub open spec fn local_view(s: Seq<BucketLocalAlias>) -> Seq<(Seq<char>, Seq<char>)> {
    s.map_values(|a: BucketLocalAlias| (a.access_key_id@, a.alias@))
}

fn global_aliases(entries: &Vec<AliasEntry>) -> (r: Vec<String>)
    ensures
        texts(r@) == active_names(entries@),
{
    let mut r: Vec<String> = Vec::new();
    let mut i: usize = 0;
    while i < entries.len()
        invariant
            i <= entries@.len(),
            texts(r@) == active_names(entries@.subrange(0, i as int)),
        decreases entries@.len() - i,
    {
        proof {
            assert(entries@.subrange(0, i + 1).drop_last() =~= entries@.subrange(0, i as int));
        }
        if entries[i].active {
            let ghost before = r@;
            r.push(entries[i].name.clone());
        }
        i = i + 1;
    }
    assert(entries@.subrange(0, i as int) =~= entries@);
    r
}

fn local_aliases(entries: &Vec<LocalAliasEntry>) -> (r: Vec<BucketLocalAlias>)
    ensures
        local_view(r@) == active_local(entries@),
{
    let mut r: Vec<BucketLocalAlias> = Vec::new();
    let mut i: usize = 0;
    while i < entries.len()
        invariant
            i <= entries@.len(),
            local_view(r@) == active_local(entries@.subrange(0, i as int)),
        decreases entries@.len() - i,
    {
        proof {
            assert(entries@.subrange(0, i + 1).drop_last() =~= entries@.subrange(0, i as int));
        }
        if entries[i].active {
            let ghost before = r@;
            r.push(
                BucketLocalAlias {
                    access_key_id: entries[i].access_key_id.clone(),
                    alias: entries[i].alias.clone(),
                },
            );
            assert(local_view(r@) =~= local_view(before).push(
                (entries@[i as int].access_key_id@, entries@[i as int].alias@),
            ));
        }
        i = i + 1;
    }
    assert(entries@.subrange(0, i as int) =~= entries@);
    r
}

fn key_aliases(aliases: &Vec<KeyLocalAlias>, bucket: &Uuid) -> (r: Vec<String>)
    ensures
        texts(r@) == aliases_for(aliases@, *bucket),
{
    let mut r: Vec<String> = Vec::new();
    let mut i: usize = 0;
    while i < aliases.len()
        invariant
            i <= aliases@.len(),
            texts(r@) == aliases_for(aliases@.subrange(0, i as int), *bucket),
        decreases aliases@.len() - i,
    {
        proof {
            assert(aliases@.subrange(0, i + 1).drop_last() =~= aliases@.subrange(0, i as int));
        }
        let stands = match &aliases[i].bucket {
            Some(b) => *b == *bucket,
            None => false,
        };
        if stands {
            let ghost before = r@;
            r.push(aliases[i].alias.clone());
        }
        i = i + 1;
    }
    assert(aliases@.subrange(0, i as int) =~= aliases@);
    r
}

/// Whether `item` shows `bucket`: its identifier in hexadecimal, and its
/// aliases that are in force.
pub open spec fn shows_bucket(item: ListBucketResultItem, bucket: BucketInfo) -> bool {
    &&& item.id@ == hex_text(bucket.id@)
    &&& texts(item.global_aliases@) == active_names(bucket.aliases@)
    &&& local_view(item.local_aliases@) == active_local(bucket.local_aliases@)
}

/// The list of the buckets: one item for each bucket, in their order.
pub fn handle_list_buckets(buckets: &Vec<BucketInfo>) -> (r: Vec<ListBucketResultItem>)
    ensures
        r@.len() == buckets@.len(),
        forall|i: int| 0 <= i < r@.len() ==> shows_bucket(#[trigger] r@[i], buckets@[i]),
{
    let mut r: Vec<ListBucketResultItem> = Vec::new();
    let mut i: usize = 0;
    while i < buckets.len()
        invariant
            i <= buckets@.len(),
            r@.len() == i,
            forall|j: int| 0 <= j < i ==> shows_bucket(#[trigger] r@[j], buckets@[j]),
        decreases buckets@.len() - i,
    {
        let b = &buckets[i];
        r.push(
            ListBucketResultItem {
                id: hex_uuid(&b.id),
                global_aliases: global_aliases(&b.aliases),
                local_aliases: local_aliases(&b.local_aliases),
            },
        );
        i = i + 1;
    }
    r
}

/// The bucket that a request for information means.
#[derive(Debug, Clone, PartialEq, Eq)]
pub enum BucketSelector {
    Id(Uuid),
    GlobalAlias(String),
}

/// The identifier that a hexadecimal text of either case holds.
pub open spec fn bucket_id_of(text: Seq<char>) -> Option<Seq<u8>> {
    match hex_bytes(text) {
        Some(b) => if b.len() == 16 {
            Some(b)
        } else {
            None
        },
        None => None,
    }
}

/// Decides which bucket a request for information means: the one of the
/// identifier, or the one of the global alias, where exactly one of the two
/// is given.
pub fn handle_get_bucket_info(id: Option<&str>, global_alias: Option<&str>) -> (r: Result<
    BucketSelector,
    Error,
>)
    ensures
        match (id, global_alias) {
            (Some(text), None) => match bucket_id_of(text@) {
                Some(b) => r matches Ok(BucketSelector::Id(u)) && u@ == b,
                None => r matches Err(Error::CommonError(CommonError::BadRequest(m))) && m@
                    == "Invalid bucket id"@,
            },
            (None, Some(ga)) => r matches Ok(BucketSelector::GlobalAlias(a)) && a@ == ga@,
            _ => r matches Err(Error::CommonError(CommonError::BadRequest(m))) && m@
                == "Either id or globalAlias must be provided (but not both)"@,
        },
{
    match (id, global_alias) {
        (Some(text), None) => {
            let bytes = match hex_decode(text) {
                Some(b) => b,
                None => {
                    return Err(
                        Error::CommonError(
                            CommonError::BadRequest(String::from_str("Invalid bucket id")),
                        ),
                    );
                },
            };
            if bytes.len() != 16 {
                return Err(
                    Error::CommonError(
                        CommonError::BadRequest(String::from_str("Invalid bucket id")),
                    ),
                );
            }
            let mut id = [0u8;16];
            let mut i: usize = 0;
            while i < 16
                invariant
                    i <= 16,
                    bytes@.len() == 16,
                    forall|j: int| 0 <= j < i ==> id@[j] == bytes@[j],
                decreases 16 - i,
            {
                id[i] = bytes[i];
                i = i + 1;
            }
            Ok(BucketSelector::Id(Uuid { bytes: id }))
        },
        (None, Some(ga)) => Ok(BucketSelector::GlobalAlias(String::from_str(ga))),
        _ => Err(
            Error::CommonError(
                CommonError::BadRequest(
                    String::from_str("Either id or globalAlias must be provided (but not both)"),
                ),
            ),
        ),
    }
}

/// The texts of a list without those that came before in it.
pub open spec fn distinct(s: Seq<Seq<char>>) -> Seq<Seq<char>>
    decreases s.len(),
{
    if s.len() == 0 {
        Seq::empty()
    } else if distinct(s.drop_last()).contains(s.last()) {
        distinct(s.drop_last())
    } else {
        distinct(s.drop_last()).push(s.last())
    }
}

/// The access keys of the local aliases, in their order.
pub open spec fn alias_keys(entries: Seq<LocalAliasEntry>) -> Seq<Seq<char>> {
    entries.map_values(|a: LocalAliasEntry| a.access_key_id@)
}

fn list_contains(list: &Vec<String>, text: &str) -> (r: bool)
    ensures
        r == texts(list@).contains(text@),
{
    let mut i: usize = 0;
    while i < list.len()
        invariant
            i <= list@.len(),
            forall|j: int| 0 <= j < i ==> texts(list@)[j] != text@,
        decreases list@.len() - i,
    {
        if crate::text::str_eq(list[i].as_str(), text) {
            assert(texts(list@)[i as int] == text@);
            return true;
        }
        i = i + 1;
    }
    false
}

/// The access keys to read for the information on a bucket: those that
/// have a permission on it, then those that have an alias for it, each
/// once.
pub fn relevant_keys(bucket: &BucketInfo) -> (r: Vec<String>)
    ensures
        texts(r@) == distinct(texts(bucket.authorized_keys@) + alias_keys(bucket.local_aliases@)),
{
    let ghost all = texts(bucket.authorized_keys@) + alias_keys(bucket.local_aliases@);
    let mut r: Vec<String> = Vec::new();
    let n = bucket.authorized_keys.len();
    let mut i: usize = 0;
    assert(all.subrange(0, 0) =~= Seq::<Seq<char>>::empty());
    assert(texts(r@) =~= Seq::<Seq<char>>::empty());
    while i < n
        invariant
            i <= n,
            n == bucket.authorized_keys@.len(),
            all == texts(bucket.authorized_keys@) + alias_keys(bucket.local_aliases@),
            texts(r@) == distinct(all.subrange(0, i as int)),
        decreases n - i,
    {
        let k = &bucket.authorized_keys[i];
        proof {
            assert(all.subrange(0, i + 1).drop_last() =~= all.subrange(0, i as int));
            assert(all.subrange(0, i + 1).last() == k@);
        }
        if !list_contains(&r, k.as_str()) {
            let ghost before = r@;
            r.push(k.clone());
            assert(texts(r@) =~= texts(before).push(k@));
        }
        i = i + 1;
    }
    let m = bucket.local_aliases.len();
    let mut j: usize = 0;
    while j < m
        invariant
            j <= m,
            n == bucket.authorized_keys@.len(),
            m == bucket.local_aliases@.len(),
            all == texts(bucket.authorized_keys@) + alias_keys(bucket.local_aliases@),
            texts(r@) == distinct(all.subrange(0, n + j)),
        decreases m - j,
    {
        let k = &bucket.local_aliases[j].access_key_id;
        proof {
            assert(all.subrange(0, n + j + 1).drop_last() =~= all.subrange(0, n + j));
            assert(all.subrange(0, n + j + 1).last() == k@);
        }
        if !list_contains(&r, k.as_str()) {
            let ghost before = r@;
            r.push(k.clone());
            assert(texts(r@) =~= texts(before).push(k@));
        }
        j = j + 1;
    }
    assert(all.subrange(0, n + m) =~= all);
    r
}

/// The mathematical value of a [`GetBucketInfoKey`].
pub struct KeyShown {
    pub access_key_id: Seq<char>,
    pub name: Seq<char>,
    pub permissions: KeyBucketPermResult,
    pub bucket_local_aliases: Seq<Seq<char>>,
}

impl View for GetBucketInfoKey {
    type V = KeyShown;

    open spec fn view(&self) -> KeyShown {
        KeyShown {
            access_key_id: self.access_key_id@,
            name: self.name@,
            permissions: self.permissions,
            bucket_local_aliases: texts(self.bucket_local_aliases@),
        }
    }
}

/// The values of a list of keys that are shown.
pub open spec fn keys_view(s: Seq<GetBucketInfoKey>) -> Seq<KeyShown> {
    s.map_values(|k: GetBucketInfoKey| k@)
}

/// What is shown of an access key for the bucket: its identifier and name,
/// its permissions on the bucket (none where it has none), and its aliases
/// for the bucket.
pub open spec fn key_shown(key: KeyInfo, bucket: Uuid) -> KeyShown {
    KeyShown {
        access_key_id: key.key_id@,
        name: key.name@,
        permissions: match key.permissions {
            Some(p) => p,
            None => KeyBucketPermResult { read: false, write: false, owner: false },
        },
        bucket_local_aliases: aliases_for(key.local_aliases@, bucket),
    }
}

/// What is shown of the keys that were not deleted, in their order.
pub open spec fn keys_shown(keys: Seq<KeyInfo>, bucket: Uuid) -> Seq<KeyShown>
    decreases keys.len(),
{
    if keys.len() == 0 {
        Seq::empty()
    } else if !keys.last().deleted {
        keys_shown(keys.drop_last(), bucket).push(key_shown(keys.last(), bucket))
    } else {
        keys_shown(keys.drop_last(), bucket)
    }
}

/// The information on a bucket, once the access keys that it names were
/// read: its identifier, its global aliases that are in force, and each key
/// that was not deleted, with its permissions on the bucket and its aliases
/// for it.
pub fn bucket_info_results(bucket: &BucketInfo, keys: &Vec<KeyInfo>) -> (r: GetBucketInfoResult)
    ensures
        r.id@ == hex_text(bucket.id@),
        texts(r.global_aliases@) == active_names(bucket.aliases@),
        keys_view(r.keys@) == keys_shown(keys@, bucket.id),
{
    let mut shown: Vec<GetBucketInfoKey> = Vec::new();
    let mut i: usize = 0;
    while i < keys.len()
        invariant
            i <= keys@.len(),
            keys_view(shown@) == keys_shown(keys@.subrange(0, i as int), bucket.id),
        decreases keys@.len() - i,
    {
        proof {
            assert(keys@.subrange(0, i + 1).drop_last() =~= keys@.subrange(0, i as int));
        }
        let key = &keys[i];
        if !key.deleted {
            let ghost before = shown@;
            let item = GetBucketInfoKey {
                access_key_id: key.key_id.clone(),
                name: key.name.clone(),
                permissions: match key.permissions {
                    Some(p) => p,
                    None => KeyBucketPermResult { read: false, write: false, owner: false },
                },
                bucket_local_aliases: key_aliases(&key.local_aliases, &bucket.id),
            };
            shown.push(item);
        }
        i = i + 1;
    }
    assert(keys@.subrange(0, i as int) =~= keys@);
    GetBucketInfoResult {
        id: hex_uuid(&bucket.id),
        global_aliases: global_aliases(&bucket.aliases),
        keys: shown,
    }
}

/// The alias of a new bucket in the name space of an access key.
#[derive(Debug, Clone, PartialEq, Eq)]
pub struct CreateBucketLocalAlias {
    pub access_key_id: String,
    pub alias: String,
    pub all_permissions: bool,
}

/// A request to create a bucket.
#[derive(Debug, Clone, PartialEq, Eq)]
pub struct CreateBucketRequest {
    pub global_alias: Option<String>,
    pub local_alias: Option<CreateBucketLocalAlias>,
}

/// The message of the error for a name that can not be given to a bucket.
pub open spec fn invalid_name_message(name: Seq<char>) -> Seq<char> {
    name
        + ": Invalid bucket name. See AWS documentation for constraints on S3 bucket names:\nhttps://docs.aws.amazon.com/AmazonS3/latest/userguide/bucketnamingrules.html"@
}

fn invalid_name(name: &String) -> (e: Error)
    ensures
        refusal_of(e) == Some(CreateRefusal::BadRequest(invalid_name_message(name@))),
{
    let mut m = name.clone();
    m.append(
        ": Invalid bucket name. See AWS documentation for constraints on S3 bucket names:\nhttps://docs.aws.amazon.com/AmazonS3/latest/userguide/bucketnamingrules.html",
    );
    Error::CommonError(CommonError::BadRequest(m))
}

/// Whether the access key has an alias of that name.
pub open spec fn has_alias(aliases: Seq<KeyLocalAlias>, name: Seq<char>) -> bool {
    exists|i: int| 0 <= i < aliases.len() && (#[trigger] aliases[i]).alias@ == name
}

fn key_has_alias(aliases: &Vec<KeyLocalAlias>, name: &str) -> (r: bool)
    ensures
        r == has_alias(aliases@, name@),
{
    let mut i: usize = 0;
    while i < aliases.len()
        invariant
            i <= aliases@.len(),
            forall|j: int| 0 <= j < i ==> (#[trigger] aliases@[j]).alias@ != name@,
        decreases aliases@.len() - i,
    {
        if crate::text::str_eq(aliases[i].alias.as_str(), name) {
            return true;
        }
        i = i + 1;
    }
    false
}

/// Why a bucket is not created.
pub enum CreateRefusal {
    BadRequest(Seq<char>),
    BucketAlreadyExists,
    NoSuchAccessKey,
}

/// The refusal, if any, to create a bucket. `global` is the alias that the
/// global name of the request has so far, and `key` the access key of its
/// local alias, where they exist.
pub open spec fn create_bucket_verdict(
    req: CreateBucketRequest,
    global: Option<BucketAlias>,
    key: Option<KeyInfo>,
) -> Option<CreateRefusal> {
    if req.global_alias is Some && !valid_bucket_name(req.global_alias->0@) {
        Some(CreateRefusal::BadRequest(invalid_name_message(req.global_alias->0@)))
    } else if req.global_alias is Some && global is Some && global->0@.state.v is Present {
        Some(CreateRefusal::BucketAlreadyExists)
    } else if req.local_alias is None {
        None
    } else if !valid_bucket_name(req.local_alias->0.alias@) {
        Some(CreateRefusal::BadRequest(invalid_name_message(req.local_alias->0.alias@)))
    } else if key is None || key->0.deleted {
        Some(CreateRefusal::NoSuchAccessKey)
    } else if has_alias(key->0.local_aliases@, req.local_alias->0.alias@) {
        Some(CreateRefusal::BadRequest("Local alias already exists"@))
    } else {
        None
    }
}

/// The refusal that an error reports.
pub open spec fn refusal_of(e: Error) -> Option<CreateRefusal> {
    match e {
        Error::NoSuchAccessKey => Some(CreateRefusal::NoSuchAccessKey),
        Error::CommonError(CommonError::BucketAlreadyExists) => Some(
            CreateRefusal::BucketAlreadyExists,
        ),
        Error::CommonError(CommonError::BadRequest(m)) => Some(CreateRefusal::BadRequest(m@)),
        _ => None,
    }
}

/// Decides whether a bucket can be created as the request asks, once the
/// alias of its global name and the access key of its local alias were
/// read. The names have to be names of buckets, the global name must not
/// be taken, and the access key has to exist and must not have the local
/// alias yet.
pub fn handle_create_bucket(
    req: &CreateBucketRequest,
    global: Option<&BucketAlias>,
    key: Option<&KeyInfo>,
) -> (r: Result<(), Error>)
    ensures
        match create_bucket_verdict(
            *req,
            match global {
                Some(a) => Some(*a),
                None => None,
            },
            match key {
                Some(k) => Some(*k),
                None => None,
            },
        ) {
            None => r is Ok,
            Some(refusal) => r matches Err(e) && refusal_of(e) == Some(refusal),
        },
{
    if let Some(ga) = &req.global_alias {
        if !is_valid_bucket_name(ga.as_str()) {
            return Err(invalid_name(ga));
        }
        if let Some(alias) = global {
            match alias.state().v {
                Deletable::Present(_) => {
                    return Err(Error::CommonError(CommonError::BucketAlreadyExists));
                },
                Deletable::Deleted => {},
            }
        }
    }
    if let Some(la) = &req.local_alias {
        if !is_valid_bucket_name(la.alias.as_str()) {
            return Err(invalid_name(&la.alias));
        }
        let key = match key {
            Some(k) => k,
            None => {
                return Err(Error::NoSuchAccessKey);
            },
        };
        if key.deleted {
            return Err(Error::NoSuchAccessKey);
        }
        if key_has_alias(&key.local_aliases, la.alias.as_str()) {
            return Err(
                Error::CommonError(
                    CommonError::BadRequest(String::from_str("Local alias already exists")),
                ),
            );
        }
    }
    Ok(())
}

} // verus!
