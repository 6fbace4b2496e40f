//! Objects and their versions.
use crate::data::{bytes_lt, lemma_uuid_order, Uuid};
use crate::data;
use crate::sorted::{
    find_key, lemma_find_key, lemma_map_lower_bound, lemma_map_put, map_entries, put_entry,
    sorted, SortKey, SortedMap,
};
use crate::text::{lemma_text_order, place_of, text_lt, Place};
use vstd::prelude::*;

verus! {

/// Headers by name, held in the order of the names, each name once.
#[derive(Debug, PartialEq, Eq)]
pub struct HeaderList {
    entries: Vec<(String, String)>,
}

/// The headers kept with an object: its content type, and the other headers
/// by name.
#[derive(Debug, Clone, PartialEq, Eq)]
pub struct ObjectVersionHeaders {
    pub content_type: String,
    pub other: HeaderList,
}

/// What describes the data of a complete version.
#[derive(Debug, Clone, PartialEq, Eq)]
pub struct ObjectVersionMeta {
    pub headers: ObjectVersionHeaders,
    pub size: u64,
    pub etag: String,
}

/// The data of a complete version: held in the row itself, or in blocks of
/// which the first is named.
#[derive(Debug, Clone, PartialEq, Eq)]
pub enum ObjectVersionData {
    Inline(ObjectVersionMeta, Vec<u8>),
    FirstBlock(ObjectVersionMeta, data::Hash),
}

/// The state of a version. `Complete` and `Aborted` are final.
#[derive(Debug, Clone, PartialEq, Eq)]
pub enum ObjectVersionState {
    Uploading(ObjectVersionHeaders),
    Complete(ObjectVersionData),
    Aborted,
}

/// One version of an object.
#[derive(Debug, Clone, PartialEq, Eq)]
pub struct ObjectVersion {
    pub uuid: Uuid,
    pub timestamp: u64,
    pub state: ObjectVersionState,
}

/// What orders the versions of an object: the time stamp, then the
/// identifier.
#[derive(Debug, Clone, Copy, PartialEq, Eq)]
pub struct VersionKey {
    pub timestamp: u64,
    pub uuid: Uuid,
}

/// The versions that one key of one bucket holds, in the order of their
/// time stamps and identifiers.
#[derive(Debug, PartialEq, Eq)]
pub struct Object {
    pub bucket_id: Uuid,
    pub key: String,
    pub versions: SortedMap<VersionKey, ObjectVersionState>,
}

/// The mathematical value of an [`ObjectVersionHeaders`]: the headers
/// beside the content type as a map.
pub struct HeadersView {
    pub content_type: Seq<char>,
    pub other: Map<Seq<char>, Seq<char>>,
}

/// The mathematical value of an [`ObjectVersionMeta`].
pub struct MetaView {
    pub headers: HeadersView,
    pub size: u64,
    pub etag: Seq<char>,
}

/// The mathematical value of an [`ObjectVersionData`].
pub enum DataView {
    Inline(MetaView, Seq<u8>),
    FirstBlock(MetaView, data::Hash),
}

/// The mathematical value of an [`ObjectVersionState`].
pub enum StateView {
    Uploading(HeadersView),
    Complete(DataView),
    Aborted,
}

/// The mathematical value of an [`ObjectVersion`].
pub struct ObjectVersionView {
    pub uuid: Uuid,
    pub timestamp: u64,
    pub state: StateView,
}

/// The mathematical value of an [`Object`]: its versions in the order of
/// their keys.
pub struct ObjectView {
    pub bucket_id: Uuid,
    pub key: Seq<char>,
    pub versions: Seq<ObjectVersionView>,
}

/// The map that a list of named values stands for: the last entry of a name
/// is its value.
pub open spec fn header_map(s: Seq<(String, String)>) -> Map<Seq<char>, Seq<char>>
    decreases s.len(),
{
    if s.len() == 0 {
        Map::empty()
    } else {
        header_map(s.drop_last()).insert(s.last().0@, s.last().1@)
    }
}

impl View for HeaderList {
    type V = Map<Seq<char>, Seq<char>>;

    closed spec fn view(&self) -> Map<Seq<char>, Seq<char>> {
        header_map(self.entries@)
    }
}

impl View for ObjectVersionHeaders {
    type V = HeadersView;

    open spec fn view(&self) -> HeadersView {
        HeadersView { content_type: self.content_type@, other: self.other@ }
    }
}

impl View for ObjectVersionMeta {
    type V = MetaView;

    open spec fn view(&self) -> MetaView {
        MetaView { headers: self.headers@, size: self.size, etag: self.etag@ }
    }
}

impl View for ObjectVersionData {
    type V = DataView;

    open spec fn view(&self) -> DataView {
        match self {
            ObjectVersionData::Inline(meta, bytes) => DataView::Inline(meta@, bytes@),
            ObjectVersionData::FirstBlock(meta, hash) => DataView::FirstBlock(meta@, *hash),
        }
    }
}

impl View for ObjectVersionState {
    type V = StateView;

    open spec fn view(&self) -> StateView {
        match self {
            ObjectVersionState::Uploading(headers) => StateView::Uploading(headers@),
            ObjectVersionState::Complete(data) => StateView::Complete(data@),
            ObjectVersionState::Aborted => StateView::Aborted,
        }
    }
}

impl View for ObjectVersion {
    type V = ObjectVersionView;

    open spec fn view(&self) -> ObjectVersionView {
        ObjectVersionView { uuid: self.uuid, timestamp: self.timestamp, state: self.state@ }
    }
}

/// The versions that the entries of an object stand for.
pub open spec fn versions_view(s: Seq<(VersionKey, ObjectVersionState)>) -> Seq<
    ObjectVersionView,
> {
    s.map_values(
        |e: (VersionKey, ObjectVersionState)|
            ObjectVersionView { uuid: e.0.uuid, timestamp: e.0.timestamp, state: e.1@ },
    )
}

impl View for Object {
    type V = ObjectView;

    open spec fn view(&self) -> ObjectView {
        ObjectView {
            bucket_id: self.bucket_id,
            key: self.key@,
            versions: versions_view(self.versions@),
        }
    }
}

impl SortKey for VersionKey {
    open spec fn before(self, other: VersionKey) -> bool {
        self.timestamp < other.timestamp || (self.timestamp == other.timestamp && bytes_lt(
            self.uuid@,
            other.uuid@,
        ))
    }

    proof fn lemma_order(a: VersionKey, b: VersionKey, c: VersionKey) {
        lemma_uuid_order(a.uuid, b.uuid, c.uuid);
    }

    fn precedes(&self, other: &VersionKey) -> (r: bool) {
        self.timestamp < other.timestamp || (self.timestamp == other.timestamp && self.uuid.lt(
            &other.uuid,
        ))
    }
}

/// Whether the names of a list of headers strictly increase, so that no
/// name stands twice.
pub open spec fn names_sorted(s: Seq<(String, String)>) -> bool {
    forall|i: int, j: int|
        0 <= i < j < s.len() ==> text_lt((#[trigger] s[i]).0@, (#[trigger] s[j]).0@)
}

/// The map of a list whose names strictly increase holds each entry of the
/// list, and nothing else.
proof fn lemma_header_map(s: Seq<(String, String)>)
    requires
        names_sorted(s),
    ensures
        forall|i: int|
            0 <= i < s.len() ==> header_map(s).dom().contains((#[trigger] s[i]).0@) && header_map(
                s,
            )[s[i].0@] == s[i].1@,
        forall|k: Seq<char>| #[trigger]
            header_map(s).dom().contains(k) ==> exists|i: int|
                0 <= i < s.len() && (#[trigger] s[i]).0@ == k,
    decreases s.len(),
{
    if s.len() > 0 {
        let t = s.drop_last();
        let last = s.last();
        assert forall|i: int, j: int| 0 <= i < j < t.len() implies text_lt(
            (#[trigger] t[i]).0@,
            (#[trigger] t[j]).0@,
        ) by {
            assert(t[i] == s[i] && t[j] == s[j]);
        }
        lemma_header_map(t);
        assert forall|i: int| 0 <= i < s.len() implies header_map(s).dom().contains(
            (#[trigger] s[i]).0@,
        ) && header_map(s)[s[i].0@] == s[i].1@ by {
            if i < s.len() - 1 {
                assert(t[i] == s[i]);
                assert(text_lt(s[i].0@, s[s.len() - 1].0@));
                lemma_text_order(s[i].0@, s[i].0@, s[i].0@);
            }
        }
        assert forall|k: Seq<char>| #[trigger] header_map(s).dom().contains(k) implies exists|
            i: int,
        | 0 <= i < s.len() && (#[trigger] s[i]).0@ == k by {
            if k == last.0@ {
                assert(s[s.len() - 1].0@ == k);
            } else {
                assert(header_map(t).dom().contains(k));
                let i = choose|i: int| 0 <= i < t.len() && (#[trigger] t[i]).0@ == k;
                assert(s[i].0@ == k);
            }
        }
    }
}

/// Binds a name to a value in a list of headers whose names strictly
/// increase: in place of the value that the name had, or at the place that
/// keeps the order.
fn put_header(other: &mut Vec<(String, String)>, name: String, value: String)
    requires
        names_sorted(old(other)@),
    ensures
        names_sorted(final(other)@),
        header_map(final(other)@) == header_map(old(other)@).insert(name@, value@),
{
    let ghost s = other@;
    let ghost k = name@;
    let ghost v = value@;
    let n = other.len();
    let mut p: usize = 0;
    let mut same = false;
    while p < n
        invariant_except_break
            !same,
        invariant
            p <= n,
            n == other@.len(),
            other@ == s,
            k == name@,
            forall|i: int| 0 <= i < p ==> text_lt((#[trigger] s[i]).0@, k),
        ensures
            p <= n,
            other@ == s,
            forall|i: int| 0 <= i < p ==> text_lt((#[trigger] s[i]).0@, k),
            same ==> p < n && s[p as int].0@ == k,
            !same && p < n ==> text_lt(k, s[p as int].0@),
        decreases n - p,
    {
        match place_of(other[p].0.as_str(), name.as_str()) {
            Place::Before => {
                p = p + 1;
            },
            Place::Same => {
                same = true;
                break ;
            },
            Place::After => {
                break ;
            },
        }
    }
    if same {
        other.set(p, (name, value));
    } else {
        other.insert(p, (name, value));
    }
    let ghost t = other@;
    proof {
        assert forall|i: int, j: int| 0 <= i < j < t.len() implies text_lt(
            (#[trigger] t[i]).0@,
            (#[trigger] t[j]).0@,
        ) by {
            if same {
                assert(t[i].0@ == s[i].0@ && t[j].0@ == s[j].0@);
                assert(text_lt(s[i].0@, s[j].0@));
            } else if j < p {
                assert(t[i] == s[i] && t[j] == s[j]);
            } else if j == p {
                assert(t[i] == s[i]);
            } else if i == p {
                assert(t[j] == s[j - 1]);
                if j - 1 > p {
                    assert(text_lt(s[p as int].0@, s[j - 1].0@));
                    lemma_text_order(k, s[p as int].0@, s[j - 1].0@);
                }
            } else if i < p {
                assert(t[i] == s[i] && t[j] == s[j - 1]);
                assert(text_lt(s[i].0@, s[j - 1].0@));
            } else {
                assert(t[i] == s[i - 1] && t[j] == s[j - 1]);
                assert(text_lt(s[i - 1].0@, s[j - 1].0@));
            }
        }
        lemma_header_map(s);
        lemma_header_map(t);
        let a = header_map(t);
        let b = header_map(s).insert(k, v);
        assert(t[p as int].0@ == k && t[p as int].1@ == v);
        assert forall|x: Seq<char>| a.dom().contains(x) <==> b.dom().contains(x) by {
            if a.dom().contains(x) {
                let i = choose|i: int| 0 <= i < t.len() && (#[trigger] t[i]).0@ == x;
                if i != p {
                    if same {
                        assert(s[i].0@ == x);
                    } else if i < p {
                        assert(s[i].0@ == x);
                    } else {
                        assert(s[i - 1].0@ == x);
                    }
                }
            }
            if b.dom().contains(x) && x != k {
                let i = choose|i: int| 0 <= i < s.len() && (#[trigger] s[i]).0@ == x;
                if same || i < p {
                    assert(t[i].0@ == x);
                } else {
                    assert(t[i + 1].0@ == x);
                }
            }
        }
        assert forall|x: Seq<char>| a.dom().contains(x) implies a[x] == b[x] by {
            let i = choose|i: int| 0 <= i < t.len() && (#[trigger] t[i]).0@ == x;
            if i == p {
            } else {
                lemma_text_order(t[i].0@, t[i].0@, t[i].0@);
                if i < p {
                    assert(text_lt(t[i].0@, t[p as int].0@));
                } else {
                    assert(text_lt(t[p as int].0@, t[i].0@));
                }
                assert(x != k);
                if same {
                    assert(s[i].0@ == x && s[i].1@ == t[i].1@);
                } else if i < p {
                    assert(s[i] == t[i]);
                } else {
                    assert(s[i - 1] == t[i]);
                }
            }
        }
        assert(a =~= b);
    }
}

impl HeaderList {
    #[verifier::type_invariant]
    spec fn inv(self) -> bool {
        names_sorted(self.entries@)
    }

    /// The list without headers.
    pub fn new() -> (r: HeaderList)
        ensures
            r@ == Map::<Seq<char>, Seq<char>>::empty(),
    {
        HeaderList { entries: Vec::new() }
    }

    /// The headers in the order of their names, each name once.
    pub fn entries(&self) -> (r: &Vec<(String, String)>)
        ensures
            names_sorted(r@),
            header_map(r@) == self@,
    {
        proof {
            use_type_invariant(self);
        }
        &self.entries
    }

    /// Binds a header to a value, in place of the value that it had.
    pub fn put(&mut self, name: String, value: String)
        ensures
            final(self)@ == old(self)@.insert(name@, value@),
    {
        proof {
            use_type_invariant(&*self);
        }
        let mut entries: Vec<(String, String)> = Vec::new();
        core::mem::swap(&mut self.entries, &mut entries);
        put_header(&mut entries, name, value);
        core::mem::swap(&mut self.entries, &mut entries);
    }

    /// A copy of the list.
    pub fn duplicate(&self) -> (r: HeaderList)
        ensures
            r@ == self@,
    {
        proof {
            use_type_invariant(self);
        }
        let mut entries: Vec<(String, String)> = Vec::new();
        let mut i: usize = 0;
        while i < self.entries.len()
            invariant
                i <= self.entries@.len(),
                entries@ == self.entries@.subrange(0, i as int),
            decreases self.entries@.len() - i,
        {
            entries.push((self.entries[i].0.clone(), self.entries[i].1.clone()));
            i = i + 1;
        }
        assert(entries@ =~= self.entries@);
        HeaderList { entries }
    }
}

impl Clone for HeaderList {
    fn clone(&self) -> (r: HeaderList)
        ensures
            r@ == self@,
    {
        self.duplicate()
    }
}

impl ObjectVersionHeaders {
    /// The headers of the content type, without others.
    pub fn new(content_type: String) -> (r: ObjectVersionHeaders)
        ensures
            r@ == (HeadersView { content_type: content_type@, other: Map::empty() }),
    {
        ObjectVersionHeaders { content_type, other: HeaderList::new() }
    }

    /// Binds a header to a value, in place of the value that it had.
    pub fn put(&mut self, name: String, value: String)
        ensures
            final(self)@ == (HeadersView {
                other: old(self)@.other.insert(name@, value@),
                ..old(self)@
            }),
    {
        self.other.put(name, value);
    }

    /// A copy of the headers.
    pub fn duplicate(&self) -> (r: ObjectVersionHeaders)
        ensures
            r@ == self@,
    {
        ObjectVersionHeaders {
            content_type: self.content_type.clone(),
            other: self.other.duplicate(),
        }
    }
}

/// Of two states of one version, the one that counts: an aborted one; else
/// a complete one, where the other is still uploading; else the first.
pub open spec fn merged_state(a: StateView, b: StateView) -> StateView {
    match b {
        StateView::Aborted => StateView::Aborted,
        StateView::Complete(_) => match a {
            StateView::Uploading(_) => b,
            _ => a,
        },
        StateView::Uploading(_) => a,
    }
}

/// A final state stays: merged with a state in progress, a complete or
/// aborted state is itself, whichever of the two comes first; an aborted
/// state stays aborted whatever it is merged with; and a state merged with
/// itself is itself.
pub proof fn lemma_final_states_dominate(a: StateView, b: StateView)
    ensures
        merged_state(a, a) == a,
        b is Uploading && !(a is Uploading) ==> merged_state(a, b) == a && merged_state(b, a) == a,
        a is Aborted ==> merged_state(a, b) is Aborted && merged_state(b, a) is Aborted,
        !(merged_state(a, b) is Uploading) || (a is Uploading && b is Uploading),
{
}

impl ObjectVersionMeta {
    /// A copy of the description.
    pub fn duplicate(&self) -> (r: ObjectVersionMeta)
        ensures
            r@ == self@,
    {
        ObjectVersionMeta {
            headers: self.headers.duplicate(),
            size: self.size,
            etag: self.etag.clone(),
        }
    }
}

impl ObjectVersionData {
    /// A copy of the data.
    pub fn duplicate(&self) -> (r: ObjectVersionData)
        ensures
            r@ == self@,
    {
        match self {
            ObjectVersionData::Inline(meta, bytes) => {
                let mut copy: Vec<u8> = Vec::new();
                copy.extend_from_slice(bytes.as_slice());
                assert(copy@ =~= bytes@);
                ObjectVersionData::Inline(meta.duplicate(), copy)
            },
            ObjectVersionData::FirstBlock(meta, hash) => ObjectVersionData::FirstBlock(
                meta.duplicate(),
                *hash,
            ),
        }
    }
}

impl ObjectVersionState {
    /// A copy of the state.
    pub fn duplicate(&self) -> (r: ObjectVersionState)
        ensures
            r@ == self@,
    {
        match self {
            ObjectVersionState::Uploading(headers) => ObjectVersionState::Uploading(
                headers.duplicate(),
            ),
            ObjectVersionState::Complete(data) => ObjectVersionState::Complete(data.duplicate()),
            ObjectVersionState::Aborted => ObjectVersionState::Aborted,
        }
    }

    /// Takes in another state of the same version.
    pub fn merge(&mut self, other: &ObjectVersionState)
        ensures
            final(self)@ == merged_state(old(self)@, other@),
    {
        match other {
            ObjectVersionState::Aborted => {
                *self = ObjectVersionState::Aborted;
            },
            ObjectVersionState::Complete(data) => {
                if self.is_uploading() {
                    *self = ObjectVersionState::Complete(data.duplicate());
                }
            },
            ObjectVersionState::Uploading(_) => {},
        }
    }

    /// Whether the version is still being uploaded.
    pub fn is_uploading(&self) -> (r: bool)
        ensures
            r == (self@ is Uploading),
    {
        match self {
            ObjectVersionState::Uploading(_) => true,
            _ => false,
        }
    }

    /// Whether the version holds data.
    pub fn is_complete(&self) -> (r: bool)
        ensures
            r == (self@ is Complete),
    {
        match self {
            ObjectVersionState::Complete(_) => true,
            _ => false,
        }
    }
}

impl ObjectVersion {
    /// Whether the version is still being uploaded.
    pub fn is_uploading(&self) -> (r: bool)
        ensures
            r == (self@.state is Uploading),
    {
        self.state.is_uploading()
    }

    /// Whether the version holds data.
    pub fn is_complete(&self) -> (r: bool)
        ensures
            r == (self@.state is Complete),
    {
        self.state.is_complete()
    }
}

/// The size of the data of a version: that of its meta-data where it is
/// complete, else nothing.
pub open spec fn version_bytes(v: ObjectVersionView) -> nat {
    match v.state {
        StateView::Complete(DataView::Inline(meta, _)) => meta.size as nat,
        StateView::Complete(DataView::FirstBlock(meta, _)) => meta.size as nat,
        _ => 0,
    }
}

/// The bytes that the versions of an object count for in its bucket.
pub open spec fn counted_bytes(versions: Seq<ObjectVersionView>) -> nat
    decreases versions.len(),
{
    if versions.len() == 0 {
        0
    } else {
        counted_bytes(versions.drop_last()) + version_bytes(versions.last())
    }
}

/// The objects that the versions of an object count for in its bucket: one
/// where a version holds data, else none.
pub open spec fn counted_objects(versions: Seq<ObjectVersionView>) -> nat {
    if exists|i: int| 0 <= i < versions.len() && (#[trigger] versions[i]).state is Complete {
        1
    } else {
        0
    }
}

/// The greatest time stamp among versions, where there is a version.
pub open spec fn max_timestamp(versions: Seq<ObjectVersionView>) -> Option<u64>
    decreases versions.len(),
{
    if versions.len() == 0 {
        None
    } else {
        match max_timestamp(versions.drop_last()) {
            Some(t) if t >= versions.last().timestamp => Some(t),
            _ => Some(versions.last().timestamp),
        }
    }
}

/// The time stamps of `versions` are at most their maximum.
pub proof fn lemma_max_timestamp(versions: Seq<ObjectVersionView>)
    ensures
        versions.len() > 0 <==> max_timestamp(versions) is Some,
        forall|i: int|
            0 <= i < versions.len() ==> (#[trigger] versions[i]).timestamp <= max_timestamp(
                versions,
            )->0,
    decreases versions.len(),
{
    if versions.len() > 0 {
        lemma_max_timestamp(versions.drop_last());
        assert forall|i: int| 0 <= i < versions.len() implies (#[trigger] versions[i]).timestamp
            <= max_timestamp(versions)->0 by {
            if i < versions.len() - 1 {
                assert(versions[i] == versions.drop_last()[i]);
            }
        }
    }
}

/// Whether the version at `i` is the upload `uuid`, still in progress.
pub open spec fn is_upload_at(versions: Seq<ObjectVersionView>, uuid: Uuid, i: int) -> bool {
    0 <= i < versions.len() && versions[i].uuid == uuid && versions[i].state is Uploading
}

/// The index of the first version that is the upload `uuid`, still in
/// progress.
#[verifier::opaque]
pub open spec fn find_upload(versions: Seq<ObjectVersionView>, uuid: Uuid) -> Option<int> {
    if exists|i: int| is_upload_at(versions, uuid, i) {
        Some(
            choose|i: int|
                is_upload_at(versions, uuid, i) && forall|j: int|
                    0 <= j < i ==> !is_upload_at(versions, uuid, j),
        )
    } else {
        None
    }
}

/// The function that takes a state to its value.
pub open spec fn state_view() -> spec_fn(ObjectVersionState) -> StateView {
    |st: ObjectVersionState| st@
}

/// The keys and the values of the states of the entries of an object.
pub open spec fn entry_views(s: Seq<(VersionKey, ObjectVersionState)>) -> Seq<
    (VersionKey, StateView),
> {
    map_entries(s, state_view())
}

/// The key and the state of each version.
pub open spec fn entries_of(versions: Seq<ObjectVersionView>) -> Seq<(VersionKey, StateView)> {
    versions.map_values(
        |v: ObjectVersionView| (VersionKey { timestamp: v.timestamp, uuid: v.uuid }, v.state),
    )
}

/// The versions that have the given keys and states.
pub open spec fn versions_of(entries: Seq<(VersionKey, StateView)>) -> Seq<ObjectVersionView> {
    entries.map_values(
        |e: (VersionKey, StateView)|
            ObjectVersionView { uuid: e.0.uuid, timestamp: e.0.timestamp, state: e.1 },
    )
}

/// The entries after a state of the version `k` was taken in: merged with
/// the state that the version had, or entered where the version is new.
pub open spec fn merge_entry(
    entries: Seq<(VersionKey, StateView)>,
    k: VersionKey,
    state: StateView,
) -> Seq<(VersionKey, StateView)> {
    match find_key(entries, k) {
        Some(i) => put_entry(entries, k, merged_state(entries[i].1, state)),
        None => put_entry(entries, k, state),
    }
}

/// The entries after every entry of `other` was taken in.
pub open spec fn merge_entries(
    entries: Seq<(VersionKey, StateView)>,
    other: Seq<(VersionKey, StateView)>,
) -> Seq<(VersionKey, StateView)>
    decreases other.len(),
{
    if other.len() == 0 {
        entries
    } else {
        merge_entry(merge_entries(entries, other.drop_last()), other.last().0, other.last().1)
    }
}

/// The versions of an object after another row of the same object was
/// taken in: the union of the versions of both, where a version that both
/// hold has the merged state.
pub open spec fn merge_versions(
    versions: Seq<ObjectVersionView>,
    other: Seq<ObjectVersionView>,
) -> Seq<ObjectVersionView> {
    versions_of(merge_entries(entries_of(versions), entries_of(other)))
}

proof fn lemma_merge_prefix(entries: Seq<(VersionKey, StateView)>, i: int)
    requires
        sorted(entries),
        0 <= i <= entries.len(),
    ensures
        merge_entries(entries, entries.subrange(0, i)) == entries,
    decreases i,
{
    if i > 0 {
        lemma_merge_prefix(entries, i - 1);
        assert(entries.subrange(0, i).drop_last() =~= entries.subrange(0, i - 1));
        lemma_find_key(entries, entries[i - 1].0);
        assert(merge_entry(entries, entries[i - 1].0, entries[i - 1].1) =~= entries);
    }
}

/// A row merged with itself is itself.
pub proof fn lemma_merge_idempotent(versions: Seq<ObjectVersionView>)
    requires
        sorted(entries_of(versions)),
    ensures
        merge_versions(versions, versions) == versions,
{
    let entries = entries_of(versions);
    lemma_merge_prefix(entries, entries.len() as int);
    assert(entries.subrange(0, entries.len() as int) =~= entries);
    assert(versions_of(entries) =~= versions);
}

/// A row that marks a version as aborted overrides the row that reserved
/// it, in whichever order the two are merged; and so does a row that
/// completes it.
pub proof fn lemma_final_row_overrides(
    uuid: Uuid,
    timestamp: u64,
    headers: HeadersView,
    last: StateView,
)
    requires
        !(last is Uploading),
    ensures
        merge_versions(
            seq![ObjectVersionView { uuid, timestamp, state: StateView::Uploading(headers) }],
            seq![ObjectVersionView { uuid, timestamp, state: last }],
        ) == seq![ObjectVersionView { uuid, timestamp, state: last }],
        merge_versions(
            seq![ObjectVersionView { uuid, timestamp, state: last }],
            seq![ObjectVersionView { uuid, timestamp, state: StateView::Uploading(headers) }],
        ) == seq![ObjectVersionView { uuid, timestamp, state: last }],
{
    let k = VersionKey { timestamp, uuid };
    let up = ObjectVersionView { uuid, timestamp, state: StateView::Uploading(headers) };
    let fin = ObjectVersionView { uuid, timestamp, state: last };
    let a = seq![(k, StateView::Uploading(headers))];
    let b = seq![(k, last)];
    assert(entries_of(seq![up]) =~= a);
    assert(entries_of(seq![fin]) =~= b);
    assert(merge_entries(a, b) == merge_entry(merge_entries(a, b.drop_last()), k, last));
    assert(merge_entries(b, a) == merge_entry(
        merge_entries(b, a.drop_last()),
        k,
        StateView::Uploading(headers),
    ));
}

/// The row of an object that holds one version.
pub open spec fn object_with(
    bucket_id: Uuid,
    key: Seq<char>,
    uuid: Uuid,
    timestamp: u64,
    state: StateView,
) -> ObjectView {
    ObjectView { bucket_id, key, versions: seq![ObjectVersionView { uuid, timestamp, state }] }
}

/// The entries that putting the versions one after the other leaves.
pub open spec fn put_versions(versions: Seq<ObjectVersion>) -> Seq<(VersionKey, ObjectVersionState)>
    decreases versions.len(),
{
    if versions.len() == 0 {
        Seq::empty()
    } else {
        put_entry(
            put_versions(versions.drop_last()),
            VersionKey { timestamp: versions.last().timestamp, uuid: versions.last().uuid },
            versions.last().state,
        )
    }
}

impl Object {
    /// The object of `key` in `bucket_id` with the given versions, put one
    /// after the other: of two versions with one time stamp and identifier
    /// the later one stays.
    pub fn new(bucket_id: Uuid, key: String, versions: Vec<ObjectVersion>) -> (r: Object)
        ensures
            r.bucket_id == bucket_id,
            r.key@ == key@,
            r.versions@ == put_versions(versions@),
    {
        let mut map: SortedMap<VersionKey, ObjectVersionState> = SortedMap::new();
        let mut versions = versions;
        let ghost first = versions@;
        let n = versions.len();
        // Turned round first, so that they can be taken in their order.
        let mut rest: Vec<ObjectVersion> = Vec::new();
        while versions.len() > 0
            invariant
                n == first.len(),
                versions@.len() + rest@.len() == n,
                forall|i: int| 0 <= i < rest@.len() ==> rest@[i] == first[n - 1 - i],
                versions@ == first.subrange(0, versions@.len() as int),
            decreases versions@.len(),
        {
            let v = versions.pop().unwrap();
            rest.push(v);
        }
        while rest.len() > 0
            invariant
                n == first.len(),
                rest@.len() <= n,
                forall|i: int| 0 <= i < rest@.len() ==> rest@[i] == first[n - 1 - i],
                map@ == put_versions(first.subrange(0, n - rest@.len())),
            decreases rest@.len(),
        {
            let ghost done = n - rest@.len();
            let v = rest.pop().unwrap();
            map.put(VersionKey { timestamp: v.timestamp, uuid: v.uuid }, v.state);
            proof {
                assert(first.subrange(0, done + 1).drop_last() =~= first.subrange(0, done));
            }
        }
        Object { bucket_id, key, versions: map }
    }

    /// Takes in another row of the same object: the versions of both stay,
    /// and a version that both hold has the merged state.
    pub fn merge(&mut self, other: &Object)
        ensures
            final(self)@.bucket_id == old(self)@.bucket_id,
            final(self)@.key == old(self)@.key,
            final(self)@.versions == merge_versions(old(self)@.versions, other@.versions),
    {
        let items = other.versions.items();
        let ghost start = self.versions@;
        let mut i: usize = 0;
        while i < items.len()
            invariant
                i <= items@.len(),
                self.bucket_id == old(self).bucket_id,
                self.key == old(self).key,
                entry_views(self.versions@) == merge_entries(
                    entry_views(start),
                    entry_views(items@).subrange(0, i as int),
                ),
            decreases items@.len() - i,
        {
            let k = items[i].0;
            let ghost s = self.versions@;
            proof {
                let all = entry_views(items@);
                assert(all.subrange(0, i + 1).drop_last() =~= all.subrange(0, i as int));
                lemma_map_lower_bound(s, k, state_view());
            }
            let merged = match self.versions.get(&k) {
                Some(current) => {
                    let mut m = current.duplicate();
                    m.merge(&items[i].1);
                    m
                },
                None => items[i].1.duplicate(),
            };
            proof {
                lemma_map_put(s, k, merged, state_view());
                if find_key(s, k) is Some {
                    crate::sorted::lemma_lower_bound_range(s, k);
                }
            }
            self.versions.put(k, merged);
            i = i + 1;
        }
        proof {
            let all = entry_views(items@);
            assert(all.subrange(0, i as int) =~= all);
            assert(entries_of(versions_view(start)) =~= entry_views(start));
            assert(entries_of(versions_view(items@)) =~= entry_views(items@));
        }
    }

    /// The object of `key` in `bucket_id` that holds the one version.
    pub fn single(bucket_id: Uuid, key: String, version: ObjectVersion) -> (r: Object)
        ensures
            r@ == (ObjectView { bucket_id, key: key@, versions: seq![version@] }),
    {
        let mut map: SortedMap<VersionKey, ObjectVersionState> = SortedMap::new();
        let ghost v = version@;
        map.put(VersionKey { timestamp: version.timestamp, uuid: version.uuid }, version.state);
        assert(versions_view(map@) =~= seq![v]);
        Object { bucket_id, key, versions: map }
    }

    /// The entries of the versions, in the order of their keys.
    pub fn versions(&self) -> (r: &Vec<(VersionKey, ObjectVersionState)>)
        ensures
            versions_view(r@) == self@.versions,
            r@ == self.versions@,
    {
        self.versions.items()
    }

    /// What the object counts for in its bucket: the number of objects (one
    /// where a version holds data) and the bytes of its complete versions.
    pub fn counts(&self) -> (r: (u64, u128))
        ensures
            r.0 == counted_objects(self@.versions),
            r.1 == counted_bytes(self@.versions),
    {
        let items = self.versions.items();
        let ghost s = versions_view(items@);
        let mut objects: u64 = 0;
        let mut bytes: u128 = 0;
        let mut i: usize = 0;
        while i < items.len()
            invariant
                i <= items@.len(),
                s == versions_view(items@),
                s == self@.versions,
                objects == counted_objects(s.subrange(0, i as int)),
                bytes == counted_bytes(s.subrange(0, i as int)),
                bytes <= i * 0xffff_ffff_ffff_ffff,
            decreases items@.len() - i,
        {
            let ghost p = s.subrange(0, i as int);
            let ghost q = s.subrange(0, i + 1);
            proof {
                assert(q.drop_last() =~= p);
                assert(q.last() == s[i as int]);
                if counted_objects(p) == 1 {
                    let j = choose|j: int| 0 <= j < p.len() && (#[trigger] p[j]).state is Complete;
                    assert(q[j].state is Complete);
                }
                if counted_objects(q) == 1 && !(s[i as int].state is Complete) {
                    let j = choose|j: int| 0 <= j < q.len() && (#[trigger] q[j]).state is Complete;
                    assert(p[j].state is Complete);
                }
            }
            match &items[i].1 {
                ObjectVersionState::Complete(ObjectVersionData::Inline(meta, _)) => {
                    assert(q[i as int].state is Complete);
                    objects = 1;
                    bytes = bytes + meta.size as u128;
                },
                ObjectVersionState::Complete(ObjectVersionData::FirstBlock(meta, _)) => {
                    assert(q[i as int].state is Complete);
                    objects = 1;
                    bytes = bytes + meta.size as u128;
                },
                _ => {},
            }
            i = i + 1;
        }
        assert(s.subrange(0, items@.len() as int) =~= s);
        (objects, bytes)
    }

    /// The greatest time stamp among the versions.
    pub fn last_timestamp(&self) -> (r: Option<u64>)
        ensures
            r == max_timestamp(self@.versions),
    {
        let items = self.versions.items();
        let mut best: Option<u64> = None;
        let mut i: usize = 0;
        while i < items.len()
            invariant
                i <= items@.len(),
                best == max_timestamp(versions_view(items@).subrange(0, i as int)),
            decreases items@.len() - i,
        {
            let t = items[i].0.timestamp;
            proof {
                let s = versions_view(items@);
                assert(s.subrange(0, i + 1).drop_last() =~= s.subrange(0, i as int));
            }
            best = match best {
                Some(b) if b >= t => Some(b),
                _ => Some(t),
            };
            i = i + 1;
        }
        assert(versions_view(items@).subrange(0, items@.len() as int) =~= versions_view(items@));
        best
    }

    /// The index of the first version that is the upload `uuid`, still in
    /// progress.
    pub fn find_uploading(&self, uuid: &Uuid) -> (r: Option<usize>)
        ensures
            match r {
                Some(i) => find_upload(self@.versions, *uuid) == Some(i as int) && is_upload_at(
                    self@.versions,
                    *uuid,
                    i as int,
                ),
                None => find_upload(self@.versions, *uuid) is None,
            },
    {
        let items = self.versions.items();
        let ghost s = versions_view(items@);
        let mut i: usize = 0;
        proof {
            reveal(find_upload);
        }
        while i < items.len()
            invariant
                i <= items@.len(),
                s == versions_view(items@),
                s == self@.versions,
                forall|j: int| 0 <= j < i ==> !is_upload_at(s, *uuid, j),
            decreases items@.len() - i,
        {
            if items[i].0.uuid == *uuid && items[i].1.is_uploading() {
                proof {
                    reveal(find_upload);
                    assert(items@[i as int].0.uuid.bytes =~= uuid.bytes);
                    assert(is_upload_at(s, *uuid, i as int));
                }
                return Some(i);
            }
            i = i + 1;
        }
        None
    }
}

} // verus!
