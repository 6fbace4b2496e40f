//! The block catalogue of one upload, and the back-reference of a block.
use crate::data::Uuid;
use crate::data;
use crate::sorted::{find_key, lemma_find_key, put_all, SortKey, SortedMap};
use vstd::prelude::*;

verus! {

/// The place of a block in an upload: its part, and its offset from the
/// start of that part.
#[derive(Clone, Copy, Debug, PartialEq, Eq, Structural)]
pub struct VersionBlockKey {
    pub part_number: u64,
    pub offset: u64,
}

/// A block of an upload: the digest that addresses it, and its size.
#[derive(Clone, Copy, Debug, PartialEq, Eq)]
pub struct VersionBlock {
    pub hash: data::Hash,
    pub size: u64,
}

impl SortKey for VersionBlockKey {
    open spec fn before(self, other: VersionBlockKey) -> bool {
        self.part_number < other.part_number || (self.part_number == other.part_number
            && self.offset < other.offset)
    }

    proof fn lemma_order(a: VersionBlockKey, b: VersionBlockKey, c: VersionBlockKey) {
    }

    fn precedes(&self, other: &VersionBlockKey) -> (r: bool) {
        self.part_number < other.part_number || (self.part_number == other.part_number
            && self.offset < other.offset)
    }
}

/// The record that block `block` is in use by the upload `version`.
#[derive(Clone, Copy, Debug, PartialEq, Eq)]
pub struct BlockRef {
    pub block: data::Hash,
    pub version: Uuid,
    pub deleted: bool,
}

impl BlockRef {
    /// Takes in another row of the same reference: it counts as deleted
    /// where either row does.
    pub fn merge(&mut self, other: &BlockRef)
        ensures
            *final(self) == (BlockRef {
                deleted: old(self).deleted || other.deleted,
                ..*old(self)
            }),
    {
        self.deleted = self.deleted || other.deleted;
    }
}

/// The catalogue of one upload: its blocks by part and offset, and the ETag
/// of each part that was received in full.
#[derive(Debug, PartialEq, Eq)]
pub struct Version {
    pub uuid: Uuid,
    pub deleted: bool,
    pub blocks: SortedMap<VersionBlockKey, VersionBlock>,
    pub parts_etags: SortedMap<u64, String>,
    pub bucket_id: Uuid,
    pub key: String,
}

/// The mathematical value of a [`Version`].
pub struct VersionView {
    pub uuid: Uuid,
    pub deleted: bool,
    pub blocks: Seq<(VersionBlockKey, VersionBlock)>,
    pub parts_etags: Seq<(u64, Seq<char>)>,
    pub bucket_id: Uuid,
    pub key: Seq<char>,
}

/// The parts and their ETags as characters.
pub open spec fn etags_view(s: Seq<(u64, String)>) -> Seq<(u64, Seq<char>)> {
    s.map_values(|e: (u64, String)| (e.0, e.1@))
}

impl View for Version {
    type V = VersionView;

    open spec fn view(&self) -> VersionView {
        VersionView {
            uuid: self.uuid,
            deleted: self.deleted,
            blocks: self.blocks@,
            parts_etags: etags_view(self.parts_etags@),
            bucket_id: self.bucket_id,
            key: self.key@,
        }
    }
}

/// The catalogue of an upload that has no block yet.
pub open spec fn empty_version(uuid: Uuid, bucket_id: Uuid, key: Seq<char>) -> VersionView {
    VersionView {
        uuid,
        deleted: false,
        blocks: Seq::empty(),
        parts_etags: Seq::empty(),
        bucket_id,
        key,
    }
}

/// The sum of the sizes of the blocks.
pub open spec fn blocks_size(s: Seq<(VersionBlockKey, VersionBlock)>) -> nat
    decreases s.len(),
{
    if s.len() == 0 {
        0
    } else {
        blocks_size(s.drop_last()) + s.last().1.size as nat
    }
}

/// Whether a part has an ETag among `s`.
pub open spec fn has_part(s: Seq<(u64, Seq<char>)>, part_number: u64) -> bool {
    exists|i: int| 0 <= i < s.len() && (#[trigger] s[i]).0 == part_number
}

proof fn lemma_blocks_size_prefix(s: Seq<(VersionBlockKey, VersionBlock)>, k: int)
    requires
        0 <= k <= s.len(),
    ensures
        blocks_size(s.subrange(0, k)) <= blocks_size(s),
    decreases s.len() - k,
{
    if k == s.len() {
        assert(s.subrange(0, k) =~= s);
    } else {
        lemma_blocks_size_prefix(s, k + 1);
        assert(s.subrange(0, k + 1).drop_last() =~= s.subrange(0, k));
    }
}

impl Version {
    /// The catalogue of a new upload: no block, no part.
    pub fn new(uuid: Uuid, bucket_id: Uuid, key: String, deleted: bool) -> (r: Version)
        ensures
            r@ == (VersionView {
                uuid,
                deleted,
                blocks: Seq::empty(),
                parts_etags: Seq::empty(),
                bucket_id,
                key: key@,
            }),
    {
        let r = Version {
            uuid,
            deleted,
            blocks: SortedMap::new(),
            parts_etags: SortedMap::new(),
            bucket_id,
            key,
        };
        assert(etags_view(r.parts_etags@) =~= Seq::empty());
        r
    }

    /// Whether the part has been received in full.
    pub fn has_part_number(&self, part_number: u64) -> (r: bool)
        ensures
            r == has_part(self@.parts_etags, part_number),
    {
        let found = self.parts_etags.get(&part_number);
        let entries = self.parts_etags.items();
        proof {
            let s = self.parts_etags@;
            lemma_find_key(s, part_number);
            let t = etags_view(s);
            if find_key(s, part_number) is Some {
                let i = find_key(s, part_number)->0;
                assert(t[i].0 == part_number);
            }
        }
        found.is_some()
    }

    /// The sum of the sizes of the blocks, where it fits.
    pub fn total_size(&self) -> (r: Option<u64>)
        ensures
            match r {
                Some(n) => n == blocks_size(self@.blocks),
                None => blocks_size(self@.blocks) > u64::MAX,
            },
    {
        let items = self.blocks.items();
        let n = items.len();
        let mut sum: u64 = 0;
        let mut i: usize = 0;
        while i < n
            invariant
                i <= n,
                n == items@.len(),
                items@ == self@.blocks,
                sum == blocks_size(items@.subrange(0, i as int)),
            decreases n - i,
        {
            let size = items[i].1.size;
            proof {
                assert(items@.subrange(0, i + 1).drop_last() =~= items@.subrange(0, i as int));
                lemma_blocks_size_prefix(items@, i + 1);
            }
            if size > u64::MAX - sum {
                return None;
            }
            sum = sum + size;
            i = i + 1;
        }
        assert(items@.subrange(0, n as int) =~= items@);
        Some(sum)
    }

    /// Takes in another row of the same upload: its blocks and the ETags of
    /// its parts are entered, each in place of what was entered at its
    /// place, and the upload counts as deleted where either row does.
    pub fn merge(&mut self, other: &Version)
        ensures
            final(self).uuid == old(self).uuid,
            final(self).bucket_id == old(self).bucket_id,
            final(self).key == old(self).key,
            final(self).deleted == (old(self).deleted || other.deleted),
            final(self).blocks@ == put_all(old(self).blocks@, other.blocks@),
            final(self).parts_etags@ == put_all(old(self).parts_etags@, other.parts_etags@),
    {
        self.deleted = self.deleted || other.deleted;
        let blocks = other.blocks.items();
        let mut i: usize = 0;
        while i < blocks.len()
            invariant
                i <= blocks@.len(),
                self.uuid == old(self).uuid,
                self.bucket_id == old(self).bucket_id,
                self.key == old(self).key,
                self.deleted == (old(self).deleted || other.deleted),
                self.parts_etags@ == old(self).parts_etags@,
                self.blocks@ == put_all(old(self).blocks@, blocks@.subrange(0, i as int)),
            decreases blocks@.len() - i,
        {
            proof {
                assert(blocks@.subrange(0, i + 1).drop_last() =~= blocks@.subrange(0, i as int));
            }
            self.blocks.put(blocks[i].0, blocks[i].1);
            i = i + 1;
        }
        assert(blocks@.subrange(0, i as int) =~= blocks@);
        let etags = other.parts_etags.items();
        let mut j: usize = 0;
        while j < etags.len()
            invariant
                j <= etags@.len(),
                self.uuid == old(self).uuid,
                self.bucket_id == old(self).bucket_id,
                self.key == old(self).key,
                self.deleted == (old(self).deleted || other.deleted),
                self.blocks@ == put_all(old(self).blocks@, other.blocks@),
                self.parts_etags@ == put_all(old(self).parts_etags@, etags@.subrange(0, j as int)),
            decreases etags@.len() - j,
        {
            proof {
                assert(etags@.subrange(0, j + 1).drop_last() =~= etags@.subrange(0, j as int));
            }
            self.parts_etags.put(etags[j].0, etags[j].1.clone());
            j = j + 1;
        }
        assert(etags@.subrange(0, j as int) =~= etags@);
    }

    /// A copy of the catalogue.
    pub fn duplicate(&self) -> (r: Version)
        ensures
            r@ == self@,
    {
        let src = self.blocks.items();
        let mut blocks: Vec<(VersionBlockKey, VersionBlock)> = Vec::new();
        let mut i: usize = 0;
        while i < src.len()
            invariant
                i <= src@.len(),
                blocks@ == src@.subrange(0, i as int),
            decreases src@.len() - i,
        {
            blocks.push((src[i].0, src[i].1));
            i = i + 1;
        }
        assert(blocks@ =~= src@);
        let esrc = self.parts_etags.items();
        let mut etags: Vec<(u64, String)> = Vec::new();
        let mut j: usize = 0;
        while j < esrc.len()
            invariant
                j <= esrc@.len(),
                etags@ == esrc@.subrange(0, j as int),
            decreases esrc@.len() - j,
        {
            etags.push((esrc[j].0, esrc[j].1.clone()));
            j = j + 1;
        }
        assert(etags@ =~= esrc@);
        Version {
            uuid: self.uuid,
            deleted: self.deleted,
            blocks: SortedMap::from_sorted_vec(blocks),
            parts_etags: SortedMap::from_sorted_vec(etags),
            bucket_id: self.bucket_id,
            key: self.key.clone(),
        }
    }
}

} // verus!
