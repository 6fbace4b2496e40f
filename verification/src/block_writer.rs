//! The blocks of an upload on their way to the store: for each block the
//! rows that record it, and over all of them the digests of the data.
use crate::chunker::{byte_views, concat, lemma_concat_prefix, lemma_concat_push};
use crate::data;
use crate::digest::{
    blake2_of, blake2sum, md5_absorbed, md5_of, sha256_absorbed, sha256_of, Md5Hasher,
    Sha256Hasher,
};
use crate::sorted::put_entry;
use crate::version::{BlockRef, Version, VersionBlock, VersionBlockKey, VersionView};
use vstd::prelude::*;

verus! {

/// The rows that record a block of `size` bytes with digest `hash` at
/// `offset` of part `part_number` of an upload: the catalogue of the upload
/// with the block entered, and the reference from the block to the upload.
/// Both have to be written.
pub fn put_block_meta(
    version: &Version,
    part_number: u64,
    offset: u64,
    hash: data::Hash,
    size: u64,
) -> (r: (Version, BlockRef))
    ensures
        r.0@ == (VersionView {
            blocks: put_entry(
                version@.blocks,
                VersionBlockKey { part_number, offset },
                VersionBlock { hash, size },
            ),
            ..version@
        }),
        r.1 == (BlockRef { block: hash, version: version.uuid, deleted: false }),
{
    let mut row = version.duplicate();
    row.blocks.put(VersionBlockKey { part_number, offset }, VersionBlock { hash, size });
    let block_ref = BlockRef { block: hash, version: row.uuid, deleted: false };
    (row, block_ref)
}

/// What is written for one block: the block itself under its digest, the
/// catalogue of the upload, and the reference from the block to the upload.
#[derive(Debug, PartialEq, Eq)]
pub struct BlockWrite {
    pub hash: data::Hash,
    pub version: Version,
    pub block_ref: BlockRef,
}

/// What is written for the block `block` with digest `hash` at `offset` of
/// part `part_number` of the upload `version`.
pub open spec fn block_write_of(
    w: BlockWrite,
    version: VersionView,
    part_number: u64,
    offset: u64,
    hash: data::Hash,
    len: nat,
) -> bool {
    &&& w.hash == hash
    &&& w.version@ == (VersionView {
        blocks: put_entry(
            version.blocks,
            VersionBlockKey { part_number, offset },
            VersionBlock { hash, size: len as u64 },
        ),
        ..version
    })
    &&& w.block_ref == (BlockRef { block: hash, version: version.uuid, deleted: false })
}

/// The blocks of one part on their way to the store: the running digests of
/// the data so far, and the offset of the next block.
pub struct BlockPipeline {
    version: Version,
    part_number: u64,
    next_offset: u64,
    md5: Md5Hasher,
    sha256: Sha256Hasher,
}

impl BlockPipeline {
    #[verifier::type_invariant]
    spec fn inv(self) -> bool {
        &&& sha256_absorbed(self.sha256) == md5_absorbed(self.md5)
        &&& self.next_offset == md5_absorbed(self.md5).len()
    }

    /// The bytes of the blocks so far, in order.
    pub closed spec fn data(self) -> Seq<u8> {
        md5_absorbed(self.md5)
    }

    /// The catalogue that the blocks are entered into.
    pub closed spec fn version(self) -> VersionView {
        self.version@
    }

    /// The part that the blocks belong to.
    pub closed spec fn part_number(self) -> u64 {
        self.part_number
    }

    /// The offset at which the next block is entered: the size of the data
    /// so far.
    pub fn next_offset(&self) -> (r: u64)
        ensures
            r == self.data().len(),
    {
        proof {
            use_type_invariant(self);
        }
        self.next_offset
    }

    /// Takes the next block: its digest addresses it, it is entered at the
    /// offset that the blocks before it end at, and it joins the data of
    /// which the running digests are taken.
    pub fn put_block(self, block: &[u8]) -> (r: (BlockPipeline, BlockWrite))
        requires
            self.data().len() + block@.len() <= u64::MAX,
        ensures
            r.0.data() == self.data() + block@,
            r.0.version() == self.version(),
            r.0.part_number() == self.part_number(),
            block_write_of(
                r.1,
                self.version(),
                self.part_number(),
                self.data().len() as u64,
                r.1.hash,
                block@.len(),
            ),
            r.1.hash@ == blake2_of(block@),
    {
        proof {
            use_type_invariant(&self);
        }
        let hash = blake2sum(block);
        let BlockPipeline { version, part_number, next_offset, mut md5, mut sha256 } = self;
        md5.update(block);
        sha256.update(block);
        let size = block.len() as u64;
        let (row, block_ref) = put_block_meta(&version, part_number, next_offset, hash, size);
        let next = BlockPipeline {
            version,
            part_number,
            next_offset: next_offset + size,
            md5,
            sha256,
        };
        (next, BlockWrite { hash, version: row, block_ref })
    }

    /// Takes the blocks one after the other, each at the offset at which the
    /// one before it ends; nothing where the data do not fit in the sizes of
    /// a catalogue. The running digests are then those of all the blocks as
    /// one byte string, however many they are.
    pub fn put_blocks(self, blocks: &Vec<Vec<u8>>) -> (r: Option<(BlockPipeline, Vec<BlockWrite>)>)
        ensures
            match r {
                Some((next, writes)) => {
                    &&& next.data() == self.data() + concat(byte_views(blocks@))
                    &&& next.version() == self.version()
                    &&& next.part_number() == self.part_number()
                    &&& writes@.len() == blocks@.len()
                    &&& forall|i: int|
                        0 <= i < writes@.len() ==> (#[trigger] writes@[i]).hash@ == blake2_of(
                            blocks@[i]@,
                        ) && block_write_of(
                            writes@[i],
                            self.version(),
                            self.part_number(),
                            (self.data().len() + concat(
                                byte_views(blocks@).subrange(0, i),
                            ).len()) as u64,
                            writes@[i].hash,
                            blocks@[i]@.len(),
                        )
                },
                None => self.data().len() + concat(byte_views(blocks@)).len() > u64::MAX,
            },
    {
        let ghost all = byte_views(blocks@);
        let ghost start = self.data();
        let ghost version = self.version();
        let ghost part_number = self.part_number();
        let mut pipeline = self;
        let mut writes: Vec<BlockWrite> = Vec::new();
        let mut i: usize = 0;
        proof {
            assert(all.subrange(0, 0) =~= Seq::<Seq<u8>>::empty());
            assert(start + concat(all.subrange(0, 0)) =~= start);
        }
        while i < blocks.len()
            invariant
                i <= blocks@.len(),
                all == byte_views(blocks@),
                start == self.data(),
                pipeline.data() == start + concat(all.subrange(0, i as int)),
                pipeline.version() == version,
                pipeline.part_number() == part_number,
                writes@.len() == i,
                forall|j: int|
                    0 <= j < i ==> (#[trigger] writes@[j]).hash@ == blake2_of(blocks@[j]@)
                        && block_write_of(
                        writes@[j],
                        version,
                        part_number,
                        (start.len() + concat(all.subrange(0, j)).len()) as u64,
                        writes@[j].hash,
                        blocks@[j]@.len(),
                    ),
            decreases blocks@.len() - i,
        {
            let block = &blocks[i];
            proof {
                lemma_concat_push(all.subrange(0, i as int), all[i as int]);
                assert(all.subrange(0, i as int).push(all[i as int]) =~= all.subrange(0, i + 1));
                lemma_concat_prefix(all, i + 1);
                assert(all[i as int] == block@);
                assert(concat(all.subrange(0, i + 1)).len() == concat(
                    all.subrange(0, i as int),
                ).len() + block@.len());
                assert((start + concat(all.subrange(0, i as int))) + block@ =~= start + concat(
                    all.subrange(0, i + 1),
                ));
            }
            let offset = pipeline.next_offset();
            if block.len() as u64 > u64::MAX - offset {
                return None;
            }
            let (next, write) = pipeline.put_block(block.as_slice());
            pipeline = next;
            writes.push(write);
            i = i + 1;
        }
        proof {
            assert(all.subrange(0, i as int) =~= all);
        }
        Some((pipeline, writes))
    }

    /// Ends the part: the size of the data, and their MD5 and SHA-256
    /// digests, which are those of the blocks taken as one byte string.
    pub fn finish(self) -> (r: (u64, [u8; 16], data::Hash))
        ensures
            r.0 == self.data().len(),
            r.1@ == md5_of(self.data()),
            r.2@ == sha256_of(self.data()),
    {
        proof {
            use_type_invariant(&self);
        }
        let BlockPipeline { version, part_number, next_offset, md5, sha256 } = self;
        (next_offset, md5.finalize(), sha256.finalize())
    }
}

/// Starts the blocks of part `part_number` of the upload `version` with the
/// first block, whose digest is `first_block_hash`: the first block is
/// entered at offset 0.
pub fn read_and_put_blocks(
    version: &Version,
    part_number: u64,
    first_block: &[u8],
    first_block_hash: data::Hash,
) -> (r: (BlockPipeline, BlockWrite))
    ensures
        r.0.data() == first_block@,
        r.0.version() == version@,
        r.0.part_number() == part_number,
        block_write_of(r.1, version@, part_number, 0, first_block_hash, first_block@.len()),
{
    let mut md5 = Md5Hasher::new();
    let mut sha256 = Sha256Hasher::new();
    md5.update(first_block);
    sha256.update(first_block);
    let size = first_block.len() as u64;
    let (row, block_ref) = put_block_meta(version, part_number, 0, first_block_hash, size);
    let pipeline = BlockPipeline {
        version: version.duplicate(),
        part_number,
        next_offset: size,
        md5,
        sha256,
    };
    (pipeline, BlockWrite { hash: first_block_hash, version: row, block_ref })
}

} // verus!
