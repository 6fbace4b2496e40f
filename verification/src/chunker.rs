//! Cutting a stream of bytes into blocks of a fixed size.
//!
//! The chunker holds the bytes that came from the source and were not handed
//! out yet. Its caller pulls from the source when [`StreamChunker::next`]
//! asks for input, and tells it when the source has ended.
use vstd::prelude::*;

verus! {

/// The state of the cutting of one stream.
pub struct StreamChunker {
    read_all: bool,
    block_size: usize,
    buf: Vec<u8>,
}

/// The mathematical value of a [`StreamChunker`].
pub struct ChunkerView {
    /// Whether the source has ended.
    pub read_all: bool,
    pub block_size: nat,
    /// The bytes that came in and were not handed out.
    pub buf: Seq<u8>,
}

/// What the chunker does next.
#[derive(Debug, PartialEq, Eq)]
pub enum ChunkerStep {
    /// The source has to be pulled once more.
    NeedInput,
    /// The next block.
    Block(Vec<u8>),
    /// All blocks were handed out.
    End,
}

impl View for StreamChunker {
    type V = ChunkerView;

    closed spec fn view(&self) -> ChunkerView {
        ChunkerView {
            read_all: self.read_all,
            block_size: self.block_size as nat,
            buf: self.buf@,
        }
    }
}

/// Whether the chunker has to wait for the source: the source has not
/// ended, and less than one block is held.
pub open spec fn wants_input(c: ChunkerView) -> bool {
    !c.read_all && c.buf.len() < c.block_size
}

/// The length of the block that is handed out next.
pub open spec fn next_len(c: ChunkerView) -> int {
    if c.buf.len() < c.block_size {
        c.buf.len() as int
    } else {
        c.block_size as int
    }
}

/// The bytes of a list of byte strings, one after the other.
pub open spec fn concat(parts: Seq<Seq<u8>>) -> Seq<u8>
    decreases parts.len(),
{
    if parts.len() == 0 {
        Seq::empty()
    } else {
        parts[0] + concat(parts.drop_first())
    }
}

/// The bytes of a list with one more byte string are those of the list
/// followed by it.
pub proof fn lemma_concat_push(parts: Seq<Seq<u8>>, last: Seq<u8>)
    ensures
        concat(parts.push(last)) == concat(parts) + last,
    decreases parts.len(),
{
    if parts.len() == 0 {
        let one = parts.push(last);
        assert(one[0] == last);
        assert(one.drop_first() =~= Seq::<Seq<u8>>::empty());
        assert(concat(one.drop_first()) =~= Seq::<u8>::empty());
        assert(concat(one) =~= last);
        assert(concat(parts) + last =~= last);
    } else {
        lemma_concat_push(parts.drop_first(), last);
        assert(parts.push(last).drop_first() =~= parts.drop_first().push(last));
        assert(concat(parts.push(last)) =~= parts[0] + (concat(parts.drop_first()) + last));
        assert(concat(parts) + last =~= parts[0] + (concat(parts.drop_first()) + last));
    }
}

/// The bytes of the first byte strings of a list are the first of the bytes
/// of the list.
pub proof fn lemma_concat_prefix(parts: Seq<Seq<u8>>, i: int)
    requires
        0 <= i <= parts.len(),
    ensures
        concat(parts.subrange(0, i)).len() <= concat(parts).len(),
    decreases parts.len() - i,
{
    if i < parts.len() {
        lemma_concat_prefix(parts, i + 1);
        lemma_concat_push(parts.subrange(0, i), parts[i]);
        assert(parts.subrange(0, i).push(parts[i]) =~= parts.subrange(0, i + 1));
    } else {
        assert(parts.subrange(0, i) =~= parts);
    }
}

/// The blocks that come out, in order, when `pending` is held and the source
/// still yields `inputs` and then ends.
pub open spec fn blocks_of(pending: Seq<u8>, inputs: Seq<Seq<u8>>, block_size: nat) -> Seq<
    Seq<u8>,
>
    decreases inputs.len(), pending.len(),
{
    if block_size == 0 {
        Seq::empty()
    } else if pending.len() >= block_size {
        seq![pending.subrange(0, block_size as int)] + blocks_of(
            pending.subrange(block_size as int, pending.len() as int),
            inputs,
            block_size,
        )
    } else if inputs.len() > 0 {
        blocks_of(pending + inputs[0], inputs.drop_first(), block_size)
    } else if pending.len() > 0 {
        seq![pending]
    } else {
        Seq::empty()
    }
}

/// The blocks are the stream: one after the other they give the bytes that
/// were held followed by those that the source yields; each block but the
/// last has the full size, and the last is not empty.
pub proof fn lemma_blocks_round_trip(pending: Seq<u8>, inputs: Seq<Seq<u8>>, block_size: nat)
    requires
        block_size > 0,
    ensures
        concat(blocks_of(pending, inputs, block_size)) == pending + concat(inputs),
        forall|i: int|
            0 <= i < blocks_of(pending, inputs, block_size).len() - 1 ==> (#[trigger] blocks_of(
                pending,
                inputs,
                block_size,
            )[i]).len() == block_size,
        forall|i: int|
            0 <= i < blocks_of(pending, inputs, block_size).len() ==> 0 < (#[trigger] blocks_of(
                pending,
                inputs,
                block_size,
            )[i]).len() <= block_size,
    decreases inputs.len(), pending.len(),
{
    let b = blocks_of(pending, inputs, block_size);
    if pending.len() >= block_size {
        let tail = pending.subrange(block_size as int, pending.len() as int);
        lemma_blocks_round_trip(tail, inputs, block_size);
        let rest = blocks_of(tail, inputs, block_size);
        assert(b.drop_first() =~= rest);
    } else if inputs.len() > 0 {
        lemma_blocks_round_trip(pending + inputs[0], inputs.drop_first(), block_size);
    } else if pending.len() > 0 {
        assert(concat(b.drop_first()) =~= Seq::<u8>::empty());
    }
}

/// The byte strings that a list of vectors holds.
pub open spec fn byte_views(s: Seq<Vec<u8>>) -> Seq<Seq<u8>> {
    s.map_values(|v: Vec<u8>| v@)
}

impl StreamChunker {
    /// A chunker for blocks of `block_size` bytes, holding nothing.
    pub fn new(block_size: usize) -> (r: StreamChunker)
        ensures
            r@ == (ChunkerView {
                read_all: false,
                block_size: block_size as nat,
                buf: Seq::empty(),
            }),
    {
        StreamChunker { read_all: false, block_size, buf: Vec::new() }
    }

    /// Takes in the bytes that the source yielded.
    pub fn push(&mut self, bytes: &[u8])
        ensures
            final(self)@ == (ChunkerView { buf: old(self)@.buf + bytes@, ..old(self)@ }),
    {
        self.buf.extend_from_slice(bytes);
        assert(self.buf@ =~= old(self).buf@ + bytes@);
    }

    /// Notes that the source has ended.
    pub fn finish(&mut self)
        ensures
            final(self)@ == (ChunkerView { read_all: true, ..old(self)@ }),
    {
        self.read_all = true;
    }

    /// The next step: to wait for the source while it has not ended and less
    /// than a block is held; else the end where nothing is held; else a block
    /// of the bytes that came first, of the full size or, where less is held,
    /// of all that is held.
    pub fn next(&mut self) -> (step: ChunkerStep)
        ensures
            wants_input(old(self)@) ==> step is NeedInput && final(self)@ == old(self)@,
            !wants_input(old(self)@) && old(self)@.buf.len() == 0 ==> step is End && final(self)@
                == old(self)@,
            !wants_input(old(self)@) && old(self)@.buf.len() > 0 ==> {
                &&& step matches ChunkerStep::Block(b)
                &&& b@ == old(self)@.buf.subrange(0, next_len(old(self)@))
                &&& final(self)@ == (ChunkerView {
                    buf: old(self)@.buf.subrange(
                        next_len(old(self)@),
                        old(self)@.buf.len() as int,
                    ),
                    ..old(self)@
                })
            },
    {
        if !self.read_all && self.buf.len() < self.block_size {
            return ChunkerStep::NeedInput;
        }
        if self.buf.len() == 0 {
            return ChunkerStep::End;
        }
        let k = if self.buf.len() < self.block_size {
            self.buf.len()
        } else {
            self.block_size
        };
        let mut block = self.buf.split_off(k);
        core::mem::swap(&mut self.buf, &mut block);
        ChunkerStep::Block(block)
    }

    /// The blocks of `block_size` bytes of a stream that yields `inputs` and
    /// then ends.
    pub fn chunk_all(inputs: &Vec<Vec<u8>>, block_size: usize) -> (blocks: Vec<Vec<u8>>)
        requires
            block_size > 0,
        ensures
            byte_views(blocks@) == blocks_of(
                Seq::empty(),
                byte_views(inputs@),
                block_size as nat,
            ),
    {
        let ghost all = byte_views(inputs@);
        let ghost target = blocks_of(Seq::empty(), all, block_size as nat);
        let mut chunker = StreamChunker::new(block_size);
        let mut blocks: Vec<Vec<u8>> = Vec::new();
        let mut taken: usize = 0;
        assert(all.subrange(0, all.len() as int) =~= all);
        loop
            invariant
                block_size > 0,
                all == byte_views(inputs@),
                taken <= inputs@.len(),
                chunker@.block_size == block_size,
                chunker@.read_all ==> taken == inputs@.len() && chunker@.buf.len() < block_size,
                target == byte_views(blocks@) + blocks_of(
                    chunker@.buf,
                    all.subrange(taken as int, all.len() as int),
                    block_size as nat,
                ),
            ensures
                byte_views(blocks@) == target,
            decreases
                    inputs@.len() - taken + (if chunker@.read_all {
                        0int
                    } else {
                        1int
                    }),
                    chunker@.buf.len(),
        {
            let ghost before = chunker@;
            let ghost rest = all.subrange(taken as int, all.len() as int);
            match chunker.next() {
                ChunkerStep::NeedInput => {
                    if taken < inputs.len() {
                        chunker.push(inputs[taken].as_slice());
                        taken = taken + 1;
                        proof {
                            assert(rest.drop_first() =~= all.subrange(
                                taken as int,
                                all.len() as int,
                            ));
                        }
                    } else {
                        chunker.finish();
                    }
                },
                ChunkerStep::Block(b) => {
                    proof {
                        if before.buf.len() < block_size {
                            assert(before.buf.subrange(0, next_len(before)) =~= before.buf);
                        }
                    }
                    blocks.push(b);
                },
                ChunkerStep::End => {
                    break ;
                },
            }
        }
        blocks
    }
}

} // verus!
