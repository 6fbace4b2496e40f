//! The parts that a request lists, held against the parts that have blocks.
use crate::parts_list::{parts_view, CompleteMultipartUploadPart, PartView};
use crate::version::{VersionBlock, VersionBlockKey};
use std::collections::BTreeSet;
use vstd::prelude::*;

verus! {

broadcast use {
    vstd::std_specs::btree::group_btree_axioms,
    vstd::laws_cmp::group_laws_cmp,
    vstd::set::group_set_axioms,
};

/// Whether a part is listed.
pub open spec fn part_listed(parts: Seq<PartView>, part_number: u64) -> bool {
    exists|i: int| 0 <= i < parts.len() && (#[trigger] parts[i]).part_number == part_number
}

/// Whether a part has a block.
pub open spec fn part_has_block(
    blocks: Seq<(VersionBlockKey, VersionBlock)>,
    part_number: u64,
) -> bool {
    exists|j: int| 0 <= j < blocks.len() && (#[trigger] blocks[j]).0.part_number == part_number
}

/// Whether the parts that are listed are the parts that have blocks.
pub open spec fn same_part_numbers(
    parts: Seq<PartView>,
    blocks: Seq<(VersionBlockKey, VersionBlock)>,
) -> bool {
    forall|p: u64| #[trigger] part_listed(parts, p) <==> part_has_block(blocks, p)
}

/// Whether no part number is listed twice.
pub open spec fn numbers_distinct(parts: Seq<PartView>) -> bool {
    forall|i: int, j: int|
        0 <= i < j < parts.len() ==> (#[trigger] parts[i]).part_number != (
        #[trigger] parts[j]).part_number
}

/// The part numbers of a list, in its order.
pub open spec fn numbers_of(parts: Seq<PartView>) -> Seq<u64> {
    parts.map_values(|p: PartView| p.part_number)
}

/// The numbers of the parts that have blocks.
pub fn block_part_numbers(blocks: &Vec<(VersionBlockKey, VersionBlock)>) -> (set: BTreeSet<u64>)
    ensures
        set@.finite(),
        forall|p: u64| set@.contains(p) <==> part_has_block(blocks@, p),
{
    let mut set: BTreeSet<u64> = BTreeSet::new();
    let mut i: usize = 0;
    while i < blocks.len()
        invariant
            i <= blocks@.len(),
            set@.finite(),
            forall|p: u64|
                set@.contains(p) <==> exists|j: int|
                    0 <= j < i && (#[trigger] blocks@[j]).0.part_number == p,
        decreases blocks@.len() - i,
    {
        let ghost before = set@;
        set.insert(blocks[i].0.part_number);
        proof {
            assert(set@ == before.insert(blocks@[i as int].0.part_number));
            assert forall|p: u64| set@.contains(p) <==> exists|j: int|
                0 <= j < i + 1 && (#[trigger] blocks@[j]).0.part_number == p by {
                if before.contains(p) {
                    let j = choose|j: int| 0 <= j < i && (#[trigger] blocks@[j]).0.part_number == p;
                    assert(blocks@[j].0.part_number == p);
                }
            }
        }
        i = i + 1;
    }
    set
}

/// Whether the parts that are listed, none of them twice, are the parts
/// that have blocks.
pub fn check_block_parts(
    parts: &Vec<CompleteMultipartUploadPart>,
    blocks: &Vec<(VersionBlockKey, VersionBlock)>,
) -> (r: bool)
    requires
        numbers_distinct(parts_view(parts@)),
    ensures
        r == same_part_numbers(parts_view(parts@), blocks@),
{
    let ghost s = parts_view(parts@);
    let ghost numbers = numbers_of(s);
    let set = block_part_numbers(blocks);
    proof {
        assert(numbers.no_duplicates()) by {
            assert forall|i: int, j: int|
                0 <= i < numbers.len() && 0 <= j < numbers.len() && i != j implies numbers[i]
                != numbers[j] by {
                if i < j {
                    assert(s[i].part_number != s[j].part_number);
                } else {
                    assert(s[j].part_number != s[i].part_number);
                }
            }
        }
        numbers.unique_seq_to_set();
        assert forall|p: u64| numbers.to_set().contains(p) <==> part_listed(s, p) by {
            if numbers.to_set().contains(p) {
                let i = choose|i: int| 0 <= i < numbers.len() && numbers[i] == p;
                assert(s[i].part_number == p);
            }
            if part_listed(s, p) {
                let i = choose|i: int| 0 <= i < s.len() && (#[trigger] s[i]).part_number == p;
                assert(numbers[i] == p);
            }
        }
    }
    if set.len() != parts.len() {
        proof {
            if same_part_numbers(s, blocks@) {
                assert forall|p: u64| numbers.to_set().contains(p) <==> set@.contains(p) by {
                    assert(part_listed(s, p) <==> part_has_block(blocks@, p));
                }
                assert(numbers.to_set() =~= set@);
            }
        }
        return false;
    }
    let mut i: usize = 0;
    while i < parts.len()
        invariant
            i <= parts@.len(),
            s == parts_view(parts@),
            forall|p: u64| set@.contains(p) <==> part_has_block(blocks@, p),
            forall|j: int| 0 <= j < i ==> set@.contains((#[trigger] s[j]).part_number),
        decreases parts@.len() - i,
    {
        if !set.contains(&parts[i].part_number) {
            proof {
                assert(part_listed(s, s[i as int].part_number));
            }
            return false;
        }
        i = i + 1;
    }
    proof {
        assert(numbers.to_set().subset_of(set@)) by {
            assert forall|p: u64| numbers.to_set().contains(p) implies set@.contains(p) by {
                let j = choose|j: int| 0 <= j < s.len() && (#[trigger] s[j]).part_number == p;
            }
        }
        vstd::set_lib::lemma_subset_equality(numbers.to_set(), set@);
    }
    true
}

} // verus!
