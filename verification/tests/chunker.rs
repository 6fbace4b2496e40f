use s3_ingest::chunker::{ChunkerStep, StreamChunker};

fn concat(parts: &Vec<Vec<u8>>) -> Vec<u8> {
    let mut all = Vec::new();
    for p in parts {
        all.extend_from_slice(p);
    }
    all
}

fn bytes(n: usize) -> Vec<u8> {
    (0..n).map(|i| (i * 31 % 251) as u8).collect()
}

#[test]
fn blocks_round_trip() {
    let inputs = vec![bytes(10), vec![], bytes(3), bytes(25), bytes(1)];
    for block_size in [1usize, 2, 3, 7, 10, 38, 39, 40, 100] {
        let blocks = StreamChunker::chunk_all(&inputs, block_size);
        assert_eq!(concat(&blocks), concat(&inputs));
        for (i, b) in blocks.iter().enumerate() {
            assert!(!b.is_empty());
            if i + 1 < blocks.len() {
                assert_eq!(b.len(), block_size);
            } else {
                assert!(b.len() <= block_size);
            }
        }
    }
}

#[test]
fn blocks_exact_sizes() {
    let inputs = vec![vec![1u8, 2, 3], vec![4u8, 5, 6, 7]];
    let blocks = StreamChunker::chunk_all(&inputs, 3);
    assert_eq!(blocks, vec![vec![1u8, 2, 3], vec![4u8, 5, 6], vec![7u8]]);
    let blocks = StreamChunker::chunk_all(&inputs, 7);
    assert_eq!(blocks, vec![vec![1u8, 2, 3, 4, 5, 6, 7]]);
    let blocks = StreamChunker::chunk_all(&inputs, 8);
    assert_eq!(blocks, vec![vec![1u8, 2, 3, 4, 5, 6, 7]]);
}

#[test]
fn empty_stream_has_no_block() {
    let blocks = StreamChunker::chunk_all(&vec![], 4);
    assert!(blocks.is_empty());
    let blocks = StreamChunker::chunk_all(&vec![vec![], vec![]], 4);
    assert!(blocks.is_empty());
    let mut chunker = StreamChunker::new(4);
    assert_eq!(chunker.next(), ChunkerStep::NeedInput);
    chunker.finish();
    assert_eq!(chunker.next(), ChunkerStep::End);
    assert_eq!(chunker.next(), ChunkerStep::End);
}

#[test]
fn chunker_waits_for_a_full_block() {
    let mut chunker = StreamChunker::new(4);
    assert_eq!(chunker.next(), ChunkerStep::NeedInput);
    chunker.push(&[1, 2, 3]);
    assert_eq!(chunker.next(), ChunkerStep::NeedInput);
    chunker.push(&[4, 5, 6, 7, 8, 9]);
    assert_eq!(chunker.next(), ChunkerStep::Block(vec![1, 2, 3, 4]));
    assert_eq!(chunker.next(), ChunkerStep::Block(vec![5, 6, 7, 8]));
    assert_eq!(chunker.next(), ChunkerStep::NeedInput);
    chunker.finish();
    assert_eq!(chunker.next(), ChunkerStep::Block(vec![9]));
    assert_eq!(chunker.next(), ChunkerStep::End);
}

#[test]
fn chunker_of_size_zero_hands_out_nothing() {
    let mut chunker = StreamChunker::new(0);
    assert_eq!(chunker.next(), ChunkerStep::End);
}
