use stackchan::chunks::ChunkAssembler;

#[test]
fn less_than_a_chunk_waits() {
    let mut assembler = ChunkAssembler::new(4);
    assert!(assembler.push(&[1, 2, 3]).is_empty());
    assert_eq!(assembler.push(&[4]), vec![vec![1, 2, 3, 4]]);
}

#[test]
fn nothing_completes_nothing() {
    let mut assembler = ChunkAssembler::new(4);
    assert!(assembler.push(&[]).is_empty());
}

#[test]
fn one_piece_completes_several_chunks() {
    let mut assembler = ChunkAssembler::new(2);
    assert_eq!(assembler.push(&[1, 2, 3, 4, 5]), vec![vec![1, 2], vec![3, 4]]);
    assert_eq!(assembler.push(&[6, 7]), vec![vec![5, 6]]);
    assert_eq!(assembler.push(&[8]), vec![vec![7, 8]]);
}

#[test]
fn chunks_of_one_sample() {
    let mut assembler = ChunkAssembler::new(1);
    assert_eq!(assembler.push(&[-1, 0, 1]), vec![vec![-1], vec![0], vec![1]]);
}

#[test]
fn three_filtered_frames_make_a_segment() {
    let mut assembler = ChunkAssembler::new(1440);
    let samples: Vec<i16> = (0..1440).collect();
    assert!(assembler.push(&samples[..480]).is_empty());
    assert!(assembler.push(&samples[480..960]).is_empty());
    assert_eq!(assembler.push(&samples[960..]), vec![samples]);
}

#[test]
fn pieces_make_no_difference() {
    let samples: Vec<i16> = (0..1000).map(|i| (i * 7 % 301) as i16).collect();
    let mut whole = ChunkAssembler::new(48);
    let expected = whole.push(&samples);
    for length in [1usize, 5, 47, 48, 49, 500] {
        let mut assembler = ChunkAssembler::new(48);
        let mut chunks = Vec::new();
        for piece in samples.chunks(length) {
            chunks.extend(assembler.push(piece));
        }
        assert_eq!(chunks, expected);
    }
}

#[test]
fn nothing_is_lost() {
    let samples: Vec<i16> = (0..101).collect();
    let mut assembler = ChunkAssembler::new(10);
    let chunks = assembler.push(&samples);
    assert_eq!(chunks.concat(), samples[..100].to_vec());
    assert_eq!(assembler.push(&[0; 9])[0][0], 100);
}
