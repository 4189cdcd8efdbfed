use live_transcriber::sound::{
    chunk_frames, level_is_due, neighbours, pcm_bytes, split_frames, ChunkBuffer,
    LevelReports,
};

#[test]
fn a_chunk_is_a_tenth_of_a_second() {
    assert_eq!(chunk_frames(48000), 4800);
    assert_eq!(chunk_frames(44100), 4410);
    assert_eq!(chunk_frames(11025), 1102);
    assert_eq!(chunk_frames(9), 0);
    assert_eq!(chunk_frames(u32::MAX), 429496729);
}

#[test]
fn chunks_come_in_order_and_lose_nothing() {
    let mut buffer: ChunkBuffer<i32> = ChunkBuffer::new();
    buffer.extend(&[1, 2, 3, 4, 5]);
    assert_eq!(buffer.next_chunk(3), Some(vec![1, 2, 3]));
    assert_eq!(buffer.next_chunk(3), None);
    buffer.extend(&[6, 7]);
    assert_eq!(buffer.next_chunk(3), Some(vec![4, 5, 6]));
    assert_eq!(buffer.next_chunk(3), None);
    assert_eq!(buffer.next_chunk(1), Some(vec![7]));
    assert_eq!(buffer.next_chunk(1), None);
    assert_eq!(buffer.next_chunk(0), Some(vec![]));
}

#[test]
fn arrival_does_not_matter() {
    let samples: Vec<u16> = (0..100).collect();
    let mut at_once: ChunkBuffer<u16> = ChunkBuffer::new();
    at_once.extend(&samples);
    let mut expected: Vec<Vec<u16>> = Vec::new();
    while let Some(chunk) = at_once.next_chunk(7) {
        expected.push(chunk);
    }
    let mut in_parts: ChunkBuffer<u16> = ChunkBuffer::new();
    let mut chunks: Vec<Vec<u16>> = Vec::new();
    for part in samples.chunks(11) {
        in_parts.extend(part);
        while let Some(chunk) = in_parts.next_chunk(7) {
            chunks.push(chunk);
        }
    }
    assert_eq!(chunks, expected);
    assert_eq!(chunks.len(), 14);
}

#[test]
fn frames_hold_one_sample_per_channel() {
    assert_eq!(split_frames(&[1, 2, 3, 4], 2), vec![vec![1, 2], vec![3, 4]]);
    assert_eq!(split_frames(&[1, 2, 3], 2), vec![vec![1, 2], vec![3]]);
    assert_eq!(split_frames(&[1, 2], 1), vec![vec![1], vec![2]]);
    assert_eq!(split_frames::<u8>(&[], 2), Vec::<Vec<u8>>::new());
}

#[test]
fn sound_past_the_end_is_silent() {
    let samples = [0.5f32, -0.25];
    assert_eq!(neighbours(&samples, 0, 0.0), (0.5, -0.25));
    assert_eq!(neighbours(&samples, 1, 0.0), (-0.25, -0.25));
    assert_eq!(neighbours(&samples, 2, 0.0), (0.0, 0.0));
    assert_eq!(neighbours(&samples, usize::MAX, 0.0), (0.0, 0.0));
}

#[test]
fn samples_are_written_low_byte_first() {
    assert_eq!(
        pcm_bytes(&[0, 1, -1, 258, i16::MIN, i16::MAX, -32767]),
        vec![0, 0, 1, 0, 255, 255, 2, 1, 0, 128, 255, 127, 1, 128]
    );
    for sample in i16::MIN..=i16::MAX {
        assert_eq!(pcm_bytes(&[sample]), sample.to_le_bytes().to_vec());
    }
}

#[test]
fn levels_are_reported_now_and_then() {
    assert!(level_is_due(1, 66_000_000));
    assert!(!level_is_due(1, 65_999_999));
    assert!(!level_is_due(0, 1_000_000_000));
}

#[test]
fn reports_of_the_level_are_apart() {
    let millis = |n: u128| n * 1_000_000;
    let mut reports = LevelReports::new(millis(10));
    assert!(!reports.step(5, millis(75)));
    assert!(reports.step(5, millis(76)));
    assert!(!reports.step(5, millis(100)));
    // Nothing to report does not restart the wait.
    assert!(!reports.step(0, millis(150)));
    assert!(reports.step(1, millis(151)));
    assert!(!reports.step(1, millis(216)));
    assert!(reports.step(1, millis(217)));
    // A time before the last report is no wait at all.
    assert!(!reports.step(1, 0));
}
