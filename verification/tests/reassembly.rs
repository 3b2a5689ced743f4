use muse_core::ChannelChunks;
use muse_core::DataType;
use muse_core::EegFrame;
use muse_core::PpgFrame;

fn eeg_chunk(base: u8) -> Vec<u8> {
    (0..12u8).map(|i| base + i).collect()
}

fn ppg_chunk(base: u32) -> Vec<u32> {
    (0..6u32).map(|i| base + i).collect()
}

#[test]
fn eeg_full_cycle_emits_twelve_frames_in_order() {
    let mut chunks = ChannelChunks::new();
    for channel in 0..4usize {
        let frames = chunks.write_eeg(channel, &eeg_chunk((channel as u8 + 1) * 20));
        assert!(frames.is_empty());
    }
    let frames = chunks.write_eeg(4, &eeg_chunk(100));
    assert_eq!(frames.len(), 12);
    for (i, frame) in frames.iter().enumerate() {
        let i = i as u8;
        assert_eq!(
            *frame,
            DataType::Eeg(EegFrame {
                tp9: 20 + i,
                af7: 40 + i,
                af8: 60 + i,
                tp10: 80 + i,
                aux: 100 + i,
            })
        );
    }
}

#[test]
fn eeg_slate_is_zero_after_emission() {
    let mut chunks = ChannelChunks::new();
    for channel in 0..5usize {
        chunks.write_eeg(channel, &eeg_chunk(1));
    }
    // A second commit without fresh writes to channels 0..4 must read the
    // zeroed slate for them.
    let frames = chunks.write_eeg(4, &eeg_chunk(200));
    assert_eq!(frames.len(), 12);
    for (i, frame) in frames.iter().enumerate() {
        let i = i as u8;
        assert_eq!(
            *frame,
            DataType::Eeg(EegFrame {
                tp9: 0,
                af7: 0,
                af8: 0,
                tp10: 0,
                aux: 200 + i,
            })
        );
    }
}

#[test]
fn eeg_repeated_cycles_emit_identical_batches() {
    let mut chunks = ChannelChunks::new();
    let mut batches: Vec<Vec<DataType>> = Vec::new();
    for _ in 0..2 {
        let mut batch: Vec<DataType> = Vec::new();
        for channel in 0..5usize {
            batch.extend(chunks.write_eeg(channel, &eeg_chunk(channel as u8 * 10)));
        }
        batches.push(batch);
    }
    assert_eq!(batches[0].len(), 12);
    assert_eq!(batches[0], batches[1]);
}

#[test]
fn eeg_short_chunk_is_ignored() {
    let mut chunks = ChannelChunks::new();
    let short: Vec<u8> = vec![9u8; 11];
    assert!(chunks.write_eeg(0, &short).is_empty());
    for channel in 1..4usize {
        chunks.write_eeg(channel, &eeg_chunk(50));
    }
    let frames = chunks.write_eeg(4, &eeg_chunk(50));
    // Channel 0 kept its zeroed buffer: the short write did not stick.
    for frame in &frames {
        match frame {
            DataType::Eeg(f) => assert_eq!(f.tp9, 0),
            DataType::Ppg(_) => panic!("unexpected PPG frame"),
        }
    }
}

#[test]
fn eeg_extra_samples_beyond_chunk_length_are_dropped() {
    let mut chunks = ChannelChunks::new();
    let mut long: Vec<u8> = (1..=12u8).collect();
    long.extend_from_slice(&[0xde, 0xad]);
    for channel in 0..5usize {
        chunks.write_eeg(channel, &long);
    }
    let frames = chunks.write_eeg(4, &long);
    assert_eq!(frames.len(), 12);
}

#[test]
fn ppg_full_cycle_emits_six_frames_in_order() {
    let mut chunks = ChannelChunks::new();
    assert!(chunks.write_ppg(0, &ppg_chunk(1000)).is_empty());
    assert!(chunks.write_ppg(1, &ppg_chunk(2000)).is_empty());
    let frames = chunks.write_ppg(2, &ppg_chunk(3000));
    assert_eq!(frames.len(), 6);
    for (i, frame) in frames.iter().enumerate() {
        let i = i as u32;
        assert_eq!(
            *frame,
            DataType::Ppg(PpgFrame {
                ambient: 1000 + i,
                infrared: 2000 + i,
                red: 3000 + i,
            })
        );
    }
}

#[test]
fn ppg_slate_is_zero_after_emission() {
    let mut chunks = ChannelChunks::new();
    chunks.write_ppg(0, &ppg_chunk(7));
    chunks.write_ppg(1, &ppg_chunk(8));
    chunks.write_ppg(2, &ppg_chunk(9));
    let frames = chunks.write_ppg(2, &ppg_chunk(500));
    for (i, frame) in frames.iter().enumerate() {
        let i = i as u32;
        assert_eq!(
            *frame,
            DataType::Ppg(PpgFrame {
                ambient: 0,
                infrared: 0,
                red: 500 + i,
            })
        );
    }
}

#[test]
fn ppg_repeated_cycles_emit_identical_batches() {
    let mut chunks = ChannelChunks::new();
    let mut batches: Vec<Vec<DataType>> = Vec::new();
    for _ in 0..2 {
        let mut batch: Vec<DataType> = Vec::new();
        for channel in 0..3usize {
            batch.extend(chunks.write_ppg(channel, &ppg_chunk(channel as u32 * 100_000)));
        }
        batches.push(batch);
    }
    assert_eq!(batches[0].len(), 6);
    assert_eq!(batches[0], batches[1]);
}

#[test]
fn families_do_not_interfere() {
    let mut chunks = ChannelChunks::new();
    chunks.write_eeg(0, &eeg_chunk(10));
    chunks.write_ppg(0, &ppg_chunk(100));
    chunks.write_ppg(1, &ppg_chunk(200));
    let ppg_frames = chunks.write_ppg(2, &ppg_chunk(300));
    assert_eq!(ppg_frames.len(), 6);
    for channel in 1..4usize {
        chunks.write_eeg(channel, &eeg_chunk(10));
    }
    let eeg_frames = chunks.write_eeg(4, &eeg_chunk(10));
    assert_eq!(eeg_frames.len(), 12);
    // The EEG slate survived the PPG cycle: channel 0 still holds its chunk.
    match eeg_frames[0] {
        DataType::Eeg(f) => assert_eq!(f.tp9, 10),
        DataType::Ppg(_) => panic!("unexpected PPG frame"),
    }
}
