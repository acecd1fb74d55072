use web_audio::{
    decode_pcm, Action, AudioStream, Compression, PcmBuffer, StreamFormat, StreamHandle,
    StreamRegistry, HEADER_BYTES, MIN_DECODE_BYTES, TICKS_PER_FRAME,
};

fn pcm(is_stereo: bool, is_16_bit: bool, sample_rate: u32) -> StreamFormat {
    StreamFormat {
        is_stereo,
        is_16_bit,
        sample_rate,
        compression: Compression::Uncompressed,
        samples_per_block: 0,
    }
}

fn mp3(sample_rate: u32) -> StreamFormat {
    StreamFormat {
        is_stereo: true,
        is_16_bit: true,
        sample_rate,
        compression: Compression::Mp3,
        samples_per_block: 1152,
    }
}

fn as_f32(buffer: &PcmBuffer, ch: usize) -> Vec<f32> {
    buffer.channels[ch]
        .iter()
        .map(|&v| v as f32 / buffer.denominator as f32)
        .collect()
}

fn mp3_block(frames: u16, payload: usize) -> Vec<u8> {
    let mut b = vec![(frames & 0xff) as u8, (frames >> 8) as u8, 0, 0];
    b.extend(std::iter::repeat(7u8).take(payload));
    b
}

fn start_of(a: &Action) -> Option<u64> {
    match a {
        Action::Idle => None,
        Action::Play { start, .. } => Some(*start),
        Action::Decode { start, .. } => Some(*start),
    }
}

#[test]
fn pcm_8_bit_mono_values() {
    let b = decode_pcm(&pcm(false, false, 11025), &[127, 128, 0, 255]);
    assert_eq!(b.channels.len(), 1);
    assert_eq!(b.channels[0], vec![0, 1, -127, 128]);
    assert_eq!(b.denominator, 128);
    assert_eq!(b.frames, 4);
    let v = as_f32(&b, 0);
    let want = [0.0f32, 1.0 / 128.0, -127.0 / 128.0, 1.0];
    for (x, y) in v.iter().zip(want.iter()) {
        assert!((x - y).abs() < 1e-6);
    }
}

#[test]
fn pcm_16_bit_stereo_deinterleave() {
    // left: 1, -1, 32767; right: -32768, 256, 0
    let bytes = [1, 0, 0, 128, 255, 255, 0, 1, 255, 127, 0, 0];
    let b = decode_pcm(&pcm(true, true, 44100), &bytes);
    assert_eq!(b.channels.len(), 2);
    assert_eq!(b.frames, 3);
    assert_eq!(b.channels[0], vec![1, -1, 32767]);
    assert_eq!(b.channels[1], vec![-32768, 256, 0]);
    assert_eq!(b.denominator, 32768);
    assert_eq!(as_f32(&b, 1)[0], -1.0);
    assert_eq!(as_f32(&b, 0)[2], 32767.0 / 32768.0);
}

#[test]
fn pcm_8_bit_stereo_deinterleave() {
    let b = decode_pcm(&pcm(true, false, 22050), &[0, 255, 127, 200]);
    assert_eq!(b.channels[0], vec![-127, 0]);
    assert_eq!(b.channels[1], vec![128, 73]);
}

#[test]
fn pcm_16_bit_mono_values() {
    let b = decode_pcm(&pcm(false, true, 22050), &[0, 64, 0, 192]);
    assert_eq!(b.channels, vec![vec![16384, -16384]]);
}

#[test]
fn partial_frame_is_dropped() {
    // 16-bit stereo, 4 bytes per frame; 11 bytes hold two whole frames
    let bytes = [1, 0, 2, 0, 3, 0, 4, 0, 9, 9, 9];
    let b = decode_pcm(&pcm(true, true, 44100), &bytes);
    assert_eq!(b.frames, 2);
    assert_eq!(b.channels[0], vec![1, 3]);
    assert_eq!(b.channels[1], vec![2, 4]);
    let empty = decode_pcm(&pcm(true, true, 44100), &[5, 5, 5]);
    assert_eq!(empty.frames, 0);
    assert!(empty.channels[0].is_empty() && empty.channels[1].is_empty());
}

#[test]
fn pcm_blocks_play_back_to_back() {
    let mut reg = StreamRegistry::new();
    let h = reg.register_stream(pcm(false, false, 100));
    // clock 0 has not passed time 0: the first block plays at 0
    let a1 = reg.queue_stream_samples(h, 0, &[127; 10]);
    assert_eq!(start_of(&a1), Some(0));
    let a2 = reg.queue_stream_samples(h, 50, &[127; 4]);
    assert_eq!(start_of(&a2), Some(10 * TICKS_PER_FRAME));
    let a3 = reg.queue_stream_samples(h, 100, &[127; 1]);
    assert_eq!(start_of(&a3), Some(14 * TICKS_PER_FRAME));
}

#[test]
fn late_stream_is_resynchronized() {
    let mut reg = StreamRegistry::new();
    let h = reg.register_stream(pcm(true, true, 44100));
    let a1 = reg.queue_stream_samples(h, 1_000_000, &[0; 8]);
    // 44100 ticks at 20 ticks per frame is 0.05 s
    assert_eq!(start_of(&a1), Some(1_000_000 + 44100));
    let a2 = reg.queue_stream_samples(h, 1_000_001, &[0; 8]);
    assert_eq!(start_of(&a2), Some(1_044_100 + 2 * TICKS_PER_FRAME));
}

#[test]
fn compressed_below_threshold_is_gathered() {
    let mut s = AudioStream::new(mp3(44100));
    let a = s.queue(0, &mp3_block(2, 2300));
    assert!(matches!(a, Action::Idle));
    assert_eq!(s.pending.len(), 2300);
    assert_eq!(s.pending_frames, 2);
    assert_eq!(s.time, 0);
}

#[test]
fn compressed_threshold_flushes_once() {
    let mut s = AudioStream::new(mp3(44100));
    assert!(matches!(s.queue(0, &mp3_block(2, 2300)), Action::Idle));
    let a = s.queue(0, &mp3_block(1, 4));
    match a {
        Action::Decode { chunk, start, frames } => {
            assert_eq!(chunk.len(), MIN_DECODE_BYTES);
            assert_eq!(start, 0);
            assert_eq!(frames, 3);
        }
        _ => panic!("expected a chunk to decode"),
    }
    assert!(s.pending.is_empty());
    assert_eq!(s.pending_frames, 0);
    assert_eq!(s.time, 3 * TICKS_PER_FRAME);
    assert!(matches!(s.queue(0, &mp3_block(1, 10)), Action::Idle));
}

#[test]
fn compressed_single_block_at_threshold() {
    let mut s = AudioStream::new(mp3(22050));
    let a = s.queue(0, &mp3_block(4, 2304));
    assert!(matches!(a, Action::Decode { frames: 4, .. }));
    assert!(s.pending.is_empty());
}

#[test]
fn compressed_chunk_keeps_payload_order() {
    let mut s = AudioStream::new(mp3(22050));
    let mut b1 = vec![1, 0, 0, 0];
    b1.extend((0..2000u32).map(|i| (i % 251) as u8));
    let mut b2 = vec![1, 0, 9, 0];
    b2.extend((0..400u32).map(|i| (i % 13) as u8));
    s.queue(0, &b1);
    match s.queue(0, &b2) {
        Action::Decode { chunk, .. } => {
            let mut want = b1[HEADER_BYTES..].to_vec();
            want.extend_from_slice(&b2[HEADER_BYTES..]);
            assert_eq!(chunk, want);
        }
        _ => panic!("expected a chunk to decode"),
    }
}

#[test]
fn zero_frame_block_changes_nothing() {
    let mut s = AudioStream::new(mp3(44100));
    s.queue(0, &mp3_block(1, 100));
    let a = s.queue(0, &mp3_block(0, 3000));
    assert!(matches!(a, Action::Idle));
    assert_eq!(s.pending.len(), 100);
    assert_eq!(s.pending_frames, 1);
}

#[test]
fn short_compressed_block_is_ignored() {
    let mut s = AudioStream::new(mp3(44100));
    assert!(matches!(s.queue(0, &[5, 0, 0]), Action::Idle));
    assert!(s.pending.is_empty());
    assert_eq!(s.pending_frames, 0);
}

#[test]
fn other_codec_is_ignored() {
    let mut f = mp3(44100);
    f.compression = Compression::Other;
    let mut s = AudioStream::new(f);
    assert!(matches!(s.queue(10, &mp3_block(3, 3000)), Action::Idle));
    assert!(s.pending.is_empty());
    assert_eq!(s.time, 10 + 44100);
}

#[test]
fn unknown_handle_is_a_no_op() {
    let mut reg = StreamRegistry::new();
    let h = reg.register_stream(pcm(false, false, 100));
    let stale = StreamHandle { slot: h.slot, generation: h.generation + 1 };
    assert!(matches!(reg.queue_stream_samples(stale, 0, &[1, 2, 3]), Action::Idle));
    let missing = StreamHandle { slot: h.slot + 5, generation: h.generation };
    assert!(matches!(reg.queue_stream_samples(missing, 0, &[1, 2, 3]), Action::Idle));
    assert!(matches!(reg.queue_stream_samples(h, 0, &[1]), Action::Play { .. }));
}

#[test]
fn handles_are_distinct_and_streams_separate() {
    let mut reg = StreamRegistry::new();
    let a = reg.register_stream(pcm(false, false, 100));
    let b = reg.register_stream(pcm(false, false, 100));
    assert_ne!(a, b);
    reg.queue_stream_samples(a, 0, &[0; 30]);
    let rb = reg.queue_stream_samples(b, 0, &[0; 1]);
    assert_eq!(start_of(&rb), Some(0));
    let ra = reg.queue_stream_samples(a, 0, &[0; 1]);
    assert_eq!(start_of(&ra), Some(30 * TICKS_PER_FRAME));
}

#[test]
fn format_of_live_and_unknown_handles() {
    let mut reg = StreamRegistry::new();
    let f = mp3(11025);
    let h = reg.register_stream(f);
    assert_eq!(reg.format_of(h), Some(f));
    let stale = StreamHandle { slot: h.slot, generation: h.generation + 1 };
    assert_eq!(reg.format_of(stale), None);
}
