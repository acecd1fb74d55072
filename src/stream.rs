use vstd::prelude::*;
use crate::format::{Compression, StreamFormat};
use crate::pcm::{decode_pcm, frame_count, PcmBuffer};

verus! {

/// A stream's clock counts ticks of 1/(20 * sample_rate) seconds, so that one
/// frame lasts exactly this many ticks.
pub const TICKS_PER_FRAME: u64 = 20;

/// Bytes of the header of a compressed block: the little-endian frame count,
/// then the little-endian count of frames to skip.
pub const HEADER_BYTES: usize = 4;

/// Compressed bytes that are gathered before a chunk is handed to the decoder:
/// four granules of 576 bytes.
pub const MIN_DECODE_BYTES: usize = 2304;

/// `x` clamped to the range of `u64`.
pub open spec fn sat(x: int) -> u64 {
    if x > u64::MAX as int {
        u64::MAX
    } else if x < 0 {
        0
    } else {
        x as u64
    }
}

/// The start of the next buffer: where the clock has passed the stream's time,
/// playback is re-anchored a twentieth of a second (`rate` ticks) after now.
pub open spec fn resynced(time: u64, clock: u64, rate: u32) -> u64 {
    if clock > time {
        sat(clock + rate)
    } else {
        time
    }
}

/// The time right after `frames` frames that start at `start`.
pub open spec fn advanced(start: u64, frames: int) -> u64 {
    sat(start + TICKS_PER_FRAME * frames)
}

/// The frame count that the header of a compressed block declares.
pub open spec fn header_frames(bytes: Seq<u8>) -> int {
    bytes[0] as int + 256 * bytes[1] as int
}

/// A compressed block is taken only with a whole header and at least one frame.
pub open spec fn block_accepted(bytes: Seq<u8>) -> bool {
    bytes.len() >= HEADER_BYTES && header_frames(bytes) > 0
}

/// What the output device is asked to do after a block was queued.
pub enum Action {
    /// Nothing to play yet.
    Idle,
    /// Play the decoded samples at tick `start`.
    Play { buffer: PcmBuffer, start: u64 },
    /// Decode the compressed `chunk`, which holds `frames` frames, and play the
    /// result at tick `start`.
    Decode { chunk: Vec<u8>, start: u64, frames: u64 },
}

impl Action {
    pub open spec fn plays(self, f: StreamFormat, bytes: Seq<u8>, at: u64) -> bool {
        match self {
            Action::Play { buffer, start } => buffer.decodes(f, bytes) && start == at,
            _ => false,
        }
    }

    /// The tick at which the device is asked to start playing, if any.
    pub open spec fn start_tick(self) -> Option<u64> {
        match self {
            Action::Idle => None,
            Action::Play { start, .. } => Some(start),
            Action::Decode { start, .. } => Some(start),
        }
    }

    pub open spec fn decodes_chunk(self, chunk: Seq<u8>, at: u64, n: u64) -> bool {
        match self {
            Action::Decode { chunk: c, start, frames } => c@ == chunk && start == at && frames == n,
            _ => false,
        }
    }
}

/// The playback state of one stream.
pub struct AudioStream {
    pub format: StreamFormat,
    /// Tick at which the next buffer starts.
    pub time: u64,
    /// Compressed bytes gathered for the next chunk.
    pub pending: Vec<u8>,
    /// Frames held in `pending`.
    pub pending_frames: u64,
}

/// `frames` added to what is pending, clamped to `u64`.
pub open spec fn pending_after(s: AudioStream, bytes: Seq<u8>) -> u64 {
    sat(s.pending_frames + header_frames(bytes))
}

/// The compressed bytes that are pending once `bytes` is taken.
pub open spec fn gathered(s: AudioStream, bytes: Seq<u8>) -> Seq<u8> {
    s.pending@ + bytes.subrange(HEADER_BYTES as int, bytes.len() as int)
}

fn advance(start: u64, frames: u64) -> (r: u64)
    ensures
        r == advanced(start, frames as int),
{
    let d: u64 = if frames <= u64::MAX / TICKS_PER_FRAME {
        frames * TICKS_PER_FRAME
    } else {
        u64::MAX
    };
    start.saturating_add(d)
}

fn resync(time: u64, clock: u64, rate: u32) -> (r: u64)
    ensures
        r == resynced(time, clock, rate),
{
    if clock > time {
        clock.saturating_add(rate as u64)
    } else {
        time
    }
}

/// One block taken by stream `s` with the clock at tick `clock`, which
/// leaves the stream as `n` and asks the device for `r`.
pub open spec fn queue_step(
    s: AudioStream,
    n: AudioStream,
    clock: u64,
    bytes: Seq<u8>,
    r: Action,
) -> bool {
    &&& n.format == s.format
    &&& {
        let f = s.format;
        let t = resynced(s.time, clock, f.sample_rate);
        let acc = gathered(s, bytes);
        let nf = pending_after(s, bytes);
        if f.compression.is_pcm_spec() {
            &&& r.plays(f, bytes, t)
            &&& n.time == advanced(t, frame_count(f, bytes) as int)
            &&& n.pending@ == s.pending@
            &&& n.pending_frames == s.pending_frames
        } else if f.compression is Mp3 && block_accepted(bytes) {
            if acc.len() >= MIN_DECODE_BYTES {
                &&& r.decodes_chunk(acc, t, nf)
                &&& n.time == advanced(t, nf as int)
                &&& n.pending@.len() == 0
                &&& n.pending_frames == 0
            } else {
                &&& r is Idle
                &&& n.time == t
                &&& n.pending@ == acc
                &&& n.pending_frames == nf
            }
        } else {
            &&& r is Idle
            &&& n.time == t
            &&& n.pending@ == s.pending@
            &&& n.pending_frames == s.pending_frames
        }
    }
}

/// Blocks of a PCM stream play back to back: when the clock has not passed
/// the stream's time, the second buffer starts exactly where the first ends,
/// `frames * TICKS_PER_FRAME` ticks (`frames / sample_rate` seconds) later.
pub proof fn lemma_gapless(
    s0: AudioStream,
    s1: AudioStream,
    s2: AudioStream,
    clock1: u64,
    clock2: u64,
    b1: Seq<u8>,
    b2: Seq<u8>,
    r1: Action,
    r2: Action,
)
    requires
        s0.format.compression.is_pcm_spec(),
        queue_step(s0, s1, clock1, b1, r1),
        queue_step(s1, s2, clock2, b2, r2),
        clock2 <= s1.time,
        r1.start_tick().unwrap() + TICKS_PER_FRAME * frame_count(s0.format, b1) <= u64::MAX,
    ensures
        r1.start_tick() is Some,
        r2.start_tick() is Some,
        r2.start_tick().unwrap() == r1.start_tick().unwrap() + TICKS_PER_FRAME * frame_count(
            s0.format,
            b1,
        ),
        s1.time == r2.start_tick().unwrap(),
{
}

/// A stream whose time the clock has passed is re-anchored before the block is
/// played: the buffer starts `sample_rate` ticks (a twentieth of a second)
/// after now, not in the past.
pub proof fn lemma_resync(s: AudioStream, n: AudioStream, clock: u64, bytes: Seq<u8>, r: Action)
    requires
        s.format.compression.is_pcm_spec(),
        queue_step(s, n, clock, bytes, r),
        clock > s.time,
        clock + s.format.sample_rate <= u64::MAX,
    ensures
        r.start_tick() == Some((clock + s.format.sample_rate) as u64),
        n.time >= clock,
{
}

/// Compressed bytes below the threshold are only gathered; the block that
/// brings them to the threshold or past it gives exactly one chunk to decode,
/// holding all gathered bytes, and empties both the bytes and the frame count.
pub proof fn lemma_threshold(s: AudioStream, n: AudioStream, clock: u64, bytes: Seq<u8>, r: Action)
    requires
        s.format.compression is Mp3,
        block_accepted(bytes),
        queue_step(s, n, clock, bytes, r),
    ensures
        gathered(s, bytes).len() < MIN_DECODE_BYTES ==> r is Idle && n.pending@ == gathered(
            s,
            bytes,
        ) && n.pending_frames == pending_after(s, bytes),
        gathered(s, bytes).len() >= MIN_DECODE_BYTES ==> r is Decode && r->chunk@ == gathered(
            s,
            bytes,
        ) && n.pending@.len() == 0 && n.pending_frames == 0,
{
}

/// A compressed block that declares no frame leaves what is pending as it was
/// and asks nothing of the device.
pub proof fn lemma_zero_frames(s: AudioStream, n: AudioStream, clock: u64, bytes: Seq<u8>, r: Action)
    requires
        s.format.compression is Mp3,
        bytes.len() >= HEADER_BYTES,
        header_frames(bytes) == 0,
        queue_step(s, n, clock, bytes, r),
    ensures
        r is Idle,
        n.pending@ == s.pending@,
        n.pending_frames == s.pending_frames,
{
}

impl AudioStream {
    /// Less than one chunk is ever pending.
    pub open spec fn wf(self) -> bool {
        self.pending@.len() < MIN_DECODE_BYTES
    }

    /// A fresh stream: time zero and nothing pending.
    pub fn new(format: StreamFormat) -> (r: AudioStream)
        ensures
            r.format == format,
            r.time == 0,
            r.pending@.len() == 0,
            r.pending_frames == 0,
            r.wf(),
    {
        AudioStream { format, time: 0, pending: Vec::new(), pending_frames: 0 }
    }

    /// Takes one block of the stream, with the output clock at tick `clock`.
    /// PCM is decoded and played at once; compressed bytes are gathered until a
    /// chunk is large enough to decode; blocks of other codecs are ignored.
    pub fn queue(&mut self, clock: u64, bytes: &[u8]) -> (r: Action)
        requires
            old(self).wf(),
        ensures
            final(self).wf(),
            final(self).format == old(self).format,
            queue_step(*old(self), *final(self), clock, bytes@, r),
    {
        let rate = self.format.sample_rate;
        let t = resync(self.time, clock, rate);
        self.time = t;
        if self.format.compression.is_pcm() {
            let buffer = decode_pcm(&self.format, bytes);
            let frames = buffer.frames as u64;
            self.time = advance(t, frames);
            Action::Play { buffer, start: t }
        } else if matches!(self.format.compression, Compression::Mp3) {
            if bytes.len() < HEADER_BYTES {
                return Action::Idle;
            }
            let declared: u64 = bytes[0] as u64 + 256 * (bytes[1] as u64);
            if declared == 0 {
                return Action::Idle;
            }
            let mut i: usize = HEADER_BYTES;
            while i < bytes.len()
                invariant
                    HEADER_BYTES <= i <= bytes@.len(),
                    self.pending@ == old(self).pending@ + bytes@.subrange(
                        HEADER_BYTES as int,
                        i as int,
                    ),
                    self.format == old(self).format,
                    self.time == t,
                    self.pending_frames == old(self).pending_frames,
                decreases bytes@.len() - i,
            {
                self.pending.push(bytes[i]);
                i = i + 1;
            }
            let nf = self.pending_frames.saturating_add(declared);
            if self.pending.len() >= MIN_DECODE_BYTES {
                let mut chunk: Vec<u8> = Vec::new();
                std::mem::swap(&mut chunk, &mut self.pending);
                self.pending_frames = 0;
                self.time = advance(t, nf);
                Action::Decode { chunk, start: t, frames: nf }
            } else {
                self.pending_frames = nf;
                Action::Idle
            }
        } else {
            Action::Idle
        }
    }
}

} // verus!
