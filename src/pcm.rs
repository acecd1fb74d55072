use vstd::prelude::*;
use crate::format::StreamFormat;

verus! {

/// The signed value of the little-endian 16-bit sample `lo`, `hi`.
pub open spec fn le_i16(lo: u8, hi: u8) -> int {
    let u = lo as int + 256 * hi as int;
    if u >= 32768 { u - 65536 } else { u }
}

/// The numerator of the sample that starts at byte `at`: over 32768 for
/// 16-bit samples, over 128 for 8-bit ones (which are offset by 127).
pub open spec fn sample_at(bytes: Seq<u8>, is_16_bit: bool, at: int) -> int {
    if is_16_bit { le_i16(bytes[at], bytes[at + 1]) } else { bytes[at] as int - 127 }
}

/// The scale that a sample numerator is divided by.
pub open spec fn denominator_of(is_16_bit: bool) -> int {
    if is_16_bit { 32768 } else { 128 }
}

/// Whole frames in a block; a trailing partial frame is dropped.
pub open spec fn frame_count(f: StreamFormat, bytes: Seq<u8>) -> nat {
    bytes.len() / f.frame_size_spec()
}

/// The sample numerators of channel `ch`, in frame order.
pub open spec fn channel_samples(f: StreamFormat, bytes: Seq<u8>, ch: int) -> Seq<int> {
    Seq::new(
        frame_count(f, bytes),
        |i: int| sample_at(bytes, f.is_16_bit, i * f.frame_size_spec() + ch * f.sample_bytes_spec()),
    )
}

/// Decoded PCM: one sequence of numerators per channel, each to be divided by
/// `denominator` to give a value in [-1, 1].
pub struct PcmBuffer {
    pub channels: Vec<Vec<i32>>,
    pub denominator: u32,
    pub frames: usize,
    pub sample_rate: u32,
}

impl PcmBuffer {
    /// The buffer holds exactly the decoded samples of `bytes` in format `f`.
    pub open spec fn decodes(self, f: StreamFormat, bytes: Seq<u8>) -> bool {
        &&& self.channels@.len() == f.channels_spec()
        &&& self.frames == frame_count(f, bytes)
        &&& self.denominator == denominator_of(f.is_16_bit)
        &&& self.sample_rate == f.sample_rate
        &&& forall|c: int|
            0 <= c < self.channels@.len() ==> self.channels@[c]@.map_values(|v: i32| v as int)
                =~= channel_samples(f, bytes, c)
    }
}

/// In a 16-bit stereo block each channel has one sample per four bytes; the
/// left sample of frame `i` is the little-endian signed value at byte `4 i`,
/// the right one that at byte `4 i + 2`, both over 32768.
pub proof fn lemma_stereo_16_layout(f: StreamFormat, bytes: Seq<u8>, i: int)
    requires
        f.is_stereo,
        f.is_16_bit,
        0 <= i < bytes.len() / 4,
    ensures
        channel_samples(f, bytes, 0).len() == bytes.len() / 4,
        channel_samples(f, bytes, 1).len() == bytes.len() / 4,
        channel_samples(f, bytes, 0)[i] == le_i16(bytes[4 * i], bytes[4 * i + 1]),
        channel_samples(f, bytes, 1)[i] == le_i16(bytes[4 * i + 2], bytes[4 * i + 3]),
        denominator_of(f.is_16_bit) == 32768,
{
}

/// A block with a trailing partial frame decodes as the block cut back to its
/// last whole frame: `len / frame_size` frames, read from the first
/// `(len / frame_size) * frame_size` bytes only.
pub proof fn lemma_truncation(f: StreamFormat, bytes: Seq<u8>, ch: int)
    requires
        0 <= ch < f.channels_spec(),
    ensures
        frame_count(f, bytes) == bytes.len() / f.frame_size_spec(),
        channel_samples(f, bytes, ch) =~= channel_samples(
            f,
            bytes.take((frame_count(f, bytes) * f.frame_size_spec()) as int),
            ch,
        ),
{
    let fs = f.frame_size_spec() as int;
    let sb = f.sample_bytes_spec() as int;
    let n = frame_count(f, bytes) as int;
    let cut = bytes.take(n * fs);
    assert(n * fs <= bytes.len()) by (nonlinear_arith)
        requires n == bytes.len() as int / fs, fs > 0;
    assert((n * fs) / fs == n) by (nonlinear_arith)
        requires fs > 0, n >= 0;
    assert(frame_count(f, cut) == n);
    assert forall|i: int| 0 <= i < n implies channel_samples(f, bytes, ch)[i] == channel_samples(
        f,
        cut,
        ch,
    )[i] by {
        assert(i * fs + fs <= n * fs) by (nonlinear_arith)
            requires i < n, fs > 0;
        assert(ch * sb + sb <= fs) by (nonlinear_arith)
            requires 0 <= ch < f.channels_spec(), fs == f.channels_spec() * sb, sb >= 0;
    }
}

fn read_sample(bytes: &[u8], is_16_bit: bool, at: usize) -> (r: i32)
    requires
        at + (if is_16_bit { 2int } else { 1int }) <= bytes@.len(),
    ensures
        r as int == sample_at(bytes@, is_16_bit, at as int),
{
    if is_16_bit {
        let u: i32 = bytes[at] as i32 + 256 * (bytes[at + 1] as i32);
        if u >= 32768 { u - 65536 } else { u }
    } else {
        bytes[at] as i32 - 127
    }
}

fn decode_channel(f: &StreamFormat, bytes: &[u8], ch: usize) -> (r: Vec<i32>)
    requires
        ch < f.channels_spec(),
    ensures
        r@.map_values(|v: i32| v as int) =~= channel_samples(*f, bytes@, ch as int),
{
    let fs = f.frame_size();
    let sb = f.sample_bytes();
    let len = bytes.len();
    let n = len / fs;
    let mut out: Vec<i32> = Vec::with_capacity(n);
    let mut i: usize = 0;
    while i < n
        invariant
            fs == f.frame_size_spec(),
            sb == f.sample_bytes_spec(),
            n == frame_count(*f, bytes@),
            len == bytes@.len(),
            ch < f.channels_spec(),
            i <= n,
            out@.len() == i,
            forall|j: int| 0 <= j < i ==> out@[j] as int == channel_samples(*f, bytes@, ch as int)[j],
        decreases n - i,
    {
        proof {
            assert(i * fs + fs <= n * fs) by (nonlinear_arith)
                requires i < n;
            assert(n * fs <= bytes@.len()) by (nonlinear_arith)
                requires n as int == bytes@.len() as int / (fs as int), fs > 0;
            assert(ch * sb + sb <= fs) by (nonlinear_arith)
                requires ch < f.channels_spec(), fs == f.channels_spec() * sb;
            assert(i * fs + ch * sb + sb <= bytes@.len());
        }
        let at = i * fs + ch * sb;
        let v = read_sample(bytes, f.is_16_bit, at);
        out.push(v);
        i = i + 1;
    }
    out
}

/// Decodes a block of PCM bytes: stereo frames are split into a left and a
/// right channel, and bytes after the last whole frame are ignored.
pub fn decode_pcm(f: &StreamFormat, bytes: &[u8]) -> (r: PcmBuffer)
    ensures
        r.decodes(*f, bytes@),
{
    let mut channels: Vec<Vec<i32>> = Vec::new();
    let nc = f.channels();
    let mut c: usize = 0;
    while c < nc
        invariant
            nc == f.channels_spec(),
            c <= nc,
            channels@.len() == c,
            forall|k: int| 0 <= k < c ==> channels@[k]@.map_values(|v: i32| v as int)
                =~= channel_samples(*f, bytes@, k),
        decreases nc - c,
    {
        let samples = decode_channel(f, bytes, c);
        channels.push(samples);
        c = c + 1;
    }
    PcmBuffer {
        channels,
        denominator: if f.is_16_bit { 32768 } else { 128 },
        frames: bytes.len() / f.frame_size(),
        sample_rate: f.sample_rate,
    }
}

} // verus!
