use vstd::prelude::*;

verus! {

/// How the sample bytes of a stream are encoded.
#[derive(Clone, Copy, Debug, PartialEq, Eq, Structural)]
pub enum Compression {
    /// Little-endian PCM.
    Uncompressed,
    /// PCM whose byte order the container does not state; read as little-endian.
    UncompressedUnknownEndian,
    /// Frame-based compressed audio, decoded by the output device.
    Mp3,
    /// Any other codec; blocks of such a stream are ignored.
    Other,
}

/// The immutable description of a stream, supplied when it is registered.
#[derive(Clone, Copy, Debug, PartialEq, Eq, Structural)]
pub struct StreamFormat {
    pub is_stereo: bool,
    pub is_16_bit: bool,
    pub sample_rate: u32,
    pub compression: Compression,
    pub samples_per_block: u32,
}

impl Compression {
    pub open spec fn is_pcm_spec(self) -> bool {
        self is Uncompressed || self is UncompressedUnknownEndian
    }

    /// Whether blocks of this kind are raw PCM samples.
    pub fn is_pcm(&self) -> (r: bool)
        ensures
            r == self.is_pcm_spec(),
    {
        match self {
            Compression::Uncompressed => true,
            Compression::UncompressedUnknownEndian => true,
            _ => false,
        }
    }
}

impl StreamFormat {
    pub open spec fn channels_spec(self) -> nat {
        if self.is_stereo { 2 } else { 1 }
    }

    pub open spec fn sample_bytes_spec(self) -> nat {
        if self.is_16_bit { 2 } else { 1 }
    }

    /// Bytes of one frame: one sample for each channel.
    pub open spec fn frame_size_spec(self) -> nat {
        self.channels_spec() * self.sample_bytes_spec()
    }

    /// Number of channels, 1 or 2.
    pub fn channels(&self) -> (r: usize)
        ensures
            r == self.channels_spec(),
    {
        if self.is_stereo { 2 } else { 1 }
    }

    /// Bytes of one sample of one channel, 1 or 2.
    pub fn sample_bytes(&self) -> (r: usize)
        ensures
            r == self.sample_bytes_spec(),
    {
        if self.is_16_bit { 2 } else { 1 }
    }

    /// Bytes of one frame, from 1 to 4.
    pub fn frame_size(&self) -> (r: usize)
        ensures
            r == self.frame_size_spec(),
            1 <= r <= 4,
    {
        self.channels() * self.sample_bytes()
    }
}

} // verus!
