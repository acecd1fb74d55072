pub mod format;
pub mod pcm;
pub mod registry;
pub mod stream;

pub use format::{Compression, StreamFormat};
pub use pcm::{decode_pcm, PcmBuffer};
pub use registry::{StreamHandle, StreamRegistry};
pub use stream::{Action, AudioStream, HEADER_BYTES, MIN_DECODE_BYTES, TICKS_PER_FRAME};
