use vstd::prelude::*;
use generational_arena::{Arena, Index};
use crate::format::StreamFormat;
use crate::stream::{queue_step, Action, AudioStream};

verus! {

#[verifier::external_type_specification]
#[verifier::external_body]
#[verifier::reject_recursive_types(T)]
pub struct ExArena<T>(Arena<T>);

/// Names a live stream of one registry: a slot of its arena and the
/// generation that the slot had when the stream was put there.
#[derive(Clone, Copy, Debug, PartialEq, Eq, Structural)]
pub struct StreamHandle {
    pub slot: usize,
    pub generation: u64,
}

/// The slot and generation of a handle.
pub type StreamKey = (usize, u64);

impl StreamHandle {
    pub open spec fn key(self) -> StreamKey {
        (self.slot, self.generation)
    }
}

/// The arena that holds a registry's streams.
pub type StreamArena = Arena<AudioStream>;

/// The live entries of an arena, keyed by slot and generation.
pub uninterp spec fn live_streams(a: StreamArena) -> Map<StreamKey, AudioStream>;

/// Relies on `Arena::new`: a new arena holds no entry.
#[verifier::external_body]
fn arena_new() -> (r: StreamArena)
    ensures
        forall|k: StreamKey| !live_streams(r).contains_key(k),
{
    Arena::new()
}

/// Relies on `Arena::insert` and `Index::into_raw_parts`: the value goes into a
/// slot that held no live entry, and the other entries stay as they were.
#[verifier::external_body]
fn arena_insert(a: &mut StreamArena, s: AudioStream) -> (h: StreamHandle)
    ensures
        !live_streams(*old(a)).contains_key(h.key()),
        live_streams(*final(a)) == live_streams(*old(a)).insert(h.key(), s),
{
    let (slot, generation) = a.insert(s).into_raw_parts();
    StreamHandle { slot, generation }
}

/// Relies on `Arena::contains` and `Index::from_raw_parts`: true exactly when
/// the slot holds a live entry of that generation.
#[verifier::external_body]
fn arena_contains(a: &StreamArena, h: StreamHandle) -> (r: bool)
    ensures
        r == live_streams(*a).contains_key(h.key()),
{
    a.contains(Index::from_raw_parts(h.slot, h.generation))
}

/// Relies on `Arena::get`: the format of the live entry under the handle, if
/// there is one.
#[verifier::external_body]
fn arena_format(a: &StreamArena, h: StreamHandle) -> (r: Option<StreamFormat>)
    ensures
        r == (if live_streams(*a).contains_key(h.key()) {
            Some(live_streams(*a)[h.key()].format)
        } else {
            None
        }),
{
    a.get(Index::from_raw_parts(h.slot, h.generation)).map(|s| s.format)
}

/// Relies on `Arena`'s `IndexMut`, which panics on a handle without a live
/// entry, and on `std::mem::replace`: swaps `s` in for the entry.
#[verifier::external_body]
fn arena_replace(a: &mut StreamArena, h: StreamHandle, s: AudioStream) -> (r: AudioStream)
    requires
        live_streams(*old(a)).contains_key(h.key()),
    ensures
        r == live_streams(*old(a))[h.key()],
        live_streams(*final(a)) == live_streams(*old(a)).insert(h.key(), s),
{
    std::mem::replace(&mut a[Index::from_raw_parts(h.slot, h.generation)], s)
}

/// The live streams, each under a handle that no other live stream shares.
pub struct StreamRegistry {
    streams: StreamArena,
}

impl View for StreamRegistry {
    type V = Map<StreamKey, AudioStream>;

    closed spec fn view(&self) -> Self::V {
        live_streams(self.streams)
    }
}

impl StreamRegistry {
    /// Every live stream is well formed.
    pub open spec fn wf(&self) -> bool {
        forall|k: StreamKey| self@.contains_key(k) ==> #[trigger] self@[k].wf()
    }

    /// An empty registry.
    pub fn new() -> (r: StreamRegistry)
        ensures
            r@ == Map::<StreamKey, AudioStream>::empty(),
            r.wf(),
    {
        StreamRegistry { streams: arena_new() }
    }

    /// Adds a fresh stream of format `format`, at time zero with nothing
    /// pending, under a handle that no live stream has.
    pub fn register_stream(&mut self, format: StreamFormat) -> (h: StreamHandle)
        requires
            old(self).wf(),
        ensures
            final(self).wf(),
            !old(self)@.contains_key(h.key()),
            final(self)@ == old(self)@.insert(h.key(), final(self)@[h.key()]),
            final(self)@[h.key()].format == format,
            final(self)@[h.key()].time == 0,
            final(self)@[h.key()].pending@.len() == 0,
            final(self)@[h.key()].pending_frames == 0,
    {
        let s = AudioStream::new(format);
        let h = arena_insert(&mut self.streams, s);
        proof {
            assert(self@[h.key()] == s);
            assert forall|k: StreamKey| self@.contains_key(k) implies #[trigger] self@[k].wf() by {
                if k != h.key() {
                    assert(old(self)@.contains_key(k));
                }
            }
        }
        h
    }

    /// The format of the stream under `handle`, if it is live.
    pub fn format_of(&self, handle: StreamHandle) -> (r: Option<StreamFormat>)
        ensures
            r == (if self@.contains_key(handle.key()) {
                Some(self@[handle.key()].format)
            } else {
                None
            }),
    {
        arena_format(&self.streams, handle)
    }

    /// Queues one block of the stream under `handle`, with the output clock at
    /// tick `clock`. A handle without a live stream changes nothing.
    pub fn queue_stream_samples(&mut self, handle: StreamHandle, clock: u64, bytes: &[u8]) -> (r: Action)
        requires
            old(self).wf(),
        ensures
            final(self).wf(),
            !old(self)@.contains_key(handle.key()) ==> r is Idle && final(self)@ == old(self)@,
            old(self)@.contains_key(handle.key()) ==> {
                &&& final(self)@ == old(self)@.insert(handle.key(), final(self)@[handle.key()])
                &&& queue_step(old(self)@[handle.key()], final(self)@[handle.key()], clock, bytes@, r)
            },
    {
        if !arena_contains(&self.streams, handle) {
            return Action::Idle;
        }
        let placeholder = AudioStream::new(StreamFormat {
            is_stereo: false,
            is_16_bit: false,
            sample_rate: 0,
            compression: crate::format::Compression::Other,
            samples_per_block: 0,
        });
        proof {
            assert(old(self)@[handle.key()].wf());
        }
        let mut s = arena_replace(&mut self.streams, handle, placeholder);
        let r = s.queue(clock, bytes);
        let _ = arena_replace(&mut self.streams, handle, s);
        proof {
            assert forall|k: StreamKey| self@.contains_key(k) implies #[trigger] self@[k].wf() by {
                if k != handle.key() {
                    assert(old(self)@.contains_key(k));
                }
            }
            assert(self@ =~= old(self)@.insert(handle.key(), self@[handle.key()]));
        }
        r
    }
}

} // verus!
