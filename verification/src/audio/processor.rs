//! The scope as a view reads it: attached to a segment or not.

use super::ring::{newest_mono, ScopeReader, ShmAudioBuffer};
use super::segment::{audio_slot, ShmError, ShmSegmentHeader};
use vstd::prelude::*;

verus! {

/// A scope that may be attached to a segment.
#[derive(Debug, Clone, Copy)]
pub struct AudioProcessor {
    pub scope: Option<ScopeReader>,
}

impl AudioProcessor {
    /// A scope that is not attached.
    pub fn new() -> (r: AudioProcessor)
        ensures
            r.scope is None,
    {
        AudioProcessor { scope: None }
    }

    /// Attaches to a segment with this header. A header that is refused leaves the
    /// scope as it was.
    pub fn connect(&mut self, h: &ShmSegmentHeader) -> (r: Result<(), ShmError>)
        ensures
            match r {
                Ok(_) => final(self).scope matches Some(s) && audio_slot(*h) == Ok::<int, ShmError>(
                    s.slot0 as int,
                ),
                Err(e) => final(self).scope == old(self).scope && audio_slot(*h) == Err::<
                    int,
                    ShmError,
                >(e),
            },
    {
        match ScopeReader::open(h) {
            Ok(s) => {
                self.scope = Some(s);
                Ok(())
            },
            Err(e) => Err(e),
        }
    }

    /// Whether the scope is attached and `slot`, the slot it is attached to, is
    /// being written.
    pub fn is_active<T: Copy>(&self, slot: &ShmAudioBuffer<T>) -> (r: bool)
        ensures
            r == (self.scope is Some && slot.active()),
    {
        match self.scope {
            Some(_) => slot.is_active(),
            None => false,
        }
    }

    /// Takes the newest frames of `slot`, the slot that the scope is attached to.
    /// Without one, `out` is left as it was.
    pub fn read_scope_mono<T: Copy>(
        &self,
        slot: &ShmAudioBuffer<T>,
        out: &mut Vec<T>,
        frames: usize,
    ) -> (r: bool)
        requires
            slot.wf(),
        ensures
            r == (self.scope is Some && slot.active() && slot.history().len() > 0),
            self.scope is None ==> final(out)@ == old(out)@,
            self.scope is Some ==> final(out)@ == (if r {
                newest_mono(slot.history(), slot.cap(), frames as int)
            } else {
                Seq::<T>::empty()
            }),
    {
        match self.scope {
            Some(_) => slot.read_latest_mono(out, frames),
            None => false,
        }
    }
}

impl Default for AudioProcessor {
    fn default() -> (r: AudioProcessor)
        ensures
            r.scope is None,
    {
        AudioProcessor::new()
    }
}

} // verus!
