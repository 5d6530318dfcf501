//! The fragment-reassembly engine.
//!
//! A logical message too large for one datagram arrives as fragment frames
//! sharing a compound id. [`Archaeologist`] accumulates their payloads,
//! keyed by compound id, and yields the assembled bytes the instant a
//! compound completes. Fragments are accepted only in index order,
//! starting at zero; an out-of-order fragment is dropped and the buffer
//! persists unchanged. Abandoned compounds are never evicted — a known
//! resource gap of this design, left to the relay's restart policy.

use crate::packets::Frame;
use std::collections::HashMap;
use vstd::prelude::*;

verus! {

broadcast use vstd::std_specs::hash::group_hash_axioms;

/// The reassembly state of one compound, as the contracts describe it:
/// how many fragments were consumed, the declared fragment count, and the
/// payload bytes accumulated so far.
pub ghost struct Compound {
    /// The count of fragments consumed so far.
    pub counter: nat,
    /// The compound's declared fragment count.
    pub size: nat,
    /// The payload bytes accumulated so far, in fragment order.
    pub bytes: Seq<u8>,
}

/// One compound's reassembly buffer: a fragment counter, the declared
/// fragment count, and the accumulating payload.
#[derive(Debug, Clone)]
struct Buffer {
    counter: u64,
    size: u32,
    buf: Vec<u8>,
}

enum BufferState {
    Ready,
    Incomplete,
}

impl Buffer {
    /// The buffer's state as the contracts describe it.
    pub closed spec fn model(self) -> Compound {
        Compound { counter: self.counter as nat, size: self.size as nat, bytes: self.buf@ }
    }

    /// The counter stays within one step of the 32-bit fragment indices
    /// that can reach it.
    pub closed spec fn wf(self) -> bool {
        self.counter <= 0x1_0000_0000
    }

    /// Creates an empty buffer expecting `size` fragments.
    fn new(size: u32) -> (r: Self)
        ensures
            r.wf(),
            r.model() == (Compound { counter: 0, size: size as nat, bytes: Seq::<u8>::empty() }),
    {
        Self { counter: 0, size, buf: Vec::new() }
    }

    /// Feeds one fragment. The fragment is accepted only when its index
    /// equals the counter; acceptance appends the payload bytes and
    /// advances the counter, and the buffer reports `Ready` exactly when
    /// the counter reaches the declared fragment count.
    fn read(&mut self, fragment: &crate::packets::Fragment, bytes: &[u8]) -> (r: BufferState)
        requires
            old(self).wf(),
        ensures
            final(self).wf(),
            fragment.index as nat != old(self).model().counter ==> final(self).model() == old(
                self,
            ).model() && (r is Incomplete),
            fragment.index as nat == old(self).model().counter ==> final(self).model() == (Compound {
                counter: old(self).model().counter + 1,
                size: old(self).model().size,
                bytes: old(self).model().bytes + bytes@,
            }) && (if final(self).model().counter == final(self).model().size {
                r is Ready
            } else {
                r is Incomplete
            }),
    {
        if self.counter != fragment.index as u64 {
            return BufferState::Incomplete;
        }
        self.counter = self.counter + 1;
        let mut i: usize = 0;
        let n = bytes.len();
        while i < n
            invariant
                i <= n,
                n == bytes@.len(),
                self.buf@ == old(self).buf@ + bytes@.subrange(0, i as int),
                self.counter == old(self).counter + 1,
                self.size == old(self).size,
            decreases n - i,
        {
            self.buf.push(bytes[i]);
            i = i + 1;
            proof {
                assert(self.buf@ =~= old(self).buf@ + bytes@.subrange(0, i as int));
            }
        }
        proof {
            assert(old(self).buf@ + bytes@.subrange(0, n as int) =~= old(self).buf@ + bytes@);
        }
        if self.counter == self.size as u64 {
            BufferState::Ready
        } else {
            BufferState::Incomplete
        }
    }
}

/// The fragment-reassembly engine: one live reassembly buffer per compound
/// id, created on the first fragment seen for that id and removed the
/// instant the compound completes.
#[derive(Debug, Clone, Default)]
pub struct Archaeologist {
    buffers: HashMap<u16, Buffer>,
}

impl Archaeologist {
    /// The engine's state as the contracts describe it: the live
    /// reassembly buffer of each compound id.
    pub closed spec fn model(self) -> Map<u16, Compound> {
        Map::new(
            |id: u16| self.buffers@.contains_key(id),
            |id: u16| self.buffers@[id].model(),
        )
    }

    /// Every live buffer keeps its counter within reach of the 32-bit
    /// fragment indices.
    pub closed spec fn wf(self) -> bool {
        forall|id: u16| self.buffers@.contains_key(id) ==> (#[trigger] self.buffers@[id]).wf()
    }

    /// Creates an engine with no live compounds.
    pub fn new() -> (r: Self)
        ensures
            r.wf(),
            r.model() == Map::<u16, Compound>::empty(),
    {
        let r = Self { buffers: HashMap::new() };
        proof {
            assert(r.model() =~= Map::<u16, Compound>::empty());
        }
        r
    }

    /// Feeds one frame to the engine. A frame without fragment metadata is
    /// not part of a compound and yields nothing, the state unchanged.
    /// Otherwise the fragment's payload is fed to its compound's buffer —
    /// created for its declared size on the first fragment seen — and is
    /// accepted only when its index equals the buffer's counter. The call
    /// yields the concatenated payload exactly when the counter reaches
    /// the declared fragment count; the completed buffer is removed the
    /// same instant. An incomplete compound persists for later fragments.
    pub fn collect(&mut self, frame: &Frame) -> (r: Option<Vec<u8>>)
        requires
            old(self).wf(),
        ensures
            final(self).wf(),
            frame.fragment is None ==> r is None && final(self).model() == old(self).model(),
            frame.fragment matches Some(f) ==> ({
                let m = old(self).model();
                let prior = if m.contains_key(f.compound_id) {
                    m[f.compound_id]
                } else {
                    Compound { counter: 0, size: f.compound_size as nat, bytes: Seq::empty() }
                };
                if f.index as nat != prior.counter {
                    r is None && final(self).model() == m.insert(f.compound_id, prior)
                } else {
                    let fed = Compound {
                        counter: prior.counter + 1,
                        size: prior.size,
                        bytes: prior.bytes + frame.body@,
                    };
                    if fed.counter == fed.size {
                        (r matches Some(v) && v@ == fed.bytes) && final(self).model() == m.remove(
                            f.compound_id,
                        )
                    } else {
                        r is None && final(self).model() == m.insert(f.compound_id, fed)
                    }
                }
            }),
    {
        let fragment = match &frame.fragment {
            Some(f) => f,
            None => {
                return None;
            },
        };
        let mut buffer = match self.buffers.remove(&fragment.compound_id) {
            Some(b) => b,
            None => Buffer::new(fragment.compound_size),
        };
        let state = buffer.read(fragment, frame.body.as_slice());
        match state {
            BufferState::Ready => {
                proof {
                    assert(final(self).model() =~= old(self).model().remove(fragment.compound_id));
                }
                Some(buffer.buf)
            },
            BufferState::Incomplete => {
                let ghost fed = buffer.model();
                self.buffers.insert(fragment.compound_id, buffer);
                proof {
                    assert(final(self).model() =~= old(self).model().insert(
                        fragment.compound_id,
                        fed,
                    ));
                }
                None
            },
        }
    }
}

} // verus!
