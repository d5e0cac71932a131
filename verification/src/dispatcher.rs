//! Byte-stream reassembly at the receive boundary: inbound bursts are
//! appended to a per-device buffer, and complete magic-prefixed frames
//! are cut out from the front; a partial frame at the end stays for the
//! next burst.

use vstd::prelude::*;

use crate::endian::{read_u16_le, spec_u16_from_le};

verus! {

/// The frames found by scanning a buffer from an offset: bytes are
/// skipped one at a time until the two magic bytes; a frame whose
/// declared length fits within the buffer is cut out whole and the scan
/// continues after it; a frame that runs past the end stops the scan.
pub open spec fn spec_scan_frames(buf: Seq<u8>, idx: int) -> Seq<Seq<u8>>
    recommends
        0 <= idx,
    decreases buf.len() - idx
        when 0 <= idx
{
    if idx + 8 > buf.len() {
        Seq::<Seq<u8>>::empty()
    } else if !(buf[idx] == 0xa5 && buf[idx + 1] == 0xa5) {
        spec_scan_frames(buf, idx + 1)
    } else {
        let total = 8 + spec_u16_from_le(buf.subrange(idx + 4, idx + 6)) as int;
        if idx + total > buf.len() {
            Seq::<Seq<u8>>::empty()
        } else {
            seq![buf.subrange(idx, idx + total)] + spec_scan_frames(buf, idx + total)
        }
    }
}

/// Where the scan stops: the offset after the last whole frame or
/// skipped byte; everything from here on stays in the buffer.
pub open spec fn spec_scan_end(buf: Seq<u8>, idx: int) -> int
    recommends
        0 <= idx,
    decreases buf.len() - idx
        when 0 <= idx
{
    if idx + 8 > buf.len() {
        idx
    } else if !(buf[idx] == 0xa5 && buf[idx + 1] == 0xa5) {
        spec_scan_end(buf, idx + 1)
    } else {
        let total = 8 + spec_u16_from_le(buf.subrange(idx + 4, idx + 6)) as int;
        if idx + total > buf.len() {
            idx
        } else {
            spec_scan_end(buf, idx + total)
        }
    }
}

/// A per-device receive buffer.
pub struct RecvBuffer {
    pub buffer: Vec<u8>,
}

impl RecvBuffer {
    /// An empty buffer.
    pub fn new() -> (r: RecvBuffer)
        ensures
            r.buffer@.len() == 0,
    {
        RecvBuffer { buffer: Vec::new() }
    }

    /// Whether nothing is buffered.
    pub fn is_empty(&self) -> (r: bool)
        ensures
            r == (self.buffer@.len() == 0),
    {
        self.buffer.len() == 0
    }

    /// Drops everything buffered for the device.
    pub fn clear_recv_buffer(&mut self)
        ensures
            final(self).buffer@.len() == 0,
    {
        self.buffer = Vec::new();
    }

    /// Appends an inbound burst and cuts out every complete frame from
    /// the front; the residue stays buffered for the next burst.
    pub fn on_bytes(&mut self, data: &[u8]) -> (frames: Vec<Vec<u8>>)
        ensures
            ({
                let full = old(self).buffer@ + data@;
                &&& frames@.map_values(|f: Vec<u8>| f@) == spec_scan_frames(full, 0)
                &&& final(self).buffer@ == full.skip(spec_scan_end(full, 0))
            }),
    {
        let mut i: usize = 0;
        while i < data.len()
            invariant
                i <= data@.len(),
                self.buffer@ == old(self).buffer@ + data@.take(i as int),
            decreases data@.len() - i,
        {
            self.buffer.push(data[i]);
            proof {
                assert(self.buffer@ =~= old(self).buffer@ + data@.take(i + 1 as int));
            }
            i = i + 1;
        }
        proof {
            assert(data@.take(data@.len() as int) =~= data@);
        }
        let frames = extract_frames(&mut self.buffer);
        frames
    }
}

/// Cuts every complete frame out of the front of a buffer, leaving the
/// residue.
pub fn extract_frames(buffer: &mut Vec<u8>) -> (frames: Vec<Vec<u8>>)
    ensures
        frames@.map_values(|f: Vec<u8>| f@) == spec_scan_frames(old(buffer)@, 0),
        final(buffer)@ == old(buffer)@.skip(spec_scan_end(old(buffer)@, 0)),
{
    let ghost full = buffer@;
    let mut frames: Vec<Vec<u8>> = Vec::new();
    let n = buffer.len();
    let mut idx: usize = 0;
    proof {
        assert(frames@.map_values(|f: Vec<u8>| f@) =~= Seq::<Seq<u8>>::empty());
    }
    let mut stopped = false;
    while !stopped && n - idx >= 8
        invariant
            *buffer == *old(buffer),
            full == buffer@,
            n == buffer@.len(),
            idx <= n,
            frames@.map_values(|f: Vec<u8>| f@) + spec_scan_frames(full, idx as int)
                == spec_scan_frames(full, 0),
            spec_scan_end(full, idx as int) == spec_scan_end(full, 0),
            stopped ==> spec_scan_frames(full, idx as int) == Seq::<Seq<u8>>::empty()
                && spec_scan_end(full, idx as int) == idx as int,
        decreases n - idx, (if stopped { 0int } else { 1int }),
    {
        if !(buffer[idx] == 0xa5 && buffer[idx + 1] == 0xa5) {
            proof {
                assert(spec_scan_frames(full, idx as int) == spec_scan_frames(full, idx + 1));
                assert(spec_scan_end(full, idx as int) == spec_scan_end(full, idx + 1));
            }
            idx = idx + 1;
        } else {
            let declared = read_u16_le(buffer.as_slice(), idx + 4) as usize;
            let total = 8 + declared;
            proof {
                assert(buffer@.subrange(idx + 4, idx + 6) =~= full.subrange(idx + 4, idx + 6));
            }
            if total > n - idx {
                proof {
                    assert(idx as int + (8 + spec_u16_from_le(full.subrange(idx + 4, idx + 6)))
                        > full.len());
                }
                stopped = true;
            } else {
                let frame_slice = vstd::slice::slice_subrange(buffer.as_slice(), idx, idx + total);
                let frame = vstd::slice::slice_to_vec(frame_slice);
                let ghost pre_frames = frames@.map_values(|f: Vec<u8>| f@);
                frames.push(frame);
                proof {
                    assert(frames@.map_values(|f: Vec<u8>| f@) =~= pre_frames.push(
                        full.subrange(idx as int, idx as int + total),
                    ));
                    assert(spec_scan_frames(full, idx as int) == seq![
                        full.subrange(idx as int, idx as int + total),
                    ] + spec_scan_frames(full, idx as int + total));
                    assert(frames@.map_values(|f: Vec<u8>| f@) + spec_scan_frames(
                        full,
                        idx as int + total,
                    ) =~= spec_scan_frames(full, 0));
                    assert(spec_scan_end(full, idx as int) == spec_scan_end(
                        full,
                        idx as int + total,
                    ));
                }
                idx = idx + total;
            }
        }
    }
    proof {
        if !stopped {
            assert(idx + 8 > full.len());
            assert(spec_scan_frames(full, idx as int) == Seq::<Seq<u8>>::empty());
            assert(spec_scan_end(full, idx as int) == idx as int);
        }
        assert(frames@.map_values(|f: Vec<u8>| f@) =~= spec_scan_frames(full, 0));
    }
    // Drop the consumed prefix, keeping the residue.
    let mut rest: Vec<u8> = Vec::new();
    let mut j: usize = idx;
    while j < n
        invariant
            full == buffer@,
            n == buffer@.len(),
            idx <= j <= n,
            rest@ == full.subrange(idx as int, j as int),
        decreases n - j,
    {
        rest.push(buffer[j]);
        proof {
            assert(rest@ =~= full.subrange(idx as int, j + 1 as int));
        }
        j = j + 1;
    }
    proof {
        assert(rest@ =~= full.skip(idx as int));
    }
    *buffer = rest;
    frames
}

} // verus!
