//! The executable frame scanner.
//!
//! [`parse`] consumes complete frames from the front of an accumulating
//! buffer and leaves the unconsumed suffix in place, exactly as the model
//! in [`crate::scan`] prescribes.

use vstd::prelude::*;

use crate::ppp_packet::{HEADER_LEN, MARKER_ADDR, MARKER_BEGIN, MODE_DISPLAY, Header, Packet, PacketModel};
use crate::scan::{
    ScanOut, examined, frame_at, lemma_find_term, lemma_scan_advance, marker_at, scan,
    spec_find_term, spec_scan,
};

verus! {

/// A payload byte: anything but the terminator.
pub fn not_null(chr: u8) -> (r: bool)
    ensures
        r == (chr != 0),
{
    chr != 0x00u8
}

/// The packets mirror the frame models, element for element.
pub open spec fn models(ps: Seq<Packet>, fs: Seq<PacketModel>) -> bool {
    &&& ps.len() == fs.len()
    &&& forall|i: int| 0 <= i < ps.len() ==> #[trigger] ps[i]@ == fs[i]
}

/// Least offset at or after `from` holding a complete start marker.
fn find_marker(v: &Vec<u8>, from: usize) -> (r: Option<usize>)
    requires
        from <= v@.len(),
    ensures
        match r {
            Some(g) => from <= g && marker_at(v@, g as int) && forall|k: int|
                from <= k < g ==> !marker_at(v@, k),
            None => forall|k: int| from <= k ==> !marker_at(v@, k),
        },
{
    let mut j = from;
    while v.len() - j >= 2
        invariant
            from <= j,
            j <= v@.len(),
            forall|k: int| from <= k < j ==> !marker_at(v@, k),
        decreases v@.len() - j,
    {
        if v[j] == MARKER_BEGIN && v[j + 1] == MARKER_ADDR {
            return Some(j);
        }
        j = j + 1;
    }
    None
}

/// Exec mirror of [`spec_find_term`]: least terminator position at or after
/// `start` that leaves room for checksum and end marker.
fn find_terminator(v: &Vec<u8>, start: usize) -> (r: Option<usize>)
    requires
        start <= v@.len(),
    ensures
        match r {
            Some(t) => Some(t as int) == spec_find_term(v@, start as int),
            None => spec_find_term(v@, start as int) is None,
        },
{
    let mut t = start;
    while v.len() - t >= 4
        invariant
            start <= t <= v@.len(),
            spec_find_term(v@, start as int) == spec_find_term(v@, t as int),
        decreases v@.len() - t,
    {
        if !not_null(v[t]) {
            return Some(t);
        }
        t = t + 1;
    }
    None
}

/// Copy `v[a..b)` into a fresh vector.
fn copy_range(v: &Vec<u8>, a: usize, b: usize) -> (r: Vec<u8>)
    requires
        a <= b <= v@.len(),
    ensures
        r@ == v@.subrange(a as int, b as int),
{
    let mut r: Vec<u8> = Vec::new();
    let mut i = a;
    while i < b
        invariant
            a <= i <= b <= v@.len(),
            r@ == v@.subrange(a as int, i as int),
        decreases b - i,
    {
        r.push(v[i]);
        i = i + 1;
        proof {
            assert(v@.subrange(a as int, i as int) =~= v@.subrange(a as int, i - 1).push(
                v@[i - 1],
            ));
        }
    }
    r
}

/// Extract every complete frame from the front of `chunk`, in stream order,
/// and retain exactly the unconsumed suffix for the next input chunk.
///
/// The result and the retained suffix are exactly those of one scanning
/// pass of the model: display-update frames are returned, structurally
/// complete frames of any other mode are consumed silently, and an
/// incomplete frame (or trailing garbage) is left in the buffer.
pub fn parse(chunk: &mut Vec<u8>) -> (packets: Vec<Packet>)
    ensures
        ({
            let out = scan(old(chunk)@);
            &&& models(packets@, out.frames)
            &&& final(chunk)@ == old(chunk)@.subrange(out.retain, old(chunk)@.len() as int)
        }),
{
    let ghost orig = chunk@;
    let mut packets: Vec<Packet> = Vec::new();
    let ghost mut emitted = Seq::<PacketModel>::empty();
    let mut pos: usize = 0;
    let mut cursor: usize = 0;
    let mut retain: usize = 0;
    let mut done: bool = false;
    while !done
        invariant
            chunk@ == orig,
            pos <= cursor,
            pos <= orig.len(),
            cursor <= orig.len(),
            models(packets@, emitted),
            !done ==> ({
                let mid = spec_scan(orig, pos as int, cursor as int);
                &&& scan(orig).frames == emitted + mid.frames
                &&& scan(orig).retain == mid.retain
            }),
            done ==> ({
                &&& scan(orig).frames == emitted
                &&& scan(orig).retain == retain
                &&& retain <= orig.len()
            }),
        decreases (if done {
            0int
        } else {
            orig.len() - cursor + 1
        }),
    {
        match find_marker(chunk, cursor) {
            None => {
                proof {
                    let b: int = if orig.len() - 1 > cursor {
                        orig.len() - 1
                    } else {
                        cursor as int
                    };
                    assert forall|k: int| cursor <= k < b implies examined(orig, k) by {
                        assert(!marker_at(orig, k));
                    }
                    lemma_scan_advance(orig, pos as int, cursor as int, b);
                    assert(spec_scan(orig, pos as int, b) == ScanOut {
                        frames: Seq::<PacketModel>::empty(),
                        retain: pos as int,
                    });
                }
                retain = pos;
                done = true;
            },
            Some(g) => {
                proof {
                    assert forall|k: int| cursor <= k < g implies examined(orig, k) by {
                        assert(!marker_at(orig, k));
                    }
                    lemma_scan_advance(orig, pos as int, cursor as int, g as int);
                }
                if chunk.len() - g < HEADER_LEN {
                    retain = g;
                    done = true;
                } else {
                    match find_terminator(chunk, g + HEADER_LEN) {
                        None => {
                            retain = g;
                            done = true;
                        },
                        Some(t) => {
                            proof {
                                lemma_find_term(orig, g + HEADER_LEN as int);
                            }
                            if chunk[t + 3] != MARKER_BEGIN {
                                cursor = g + 1;
                            } else {
                                if chunk[g + 6] == MODE_DISPLAY {
                                    let header = Header::from_bytes(chunk, g);
                                    let payload = copy_range(chunk, g + HEADER_LEN, t);
                                    let cksm = (chunk[t + 1] as u16) * 256 + (chunk[t + 2] as u16);
                                    let packet = Packet::new(header, payload, cksm);
                                    proof {
                                        assert(packet@ == frame_at(orig, g as int, t as int));
                                        let rest = spec_scan(orig, t + 4, t + 4);
                                        assert(emitted + (seq![frame_at(orig, g as int, t as int)]
                                            + rest.frames) =~= (emitted + seq![packet@])
                                            + rest.frames);
                                        emitted = emitted + seq![packet@];
                                    }
                                    packets.push(packet);
                                }
                                pos = t + 4;
                                cursor = t + 4;
                            }
                        },
                    }
                }
            },
        }
    }
    let rest = copy_range(chunk, retain, chunk.len());
    *chunk = rest;
    packets
}

} // verus!
