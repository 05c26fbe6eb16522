//! The mathematical model of the frame scanner.
//!
//! [`scan`] says, for any buffer contents, which frames one scanning pass
//! extracts and from which offset the buffer is retained for the next chunk.
//! The executable scanner in [`crate::parse`] is proved to return exactly
//! this result; the laws at the bottom of this module (byte accounting and
//! idempotence of rescanning) are proved of the model alone.
//!
//! The scan walks the buffer left to right looking for the two-byte start
//! marker.  A marker followed by a complete, well-delimited frame consumes
//! the frame (emitting it only when its `mode` is the display-update value);
//! a marker whose frame is still incomplete makes the scan stop and retain
//! the buffer from the marker on; a marker whose end-marker byte is wrong is
//! treated as stray bytes and scanning resumes one byte further on.

use vstd::prelude::*;

use crate::ppp_packet::{HEADER_LEN, MARKER_ADDR, MARKER_BEGIN, MODE_DISPLAY, PacketModel};

verus! {

/// A two-byte start marker lies at offset `i`.
pub open spec fn marker_at(s: Seq<u8>, i: int) -> bool {
    &&& 0 <= i
    &&& i + 1 < s.len()
    &&& s[i] == MARKER_BEGIN
    &&& s[i + 1] == MARKER_ADDR
}

/// The first payload-terminator position at or after `i` that still leaves
/// room for the checksum and the end marker: the least `t >= i` with
/// `s[t] == 0` and `t + 4 <= s.len()`.
pub open spec fn spec_find_term(s: Seq<u8>, i: int) -> Option<int>
    decreases s.len() - i,
{
    if i < 0 || i + 4 > s.len() {
        None
    } else if s[i] == 0 {
        Some(i)
    } else {
        spec_find_term(s, i + 1)
    }
}

/// What [`spec_find_term`] returns: the least terminator position, or the
/// guarantee that none fits.
pub proof fn lemma_find_term(s: Seq<u8>, i: int)
    requires
        0 <= i,
    ensures
        match spec_find_term(s, i) {
            Some(t) => i <= t && t + 4 <= s.len() && s[t] == 0 && forall|j: int|
                i <= j < t ==> #[trigger] s[j] != 0,
            None => forall|j: int| i <= j && j + 4 <= s.len() ==> #[trigger] s[j] != 0,
        },
    decreases s.len() - i,
{
    if i + 4 > s.len() {
    } else if s[i] == 0 {
    } else {
        lemma_find_term(s, i + 1);
    }
}

/// The frame whose start marker lies at `g` and whose payload terminator
/// lies at `t`.
pub open spec fn frame_at(s: Seq<u8>, g: int, t: int) -> PacketModel {
    PacketModel {
        mode: s[g + 6],
        row: s[g + 8],
        payload: s.subrange(g + HEADER_LEN as int, t),
        checksum: (s[t + 1] * 256 + s[t + 2]) as u16,
    }
}

/// One scanning pass: the frames extracted, in stream order, and the offset
/// from which the buffer is retained.
pub struct ScanOut {
    pub frames: Seq<PacketModel>,
    pub retain: int,
}

/// Scan `s` from offset `scan`, where everything before `pos` has already
/// been consumed by earlier frames.  `pos <= scan`; offsets in `[pos, scan)`
/// have been examined and found not to start a frame, but remain in the
/// buffer until a later frame completes past them.
pub open spec fn spec_scan(s: Seq<u8>, pos: int, scan: int) -> ScanOut
    decreases s.len() - scan,
{
    if scan < 0 || scan + 1 >= s.len() {
        // No room left for a start marker: nothing pending.
        ScanOut { frames: Seq::empty(), retain: pos }
    } else if !(s[scan] == MARKER_BEGIN && s[scan + 1] == MARKER_ADDR) {
        spec_scan(s, pos, scan + 1)
    } else if scan + HEADER_LEN > s.len() {
        // Start marker with an incomplete header: await more bytes.
        ScanOut { frames: Seq::empty(), retain: scan }
    } else {
        match spec_find_term(s, scan + HEADER_LEN as int) {
            None => ScanOut { frames: Seq::empty(), retain: scan },
            Some(t) => {
                proof {
                    lemma_find_term(s, scan + HEADER_LEN as int);
                }
                if s[t + 3] != MARKER_BEGIN {
                    // Not a frame after all: the marker bytes were stray.
                    spec_scan(s, pos, scan + 1)
                } else if s[scan + 6] == MODE_DISPLAY {
                    let rest = spec_scan(s, t + 4, t + 4);
                    ScanOut {
                        frames: seq![frame_at(s, scan, t)] + rest.frames,
                        retain: rest.retain,
                    }
                } else {
                    // Structurally complete frame of another mode: consume it
                    // without reporting it.
                    spec_scan(s, t + 4, t + 4)
                }
            },
        }
    }
}

/// One scanning pass over the whole buffer.
pub open spec fn scan(s: Seq<u8>) -> ScanOut {
    spec_scan(s, 0, 0)
}

/// The bytes a sequence of extracted frames consumed from the buffer:
/// header, payload, terminator, checksum and end marker of each.
pub open spec fn frames_bytes(fs: Seq<PacketModel>) -> int
    decreases fs.len(),
{
    if fs.len() == 0 {
        0
    } else {
        HEADER_LEN as int + fs[0].payload.len() + 4 + frames_bytes(fs.drop_first())
    }
}

proof fn lemma_frames_bytes_cons(f: PacketModel, fs: Seq<PacketModel>)
    ensures
        frames_bytes(seq![f] + fs) == HEADER_LEN as int + f.payload.len() + 4 + frames_bytes(fs),
{
    assert((seq![f] + fs).drop_first() =~= fs);
    assert((seq![f] + fs)[0] == f);
}

/// Byte accounting of one scanning pass: the bytes consumed and reported in
/// frames plus the bytes retained never exceed the bytes that were present
/// past the already-consumed prefix.
pub proof fn lemma_scan_accounting(s: Seq<u8>, pos: int, scan: int)
    requires
        0 <= pos <= scan,
        pos <= s.len(),
    ensures
        ({
            let out = spec_scan(s, pos, scan);
            &&& pos <= out.retain <= s.len()
            &&& frames_bytes(out.frames) + (s.len() - out.retain) <= s.len() - pos
        }),
    decreases s.len() - scan,
{
    if scan + 1 >= s.len() {
    } else if !(s[scan] == MARKER_BEGIN && s[scan + 1] == MARKER_ADDR) {
        lemma_scan_accounting(s, pos, scan + 1);
    } else if scan + HEADER_LEN > s.len() {
    } else {
        lemma_find_term(s, scan + HEADER_LEN as int);
        match spec_find_term(s, scan + HEADER_LEN as int) {
            None => {},
            Some(t) => {
                if s[t + 3] != MARKER_BEGIN {
                    lemma_scan_accounting(s, pos, scan + 1);
                } else if s[scan + 6] == MODE_DISPLAY {
                    lemma_scan_accounting(s, t + 4, t + 4);
                    let rest = spec_scan(s, t + 4, t + 4);
                    lemma_frames_bytes_cons(frame_at(s, scan, t), rest.frames);
                } else {
                    lemma_scan_accounting(s, t + 4, t + 4);
                }
            },
        }
    }
}

/// The invariant of an emitted frame: it carries the display-update mode,
/// and its payload never includes the terminator byte.
pub open spec fn wellformed_frame(f: PacketModel) -> bool {
    &&& f.mode == MODE_DISPLAY
    &&& forall|j: int| 0 <= j < f.payload.len() ==> #[trigger] f.payload[j] != 0
}

/// Every frame of the sequence satisfies [`wellformed_frame`].
pub open spec fn all_wellformed(fs: Seq<PacketModel>) -> bool {
    forall|i: int| 0 <= i < fs.len() ==> wellformed_frame(#[trigger] fs[i])
}

/// Every frame one scanning pass emits satisfies [`wellformed_frame`].
pub proof fn lemma_scan_frames_wellformed(s: Seq<u8>, pos: int, scan: int)
    ensures
        all_wellformed(spec_scan(s, pos, scan).frames),
    decreases s.len() - scan,
{
    if scan < 0 || scan + 1 >= s.len() {
        assert(all_wellformed(Seq::<PacketModel>::empty()));
    } else if !(s[scan] == MARKER_BEGIN && s[scan + 1] == MARKER_ADDR) {
        lemma_scan_frames_wellformed(s, pos, scan + 1);
    } else if scan + HEADER_LEN > s.len() {
        assert(all_wellformed(Seq::<PacketModel>::empty()));
    } else {
        lemma_find_term(s, scan + HEADER_LEN as int);
        match spec_find_term(s, scan + HEADER_LEN as int) {
            None => {
                assert(all_wellformed(Seq::<PacketModel>::empty()));
            },
            Some(t) => {
                if s[t + 3] != MARKER_BEGIN {
                    lemma_scan_frames_wellformed(s, pos, scan + 1);
                } else if s[scan + 6] == MODE_DISPLAY {
                    lemma_scan_frames_wellformed(s, t + 4, t + 4);
                    let f = frame_at(s, scan, t);
                    assert forall|j: int| 0 <= j < f.payload.len() implies #[trigger] f.payload[j]
                        != 0 by {
                        assert(f.payload[j] == s[scan + HEADER_LEN as int + j]);
                    }
                    let rest = spec_scan(s, t + 4, t + 4);
                    assert forall|i: int|
                        0 <= i < (seq![f] + rest.frames).len() implies wellformed_frame(
                        #[trigger] (seq![f] + rest.frames)[i],
                    ) by {
                        if i > 0 {
                            assert((seq![f] + rest.frames)[i] == rest.frames[i - 1]);
                        }
                    }
                    assert(all_wellformed(seq![f] + rest.frames));
                } else {
                    lemma_scan_frames_wellformed(s, t + 4, t + 4);
                }
            },
        }
    }
}

/// LAW — the Frame invariant: every frame the scanner reports is a
/// display-update frame whose payload is free of the terminator byte.
pub proof fn lemma_scan_emits_wellformed_frames(s: Seq<u8>)
    ensures
        all_wellformed(scan(s).frames),
{
    lemma_scan_frames_wellformed(s, 0, 0);
}

/// Offset `g` cannot start a frame in `s`: either no marker lies there, or
/// the bytes shaped like a frame behind it end in the wrong end-marker byte,
/// so one scanning pass steps past it.
pub open spec fn examined(s: Seq<u8>, g: int) -> bool {
    marker_at(s, g) ==> {
        &&& g + HEADER_LEN <= s.len()
        &&& (spec_find_term(s, g + HEADER_LEN as int) matches Some(t) && s[t + 3] != MARKER_BEGIN)
    }
}

/// Scanning may start anywhere within a run of examined offsets without
/// changing the outcome.
pub proof fn lemma_scan_advance(s: Seq<u8>, pos: int, a: int, b: int)
    requires
        0 <= pos <= a <= b,
        pos <= s.len(),
        forall|g: int| a <= g < b ==> examined(s, g),
    ensures
        spec_scan(s, pos, a) == spec_scan(s, pos, b),
    decreases b - a,
{
    if a < b {
        // `examined` leaves only three shapes at `a` — no room for a marker,
        // no marker, or a stray marker — and each one steps to `a + 1`.
        assert(examined(s, a));
        lemma_scan_advance(s, pos, a + 1, b);
    }
}

/// After one scanning pass, rescanning from the retained offset finds
/// nothing new: no frames, and the same retained offset.
pub proof fn lemma_retain_stable(s: Seq<u8>, pos: int, scan: int)
    requires
        0 <= pos <= scan,
        pos <= s.len(),
        forall|g: int| pos <= g < scan ==> examined(s, g),
    ensures
        ({
            let r = spec_scan(s, pos, scan).retain;
            spec_scan(s, r, r) == ScanOut { frames: Seq::<PacketModel>::empty(), retain: r }
        }),
    decreases s.len() - scan,
{
    if scan + 1 >= s.len() {
        lemma_scan_advance(s, pos, pos, scan);
    } else if !(s[scan] == MARKER_BEGIN && s[scan + 1] == MARKER_ADDR) {
        assert(examined(s, scan));
        lemma_retain_stable(s, pos, scan + 1);
    } else if scan + HEADER_LEN > s.len() {
    } else {
        lemma_find_term(s, scan + HEADER_LEN as int);
        match spec_find_term(s, scan + HEADER_LEN as int) {
            None => {},
            Some(t) => {
                if s[t + 3] != MARKER_BEGIN {
                    assert(examined(s, scan));
                    lemma_retain_stable(s, pos, scan + 1);
                } else {
                    lemma_retain_stable(s, t + 4, t + 4);
                }
            },
        }
    }
}

/// Terminator search is invariant under dropping a consumed prefix.
proof fn lemma_find_term_shift(s: Seq<u8>, a: int, i: int)
    requires
        0 <= a <= i,
        a <= s.len(),
    ensures
        spec_find_term(s.subrange(a, s.len() as int), i - a) == match spec_find_term(s, i) {
            Some(t) => Some(t - a),
            None => None::<int>,
        },
    decreases s.len() - i,
{
    if i + 4 > s.len() {
    } else if s[i] == 0 {
    } else {
        lemma_find_term_shift(s, a, i + 1);
    }
}

/// One scanning pass is invariant under dropping a consumed prefix.
proof fn lemma_scan_shift(s: Seq<u8>, a: int, pos: int, scan: int)
    requires
        0 <= a <= pos <= scan,
        a <= s.len(),
    ensures
        ({
            let u = s.subrange(a, s.len() as int);
            let shifted = spec_scan(u, pos - a, scan - a);
            let whole = spec_scan(s, pos, scan);
            shifted.frames == whole.frames && shifted.retain == whole.retain - a
        }),
    decreases s.len() - scan,
{
    let u = s.subrange(a, s.len() as int);
    if scan + 1 >= s.len() {
    } else if !(s[scan] == MARKER_BEGIN && s[scan + 1] == MARKER_ADDR) {
        lemma_scan_shift(s, a, pos, scan + 1);
    } else if scan + HEADER_LEN > s.len() {
    } else {
        lemma_find_term(s, scan + HEADER_LEN as int);
        lemma_find_term_shift(s, a, scan + HEADER_LEN as int);
        match spec_find_term(s, scan + HEADER_LEN as int) {
            None => {},
            Some(t) => {
                if s[t + 3] != MARKER_BEGIN {
                    lemma_scan_shift(s, a, pos, scan + 1);
                } else {
                    lemma_scan_shift(s, a, t + 4, t + 4);
                    assert(u.subrange(scan - a + HEADER_LEN as int, t - a) =~= s.subrange(
                        scan + HEADER_LEN as int,
                        t,
                    ));
                    assert(frame_at(u, scan - a, t - a) == frame_at(s, scan, t));
                    if s[scan + 6] == MODE_DISPLAY {
                        let rest_u = spec_scan(u, t + 4 - a, t + 4 - a);
                        let rest_s = spec_scan(s, t + 4, t + 4);
                        assert(seq![frame_at(u, scan - a, t - a)] + rest_u.frames == seq![
                            frame_at(s, scan, t),
                        ] + rest_s.frames);
                    }
                }
            },
        }
    }
}

/// LAW — byte accounting: over one scanning pass of any buffer, the bytes
/// consumed and reported in emitted frames plus the bytes retained never
/// exceed the bytes that were present.
pub proof fn lemma_scan_byte_accounting(s: Seq<u8>)
    ensures
        0 <= scan(s).retain <= s.len(),
        frames_bytes(scan(s).frames) + (s.len() - scan(s).retain) <= s.len(),
{
    lemma_scan_accounting(s, 0, 0);
}

/// LAW — idempotence: rescanning the buffer retained by one scanning pass,
/// with no new data added, yields zero frames and retains every byte.
pub proof fn lemma_scan_idempotent(s: Seq<u8>)
    ensures
        ({
            let r = scan(s).retain;
            scan(s.subrange(r, s.len() as int)) == ScanOut {
                frames: Seq::<PacketModel>::empty(),
                retain: 0,
            }
        }),
{
    lemma_scan_accounting(s, 0, 0);
    lemma_retain_stable(s, 0, 0);
    let r = scan(s).retain;
    lemma_scan_shift(s, r, r, r);
}

} // verus!
