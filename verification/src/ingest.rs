//! One ingestion step: append a chunk, extract frames, decode them all.
//!
//! This is the whole synchronous pipeline the transport drives: everything
//! one chunk causes — buffer growth, frame extraction, and every decode —
//! completes before the next chunk is accepted.  Decode failures are
//! returned for an observability sink; they never stop the pipeline.

use vstd::prelude::*;

use crate::decode::{DecodeFailure, decode, decode_result, decode_step};
use crate::parse::{models, parse};
use crate::ppp_packet::PacketModel;
use crate::scan::scan;
use crate::status::{Status, StatusModel};

verus! {

/// The store after decoding a sequence of frames in stream order.
pub open spec fn apply_frames(sv: StatusModel, fs: Seq<PacketModel>) -> StatusModel
    decreases fs.len(),
{
    if fs.len() == 0 {
        sv
    } else {
        apply_frames(decode_step(sv, fs[0]), fs.drop_first())
    }
}

/// The decode failures a sequence of frames reports, in stream order.
pub open spec fn decode_failures(fs: Seq<PacketModel>) -> Seq<DecodeFailure>
    decreases fs.len(),
{
    if fs.len() == 0 {
        Seq::empty()
    } else {
        (match decode_result(fs[0]) {
            Ok(_) => Seq::<DecodeFailure>::empty(),
            Err(e) => seq![e],
        }) + decode_failures(fs.drop_first())
    }
}

proof fn lemma_apply_frames_snoc(sv: StatusModel, fs: Seq<PacketModel>, f: PacketModel)
    ensures
        apply_frames(sv, fs.push(f)) == decode_step(apply_frames(sv, fs), f),
    decreases fs.len(),
{
    if fs.len() == 0 {
        reveal_with_fuel(apply_frames, 2);
        assert(fs.push(f)[0] == f);
        assert(fs.push(f).drop_first() =~= Seq::<PacketModel>::empty());
    } else {
        assert(fs.push(f)[0] == fs[0]);
        assert(fs.push(f).drop_first() =~= fs.drop_first().push(f));
        lemma_apply_frames_snoc(decode_step(sv, fs[0]), fs.drop_first(), f);
    }
}

proof fn lemma_decode_failures_snoc(fs: Seq<PacketModel>, f: PacketModel)
    ensures
        decode_failures(fs.push(f)) == decode_failures(fs) + (match decode_result(f) {
            Ok(_) => Seq::<DecodeFailure>::empty(),
            Err(e) => seq![e],
        }),
    decreases fs.len(),
{
    let tail = match decode_result(f) {
        Ok(_) => Seq::<DecodeFailure>::empty(),
        Err(e) => seq![e],
    };
    if fs.len() == 0 {
        reveal_with_fuel(decode_failures, 2);
        assert(fs.push(f)[0] == f);
        assert(fs.push(f).drop_first() =~= Seq::<PacketModel>::empty());
        assert(decode_failures(fs.push(f)) =~= decode_failures(fs) + tail);
    } else {
        assert(fs.push(f)[0] == fs[0]);
        assert(fs.push(f).drop_first() =~= fs.drop_first().push(f));
        lemma_decode_failures_snoc(fs.drop_first(), f);
        let head = match decode_result(fs[0]) {
            Ok(_) => Seq::<DecodeFailure>::empty(),
            Err(e) => seq![e],
        };
        assert(head + (decode_failures(fs.drop_first()) + tail) =~= (head + decode_failures(
            fs.drop_first(),
        )) + tail);
    }
}

/// Append one transport chunk to the stream buffer, extract every complete
/// frame, and decode each against the store, in stream order.
///
/// Afterwards the buffer retains exactly what one scanning pass of the
/// combined bytes leaves, the store is the fold of every extracted frame
/// over its old value, and the returned failures are those the frames
/// reported, in order.
pub fn ingest(buffer: &mut Vec<u8>, chunk: &Vec<u8>, status: &mut Status) -> (failures: Vec<
    DecodeFailure,
>)
    ensures
        ({
            let all = old(buffer)@ + chunk@;
            let out = scan(all);
            &&& final(buffer)@ == all.subrange(out.retain, all.len() as int)
            &&& final(status)@ == apply_frames(old(status)@, out.frames)
            &&& failures@ == decode_failures(out.frames)
        }),
{
    let ghost sv0 = status@;
    let ghost buf0 = buffer@;
    let mut i: usize = 0;
    while i < chunk.len()
        invariant
            i <= chunk@.len(),
            buffer@ == buf0 + chunk@.take(i as int),
        decreases chunk@.len() - i,
    {
        buffer.push(chunk[i]);
        i = i + 1;
        proof {
            assert(chunk@.take(i as int) =~= chunk@.take(i - 1).push(chunk@[i - 1]));
        }
    }
    proof {
        assert(buf0 + chunk@.take(chunk@.len() as int) =~= buf0 + chunk@);
    }
    let ghost all = buf0 + chunk@;
    let mut packets = parse(buffer);
    let ghost frames = scan(all).frames;
    let ghost packets0 = packets@;
    let mut failures: Vec<DecodeFailure> = Vec::new();
    let ghost mut k: int = 0;
    while packets.len() > 0
        invariant
            0 <= k <= frames.len(),
            packets0.len() == frames.len(),
            models(packets0, frames),
            packets@ == packets0.subrange(k, packets0.len() as int),
            status@ == apply_frames(sv0, frames.take(k)),
            failures@ == decode_failures(frames.take(k)),
        decreases packets@.len(),
    {
        let p = packets.remove(0);
        proof {
            assert(p == packets0[k]);
            assert(p@ == frames[k]);
            assert(packets@ =~= packets0.subrange(k + 1, packets0.len() as int));
        }
        let r = decode(p, status);
        proof {
            lemma_apply_frames_snoc(sv0, frames.take(k), frames[k]);
            lemma_decode_failures_snoc(frames.take(k), frames[k]);
            assert(frames.take(k + 1) =~= frames.take(k).push(frames[k]));
        }
        match r {
            Ok(()) => {
                proof {
                    assert(failures@ =~= decode_failures(frames.take(k + 1)));
                }
            },
            Err(e) => {
                failures.push(e);
                proof {
                    assert(failures@ =~= decode_failures(frames.take(k + 1)));
                }
            },
        }
        proof {
            k = k + 1;
        }
    }
    proof {
        assert(frames.take(frames.len() as int) =~= frames);
    }
    failures
}

} // verus!
