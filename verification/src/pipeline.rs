//! The bounded, reusable buffer pipeline that moves bytes from an input
//! endpoint to an output endpoint.
//!
//! The design cycles a fixed set of buffers between a reader stage and a
//! writer stage through two bounded handoff queues, with a monitor
//! turning the shared byte counter into reported deltas.  Exactly one
//! reader and one writer run per copy and the queues are FIFO, so every
//! interleaving delivers the bytes in read order; the engine here runs
//! the stages step by step in one such interleaving — the reader runs
//! ahead until the pool is exhausted (the backpressure point), then the
//! writer drains — and the contracts describe the observable outcome of
//! the copy.

use vstd::prelude::*;

use crate::buffer::DataBuffer;
use crate::endpoint::{zero_bytes, InputSource, OutputSource};
use crate::errors::CopyError;
use crate::progress::{ProgressTracker, TransferCounter};

verus! {

/// How deep the pipeline is: bytes per buffer and how many buffers may
/// be in flight at once.  Both come from the caller and must be
/// positive.
pub struct ThreadedCopyConfig {
    pub buffer_size: usize,
    pub buffer_count: usize,
}

/// The terminal result of one copy: the byte total the reporting
/// callback was told about, and the first failure a stage recorded, if
/// any.
#[derive(Debug)]
pub struct CopyOutcome {
    pub bytes_reported: u64,
    pub failure: Option<CopyError>,
}

/// The bytes sitting in a handoff queue's buffers, in the order the
/// writer will drain them.
pub open spec fn inflight(q: Seq<DataBuffer>) -> Seq<u8>
    decreases q.len(),
{
    if q.len() == 0 {
        Seq::<u8>::empty()
    } else {
        q[0].valid_part() + inflight(q.drop_first())
    }
}

proof fn lemma_inflight_push(q: Seq<DataBuffer>, b: DataBuffer)
    ensures
        inflight(q.push(b)) == inflight(q) + b.valid_part(),
    decreases q.len(),
{
    let p = q.push(b);
    assert(p.len() == q.len() + 1);
    if q.len() == 0 {
        assert(p[0] == b);
        assert(p.drop_first() =~= Seq::<DataBuffer>::empty());
        assert(inflight(p.drop_first()) == Seq::<u8>::empty());
        assert(inflight(q) == Seq::<u8>::empty());
        assert(inflight(p) == b.valid_part() + Seq::<u8>::empty());
        assert(inflight(p) =~= inflight(q) + b.valid_part());
    } else {
        assert(p[0] == q[0]);
        assert(p.drop_first() =~= q.drop_first().push(b));
        lemma_inflight_push(q.drop_first(), b);
        assert(inflight(p) == q[0].valid_part() + (inflight(q.drop_first()) + b.valid_part()));
        assert(inflight(q) == q[0].valid_part() + inflight(q.drop_first()));
        assert(inflight(p) =~= inflight(q) + b.valid_part());
    }
}

/// The termination measure of the copy loop: a finite input shrinks as
/// it is consumed; a bounded sink leaves less room as it is filled, and
/// between fillings only finitely many reader steps fit in the pool.
spec fn copy_measure(
    finite: bool,
    s_len: int,
    c_len: int,
    d_len: int,
    reader_done: bool,
    e_len: int,
    f_len: int,
    room: int,
    bcount: int,
) -> int {
    if finite {
        5 * (s_len - c_len) + 3 * (c_len - d_len) + (if reader_done {
            0int
        } else {
            2int
        }) + f_len
    } else {
        (room - d_len) * (bcount + 1) + 2 * e_len + f_len
    }
}

/// Run the pipeline to completion: cycle buffers between the reader and
/// writer stages until the input drains or the sink fails, bumping the
/// transfer counter once per drained buffer and handing every positive
/// delta to the caller's reporting callback.
///
/// Success is owed exactly when the input is finite and the sink has
/// room for all of it.  A bounded sink that runs out of room stops the
/// copy with a write failure, having retained exactly the bytes that
/// fit; the counter only ever reports whole drained buffers, so on
/// failure the reported total is the last buffer boundary within the
/// sink's room.  A copy with no bound at all — an endless generator
/// into an unbounded sink — would never return, so it is excluded.
#[verifier::rlimit(100)]
pub fn copy_with_callback<F: Fn(u64)>(
    input: &mut InputSource,
    output: &mut OutputSource,
    config: ThreadedCopyConfig,
    callback: F,
) -> (outcome: CopyOutcome)
    requires
        old(input).wf(),
        old(output).wf(),
        config.buffer_size > 0,
        config.buffer_count > 0,
        old(input).is_finite() || old(output).spec_room() is Some,
        forall|d: u64| call_requires(callback, (d,)),
    ensures
        final(input).wf(),
        final(output).wf(),
        old(output).same_sink(*final(output)),
        outcome.failure is None <==> (old(input).is_finite() && (old(output).spec_room() is None
            || old(input).remaining().len() <= old(output).spec_room()->Some_0)),
        outcome.failure is None ==> {
            &&& final(input).remaining() == Seq::<u8>::empty()
            &&& (old(output).retains() ==> final(output).written_bytes()
                == old(output).written_bytes() + old(input).remaining())
            &&& (!old(output).retains() ==> *final(output) == *old(output))
            &&& outcome.bytes_reported as int == old(input).remaining().len() as int
        },
        outcome.failure is Some ==> {
            let room = old(output).spec_room()->Some_0 as int;
            &&& outcome.failure == Some(CopyError::WriteFailure)
            &&& old(output).spec_room() is Some
            &&& (old(output).retains() ==> final(output).written_bytes().len()
                == old(output).written_bytes().len() + room)
            &&& (old(output).retains() && old(input).is_finite()
                ==> final(output).written_bytes()
                == old(output).written_bytes() + old(input).remaining().take(room))
            &&& (old(output).retains() && *old(input) is DevZero
                ==> final(output).written_bytes()
                == old(output).written_bytes() + zero_bytes(room as nat))
            &&& (!old(output).retains() ==> *final(output) == *old(output))
            &&& outcome.bytes_reported as int % config.buffer_size as int == 0
            &&& room - config.buffer_size < outcome.bytes_reported as int <= room
        },
{
    let ghost s_all = old(input).remaining();
    let ghost w0 = old(output).written_bytes();
    let ghost room0 = old(output).spec_room();
    let bsize = config.buffer_size;
    let bcount = config.buffer_count;

    let mut empty_q: Vec<DataBuffer> = Vec::new();
    let mut i: usize = 0;
    while i < bcount
        invariant
            0 <= i <= bcount,
            empty_q@.len() == i,
            forall|j: int|
                0 <= j < empty_q@.len() ==> empty_q@[j].wf() && empty_q@[j].spec_capacity()
                    == bsize && empty_q@[j].bytes_used == 0,
        decreases bcount - i,
    {
        empty_q.push(DataBuffer::new(bsize));
        i += 1;
    }

    let mut full_q: Vec<DataBuffer> = Vec::new();
    let mut counter = TransferCounter::new();
    let mut tracker = ProgressTracker::new();
    let mut reader_done = false;
    let ghost mut consumed: Seq<u8> = Seq::<u8>::empty();
    let ghost mut delivered: Seq<u8> = Seq::<u8>::empty();

    // Reading the held length once pins the whole stream into the
    // machine's address space for the accounting below.
    let _held_len = input.remaining_len();
    proof {
        assert(inflight(full_q@) == Seq::<u8>::empty());
        assert(delivered + inflight(full_q@) =~= consumed);
        if old(input).is_finite() {
            assert(consumed =~= s_all.take(0));
            assert(input.remaining() =~= s_all.skip(0));
        } else {
            assert(s_all == Seq::<u8>::empty());
        }
        if *old(input) is DevZero {
            assert(consumed =~= zero_bytes(0));
        }
        assert(s_all.len() <= usize::MAX);
    }

    loop
        invariant
            bsize == config.buffer_size,
            bcount == config.buffer_count,
            bsize > 0,
            bcount > 0,
            forall|d: u64| call_requires(callback, (d,)),
            input.wf(),
            output.wf(),
            old(output).same_sink(*output),
            input.is_finite() == old(input).is_finite(),
            !old(input).is_finite() ==> *input == *old(input),
            s_all == old(input).remaining(),
            w0 == old(output).written_bytes(),
            room0 == old(output).spec_room(),
            s_all.len() <= usize::MAX,
            old(input).is_finite() ==> consumed.len() <= s_all.len() && consumed == s_all.take(
                consumed.len() as int,
            ) && input.remaining() == s_all.skip(consumed.len() as int),
            *old(input) is DevZero ==> consumed == zero_bytes(consumed.len()),
            reader_done ==> old(input).is_finite() && consumed == s_all,
            empty_q@.len() + full_q@.len() <= bcount,
            !reader_done ==> empty_q@.len() + full_q@.len() == bcount,
            forall|j: int|
                0 <= j < empty_q@.len() ==> empty_q@[j].wf() && empty_q@[j].spec_capacity()
                    == bsize && empty_q@[j].bytes_used == 0,
            forall|j: int|
                0 <= j < full_q@.len() ==> full_q@[j].wf() && full_q@[j].spec_capacity() == bsize
                    && full_q@[j].bytes_used > 0,
            forall|j: int| 0 <= j < full_q@.len() - 1 ==> full_q@[j].bytes_used == bsize,
            full_q@.len() > 0 && full_q@.last().bytes_used < bsize ==> old(input).is_finite()
                && consumed == s_all,
            delivered + inflight(full_q@) == consumed,
            delivered.len() <= consumed.len(),
            delivered.len() as int % bsize as int == 0 || (old(input).is_finite()
                && delivered.len() == s_all.len()),
            old(output).retains() ==> output.written_bytes() == w0 + delivered,
            !old(output).retains() ==> *output == *old(output),
            match room0 {
                None => output.spec_room() is None,
                Some(r) => delivered.len() <= r && output.spec_room() == Some(
                    (r - delivered.len()) as nat,
                ),
            },
            counter.total as int == delivered.len() as int,
            tracker.last_reported == counter.total,
            old(input).is_finite() || room0 is Some,
        ensures
            reader_done,
            full_q@.len() == 0,
        decreases copy_measure(
            old(input).is_finite(),
            s_all.len() as int,
            consumed.len() as int,
            delivered.len() as int,
            reader_done,
            empty_q@.len() as int,
            full_q@.len() as int,
            (if room0 is Some {
                room0->Some_0 as int
            } else {
                0int
            }),
            bcount as int,
        ),
    {
        if !reader_done && empty_q.len() > 0 {
            // Reader stage: take an empty buffer (or block at the
            // backpressure point), fill it, hand it to the writer.
            let buffer_opt = empty_q.pop();
            let mut buffer = buffer_opt.unwrap();
            let ghost rem_before = input.remaining();
            let n = input.read(&mut buffer.data);
            if n == 0 {
                // End of stream: stop reading; the buffer in hand
                // leaves the pool.
                proof {
                    if !old(input).is_finite() {
                        assert(false);
                    }
                    assert(input.remaining().len() == 0);
                    assert(consumed.len() == s_all.len());
                    assert(consumed =~= s_all);
                }
                reader_done = true;
            } else {
                buffer.bytes_used = n;
                proof {
                    let chunk = buffer.valid_part();
                    if old(input).is_finite() {
                        assert(chunk =~= rem_before.take(n as int));
                        assert(consumed + chunk =~= s_all.take(consumed.len() + n));
                        assert(input.remaining() =~= s_all.skip(consumed.len() + n));
                    }
                    if *old(input) is DevZero {
                        assert(chunk =~= zero_bytes(n as nat));
                        assert(consumed + chunk =~= zero_bytes((consumed.len() + n) as nat));
                    }
                    if full_q@.len() > 0 {
                        // The chunk before this one must be full-size:
                        // a short chunk only ever ends a finite stream.
                        assert(full_q@.last().bytes_used == bsize);
                    }
                    lemma_inflight_push(full_q@, buffer);
                    assert(delivered + inflight(full_q@.push(buffer)) =~= consumed + chunk);
                    consumed = consumed + chunk;
                }
                full_q.push(buffer);
            }
        } else if full_q.len() > 0 {
            // Writer stage: drain the oldest filled buffer, flush, count
            // it, report the delta, and replenish the pool.
            let ghost old_full = full_q@;
            let buffer = full_q.remove(0);
            proof {
                assert(full_q@ =~= old_full.drop_first());
                assert(inflight(old_full) == buffer.valid_part() + inflight(full_q@));
            }
            let ghost pre_out = *output;
            let res = output.write_all(buffer.as_slice());
            match res {
                Ok(()) => {
                    let _ = output.flush();
                    proof {
                        assert(usize::MAX as int <= u64::MAX as int);
                        if room0 is Some {
                            assert(delivered.len() + buffer.bytes_used <= room0->Some_0);
                        } else {
                            assert(delivered.len() + buffer.bytes_used <= consumed.len());
                            assert(consumed.len() <= s_all.len());
                        }
                    }
                    counter.add(buffer.bytes_used);
                    let current = counter.get();
                    let delta = tracker.sample(current);
                    if delta > 0 {
                        callback(delta);
                    }
                    empty_q.push(DataBuffer::new(bsize));
                    proof {
                        let chunk = buffer.valid_part();
                        let b = bsize as int;
                        let d = delivered.len() as int;
                        if buffer.bytes_used == bsize {
                            assert(d % b == 0 || (old(input).is_finite() && delivered.len()
                                == s_all.len()));
                            if old(input).is_finite() && delivered.len() == s_all.len() {
                                assert(consumed.len() >= delivered.len() + buffer.bytes_used);
                                assert(false);
                            }
                            assert((d + b) % b == 0) by (nonlinear_arith)
                                requires
                                    d % b == 0,
                                    b > 0,
                            ;
                        } else {
                            // A short chunk is the last of a finite
                            // stream, and then the queue held only it.
                            assert(old_full.len() == 1);
                            assert(inflight(full_q@) =~= Seq::<u8>::empty());
                            assert(delivered + chunk =~= consumed);
                        }
                        if old(output).retains() {
                            assert(pre_out.written_bytes() + chunk =~= w0 + (delivered + chunk));
                        }
                        delivered = delivered + chunk;
                        if !old(input).is_finite() {
                            let r = room0->Some_0 as int;
                            let bc = bcount as int;
                            let dnew = delivered.len() as int;
                            assert((r - dnew) * (bc + 1) + 2 <= (r - (dnew - buffer.bytes_used)) * (
                            bc + 1)) by (nonlinear_arith)
                                requires
                                    buffer.bytes_used >= 1,
                                    bc >= 1,
                            ;
                        }
                    }
                },
                Err(e) => {
                    // First failure wins: the writer records it and the
                    // whole pipeline shuts down.
                    let total = counter.get();
                    proof {
                        let chunk = buffer.valid_part();
                        let m = buffer.bytes_used as int;
                        let d = delivered.len() as int;
                        let room_cur = output.spec_room();
                        assert(room0 is Some);
                        let r = room0->Some_0 as int;
                        assert(inflight(old_full).len() >= m);
                        assert(consumed.len() >= d + m);
                        assert(m > r - d);
                        if old(input).is_finite() && delivered.len() == s_all.len() {
                            assert(false);
                        }
                        assert(d % (bsize as int) == 0);
                        assert(delivered =~= consumed.take(d));
                        assert(chunk =~= consumed.subrange(d, d + m));
                        if old(output).retains() {
                            assert(pre_out.written_bytes() + chunk.take(r - d) =~= w0
                                + consumed.take(r));
                            if old(input).is_finite() {
                                assert(consumed.take(r) =~= s_all.take(r));
                            }
                            if *old(input) is DevZero {
                                assert(consumed.take(r) =~= zero_bytes(r as nat));
                            }
                        }
                    }
                    return CopyOutcome { bytes_reported: total, failure: Some(e) };
                },
            }
        } else {
            break;
        }
    }
    proof {
        assert(inflight(full_q@) == Seq::<u8>::empty());
        assert(delivered =~= consumed);
        assert(final(input).remaining() =~= Seq::<u8>::empty());
        if old(output).retains() {
            assert(output.written_bytes() == w0 + s_all);
        }
    }
    let total = counter.get();
    CopyOutcome { bytes_reported: total, failure: None }
}

} // verus!
