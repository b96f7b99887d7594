//! What holds of every port, proved over the model that the operations'
//! contracts are stated in.

use vstd::prelude::*;
use crate::model::{well_framed, PortState};

verus! {

/// The configuration is fixed at construction: a new port has the values it
/// was given, and no enqueue, injected outcome or read changes them.
pub proof fn law_config_is_fixed(
    address: Seq<char>,
    baud: u32,
    stop_byte: u8,
    read_n_bytes: u32,
    s: PortState,
    frame: Seq<u8>,
    success: bool,
)
    ensures
        PortState::fresh(address, baud, stop_byte, read_n_bytes).config() == (
            address,
            baud,
            stop_byte,
            read_n_bytes,
        ),
        s.enqueue(frame).config() == s.config(),
        s.inject(success).config() == s.config(),
        s.after_read().config() == s.config(),
{
}

/// The cursor stays inside the active frame: this holds of a new port, and
/// every operation keeps it. A read that delivers the stop byte leaves the
/// port idle, whatever the queue holds.
pub proof fn law_cursor_stays_in_frame(
    address: Seq<char>,
    baud: u32,
    stop_byte: u8,
    read_n_bytes: u32,
    s: PortState,
    frame: Seq<u8>,
    success: bool,
)
    requires
        s.wf(),
    ensures
        PortState::fresh(address, baud, stop_byte, read_n_bytes).wf(),
        PortState::fresh(address, baud, stop_byte, read_n_bytes).idle(),
        s.active.len() == 0 ==> s.idle(),
        s.enqueue(frame).wf(),
        s.inject(success).wf(),
        s.can_read() ==> s.after_read().wf(),
        s.can_read() && s.next_byte() == s.stop_byte ==> s.after_read().idle(),
{
}

/// Enqueueing puts the frame at the back of the queue, byte for byte, and
/// leaves the frames before it, the active frame and the cursor as they were.
pub proof fn law_enqueue_appends(s: PortState, frame: Seq<u8>)
    ensures
        s.enqueue(frame).queue.len() == s.queue.len() + 1,
        s.enqueue(frame).queue.last() == frame,
        s.enqueue(frame).queue.drop_last() == s.queue,
        s.enqueue(frame).active == s.active,
        s.enqueue(frame).cursor == s.cursor,
        s.enqueue(frame).outcomes == s.outcomes,
{
    assert(s.enqueue(frame).queue.drop_last() =~= s.queue);
}

/// Enqueueing a collection of frames is enqueueing each of them in order.
pub proof fn law_enqueue_all_in_order(s: PortState, frames: Seq<Seq<u8>>, frame: Seq<u8>)
    ensures
        s.enqueue_all(Seq::empty()) == s,
        s.enqueue_all(frames.push(frame)) == s.enqueue_all(frames).enqueue(frame),
{
    assert(s.queue + Seq::<Seq<u8>>::empty() =~= s.queue);
    assert(s.queue + frames.push(frame) =~= (s.queue + frames).push(frame));
}

/// Reading `a` times and then `b` times is reading `a + b` times.
pub proof fn law_reads_compose(s: PortState, a: nat, b: nat)
    ensures
        s.after_reads(a).after_reads(b) == s.after_reads(a + b),
    decreases b,
{
    if b > 0 {
        law_reads_compose(s, a, (b - 1) as nat);
    }
}

/// Injected outcomes are reported one per read in the order in which they
/// were scheduled; once they are used up, every read reports the default.
pub proof fn law_outcomes_in_order(s: PortState, n: nat)
    ensures
        s.after_reads(n).default_success == s.default_success,
        s.after_reads(n).outcomes == s.outcomes.skip(
            if n <= s.outcomes.len() {
                n as int
            } else {
                s.outcomes.len() as int
            },
        ),
        s.nth_success(n) == if n < s.outcomes.len() {
            s.outcomes[n as int]
        } else {
            s.default_success
        },
    decreases n,
{
    if n == 0 {
        assert(s.outcomes.skip(0) =~= s.outcomes);
    } else {
        let before = s.after_reads((n - 1) as nat);
        law_outcomes_in_order(s, (n - 1) as nat);
        if n <= s.outcomes.len() {
            assert(before.outcomes.drop_first() =~= s.outcomes.skip(n as int));
        } else {
            assert(before.outcomes =~= s.outcomes.skip(s.outcomes.len() as int));
        }
    }
}

/// On an idle port whose front frame is complete, the first `k` reads, for
/// `k` short of the frame's length, leave that frame in flight at position
/// `k` with the rest of the queue untouched.
proof fn lemma_mid_frame(s: PortState, k: nat)
    requires
        s.idle(),
        s.queue.len() > 0,
        well_framed(s.queue[0], s.stop_byte),
        k < s.queue[0].len(),
    ensures
        s.after_reads(k).pulled().active == s.queue[0],
        s.after_reads(k).pulled().cursor == k,
        s.after_reads(k).pulled().queue == s.queue.drop_first(),
        s.after_reads(k).stop_byte == s.stop_byte,
        k > 0 ==> s.after_reads(k).active == s.queue[0],
    decreases k,
{
    if k > 0 {
        lemma_mid_frame(s, (k - 1) as nat);
    }
}

/// A complete frame is delivered whole: on an idle port whose front frame is
/// complete, as many reads as the frame has bytes deliver exactly its bytes
/// in order. Until the last of them the rest of the queue is untouched, and
/// after it the port is idle again with that frame gone from the queue, so
/// that the next read starts the next frame.
pub proof fn law_frame_is_delivered_whole(s: PortState)
    requires
        s.idle(),
        s.queue.len() > 0,
        well_framed(s.queue[0], s.stop_byte),
    ensures
        forall|k: nat| k < s.queue[0].len() ==> (#[trigger] s.after_reads(k)).can_read(),
        s.bytes_read(s.queue[0].len()) == s.queue[0],
        forall|k: nat|
            0 < k < s.queue[0].len() ==> (#[trigger] s.after_reads(k)).active == s.queue[0]
                && s.after_reads(k).queue == s.queue.drop_first(),
        s.after_reads(s.queue[0].len()).idle(),
        s.after_reads(s.queue[0].len()).queue == s.queue.drop_first(),
        s.after_reads(s.queue[0].len()).config() == s.config(),
{
    let frame = s.queue[0];
    assert forall|k: nat| k < frame.len() implies (#[trigger] s.after_reads(k)).can_read()
        && s.after_reads(k).next_byte() == frame[k as int] && (k > 0 ==> s.after_reads(k).active
        == frame && s.after_reads(k).queue == s.queue.drop_first()) by {
        lemma_mid_frame(s, k);
    }
    assert forall|k: int| 0 <= k < frame.len() implies s.bytes_read(frame.len())[k]
        == frame[k] by {
        assert(s.after_reads(k as nat).next_byte() == frame[k]);
    }
    assert(s.bytes_read(frame.len()) =~= frame);
    lemma_mid_frame(s, (frame.len() - 1) as nat);
    law_config_survives_reads(s, frame.len());
}

/// No number of reads changes the configuration.
pub proof fn law_config_survives_reads(s: PortState, n: nat)
    ensures
        s.after_reads(n).config() == s.config(),
    decreases n,
{
    if n > 0 {
        law_config_survives_reads(s, (n - 1) as nat);
    }
}

/// Frames arrive first in, first out: on an idle port whose two front frames
/// are complete, the reads deliver every byte of the first frame before any
/// byte of the second, then the second frame whole, and leave the port idle
/// with both frames gone from the queue.
pub proof fn law_frames_arrive_in_order(s: PortState)
    requires
        s.idle(),
        s.queue.len() > 1,
        well_framed(s.queue[0], s.stop_byte),
        well_framed(s.queue[1], s.stop_byte),
    ensures
        s.bytes_read(s.queue[0].len()) == s.queue[0],
        s.after_reads(s.queue[0].len()).bytes_read(s.queue[1].len()) == s.queue[1],
        s.bytes_read(s.queue[0].len() + s.queue[1].len()) == s.queue[0] + s.queue[1],
        s.after_reads(s.queue[0].len() + s.queue[1].len()).idle(),
        s.after_reads(s.queue[0].len() + s.queue[1].len()).queue == s.queue.skip(2),
{
    let first = s.queue[0];
    let second = s.queue[1];
    let mid = s.after_reads(first.len());
    law_frame_is_delivered_whole(s);
    assert(mid.queue[0] == second);
    law_frame_is_delivered_whole(mid);
    law_reads_compose(s, first.len(), second.len());
    assert(s.queue.drop_first().drop_first() =~= s.queue.skip(2));
    assert forall|k: int| 0 <= k < first.len() + second.len() implies s.bytes_read(
        first.len() + second.len(),
    )[k] == (first + second)[k] by {
        if k < first.len() {
            assert(s.bytes_read(first.len())[k] == first[k]);
        } else {
            law_reads_compose(s, first.len(), (k - first.len()) as nat);
            assert(mid.bytes_read(second.len())[k - first.len()] == second[k - first.len()]);
        }
    }
    assert(s.bytes_read(first.len() + second.len()) =~= first + second);
}

/// The queue is delivered front first, frame by frame: on an idle port whose
/// first `n` queued frames are complete, the reads deliver the bytes of those
/// frames one frame after the other, none interleaved with another, and
/// leave the port idle with the remaining frames queued.
pub proof fn law_queue_is_delivered_in_order(s: PortState, n: nat)
    requires
        s.idle(),
        n <= s.queue.len(),
        forall|i: int| 0 <= i < n ==> well_framed(#[trigger] s.queue[i], s.stop_byte),
    ensures
        s.bytes_read(s.queue.take(n as int).flatten().len()) == s.queue.take(n as int).flatten(),
        s.after_reads(s.queue.take(n as int).flatten().len()).idle(),
        s.after_reads(s.queue.take(n as int).flatten().len()).queue == s.queue.skip(n as int),
    decreases n,
{
    let frames = s.queue.take(n as int);
    let total = frames.flatten().len();
    if n == 0 {
        assert(s.bytes_read(0) =~= frames.flatten());
        assert(s.queue.skip(0) =~= s.queue);
    } else {
        let first = s.queue[0];
        let mid = s.after_reads(first.len());
        law_frame_is_delivered_whole(s);
        assert forall|i: int| 0 <= i < n - 1 implies well_framed(
            #[trigger] mid.queue[i],
            mid.stop_byte,
        ) by {
            assert(mid.queue[i] == s.queue[i + 1]);
        }
        law_queue_is_delivered_in_order(mid, (n - 1) as nat);
        let rest = mid.queue.take(n - 1);
        assert(frames.drop_first() =~= rest);
        assert(frames.flatten() == first + rest.flatten());
        law_reads_compose(s, first.len(), rest.flatten().len());
        assert forall|k: int| 0 <= k < total implies s.bytes_read(total)[k]
            == frames.flatten()[k] by {
            if k < first.len() {
                assert(s.bytes_read(first.len())[k] == first[k]);
            } else {
                law_reads_compose(s, first.len(), (k - first.len()) as nat);
                assert(mid.bytes_read(rest.flatten().len())[k - first.len()]
                    == rest.flatten()[k - first.len()]);
            }
        }
        assert(s.bytes_read(total) =~= frames.flatten());
        assert(mid.queue.skip(n - 1) =~= s.queue.skip(n as int));
    }
}

} // verus!
