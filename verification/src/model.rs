//! The mathematical model of a mock port: its abstract state and the
//! transitions that the executable operations realise.

use vstd::prelude::*;

verus! {

/// The abstract state of a mock port.
pub struct PortState {
    /// Identifier of the port; stored, never interpreted.
    pub address: Seq<char>,
    /// Configured baud rate; stored, never enforced.
    pub baud: u32,
    /// The byte that ends a frame.
    pub stop_byte: u8,
    /// Configured chunk size; stored, reads stay single-byte.
    pub read_n_bytes: u32,
    /// Outcome reported by a read when no outcome was injected for it.
    pub default_success: bool,
    /// Outcomes injected for upcoming reads, first in first out.
    pub outcomes: Seq<bool>,
    /// The frame being delivered; empty when none is in progress.
    pub active: Seq<u8>,
    /// Position in `active` of the next byte to deliver.
    pub cursor: nat,
    /// Frames not yet started, first in first out.
    pub queue: Seq<Seq<u8>>,
}

/// A complete frame: it ends with the stop byte and holds it nowhere else.
pub open spec fn well_framed(frame: Seq<u8>, stop_byte: u8) -> bool {
    &&& frame.len() > 0
    &&& frame.last() == stop_byte
    &&& forall|i: int| 0 <= i < frame.len() - 1 ==> frame[i] != stop_byte
}

impl PortState {
    /// The state of a newly constructed port: nothing queued, nothing in
    /// flight, reads succeed.
    pub open spec fn fresh(address: Seq<char>, baud: u32, stop_byte: u8, read_n_bytes: u32) -> Self {
        PortState {
            address,
            baud,
            stop_byte,
            read_n_bytes,
            default_success: true,
            outcomes: Seq::empty(),
            active: Seq::empty(),
            cursor: 0,
            queue: Seq::empty(),
        }
    }

    /// The cursor never passes the end of the active frame; in particular it
    /// is zero while no frame is in progress.
    pub open spec fn wf(self) -> bool {
        self.cursor <= self.active.len()
    }

    /// No frame is in progress.
    pub open spec fn idle(self) -> bool {
        self.active.len() == 0 && self.cursor == 0
    }

    /// The four values fixed at construction.
    pub open spec fn config(self) -> (Seq<char>, u32, u8, u32) {
        (self.address, self.baud, self.stop_byte, self.read_n_bytes)
    }

    /// The state after `frame` was appended to the back of the queue.
    pub open spec fn enqueue(self, frame: Seq<u8>) -> Self {
        PortState { queue: self.queue.push(frame), ..self }
    }

    /// The state after each of `frames` was appended to the back of the
    /// queue, in order.
    pub open spec fn enqueue_all(self, frames: Seq<Seq<u8>>) -> Self {
        PortState { queue: self.queue + frames, ..self }
    }

    /// The state after `success` was scheduled as the outcome of one more
    /// upcoming read.
    pub open spec fn inject(self, success: bool) -> Self {
        PortState { outcomes: self.outcomes.push(success), ..self }
    }

    /// The state once a read has made sure a frame is in flight: with no
    /// active frame and a non-empty queue, the front frame becomes active.
    pub open spec fn pulled(self) -> Self {
        if self.active.len() == 0 && self.queue.len() > 0 {
            PortState { active: self.queue[0], cursor: 0, queue: self.queue.drop_first(), ..self }
        } else {
            self
        }
    }

    /// A read has a byte to deliver.
    pub open spec fn can_read(self) -> bool {
        self.pulled().cursor < self.pulled().active.len()
    }

    /// The byte that the next read delivers.
    pub open spec fn next_byte(self) -> u8
        recommends
            self.can_read(),
    {
        self.pulled().active[self.pulled().cursor as int]
    }

    /// Whether the next read reports success: the oldest injected outcome,
    /// or the default when none is pending.
    pub open spec fn next_success(self) -> bool {
        if self.outcomes.len() > 0 {
            self.outcomes[0]
        } else {
            self.default_success
        }
    }

    /// The state after one read.
    pub open spec fn after_read(self) -> Self
        recommends
            self.can_read(),
    {
        let p = self.pulled();
        let done = self.next_byte() == self.stop_byte;
        PortState {
            active: if done { Seq::empty() } else { p.active },
            cursor: if done { 0 } else { p.cursor + 1 },
            outcomes: if self.outcomes.len() > 0 { self.outcomes.drop_first() } else { self.outcomes },
            ..p
        }
    }

    /// Whether the read after `n` reads reports success.
    pub open spec fn nth_success(self, n: nat) -> bool {
        self.after_reads(n).next_success()
    }

    /// The bytes that the first `n` reads deliver, in order.
    pub open spec fn bytes_read(self, n: nat) -> Seq<u8> {
        Seq::new(n, |k: int| self.after_reads(k as nat).next_byte())
    }

    /// The state after `n` reads in a row.
    pub open spec fn after_reads(self, n: nat) -> Self
        decreases n,
    {
        if n == 0 {
            self
        } else {
            self.after_reads((n - 1) as nat).after_read()
        }
    }
}

} // verus!
