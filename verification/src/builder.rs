//! Construction of a port that already holds its first response frames.

use std::collections::VecDeque;
use vstd::prelude::*;
use crate::model::PortState;
use crate::port::{frames_of, MockableSerial, SerialMock};

verus! {

/// Builds ports with response frames queued from the start.
pub struct MockableSerialBuilder {}

impl MockableSerialBuilder {
    /// The frames that a builder forwards to the port: those given, or none.
    pub open spec fn initial_frames(data: Option<VecDeque<Vec<u8>>>) -> Seq<Seq<u8>> {
        match data {
            Some(frames) => frames_of(frames@),
            None => Seq::empty(),
        }
    }

    /// Creates a port with the given configuration and enqueues each frame
    /// of `initial_response_data` on it, front first.
    pub fn new(
        address: &str,
        baud: u32,
        stop_byte: u8,
        read_n_bytes: u32,
        initial_response_data: Option<VecDeque<Vec<u8>>>,
    ) -> (port: MockableSerial)
        ensures
            port@ == PortState::fresh(address@, baud, stop_byte, read_n_bytes).enqueue_all(
                Self::initial_frames(initial_response_data),
            ),
    {
        let mut m = MockableSerial::new(address, baud, stop_byte, read_n_bytes);
        let ghost start = m@;
        assert(m@.queue =~= start.queue + Seq::<Seq<u8>>::empty());

        if let Some(r_data) = initial_response_data {
            let mut i: usize = 0;
            while i < r_data.len()
                invariant
                    i <= r_data.len(),
                    m@ == start.enqueue_all(frames_of(r_data@).subrange(0, i as int)),
                decreases r_data.len() - i,
            {
                m.add_response(r_data[i].as_slice());
                assert(frames_of(r_data@).subrange(0, i + 1)
                    =~= frames_of(r_data@).subrange(0, i as int).push(r_data@[i as int]@));
                assert(m@.queue =~= start.queue + frames_of(r_data@).subrange(0, i + 1));
                i += 1;
            }
            assert(frames_of(r_data@).subrange(0, i as int) =~= frames_of(r_data@));
        }
        m
    }
}

} // verus!
