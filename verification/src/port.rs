//! The mock port: queued response frames delivered one byte per read.

use std::collections::VecDeque;
use vstd::prelude::*;
use crate::failure::other_error;
use crate::model::PortState;

verus! {

/// The views of the frames held in a queue, front first.
pub open spec fn frames_of(queue: Seq<Vec<u8>>) -> Seq<Seq<u8>> {
    queue.map_values(|frame: Vec<u8>| frame@)
}

/// A stand-in for a serial port whose answers are scripted in advance.
pub struct MockableSerial {
    address: String,
    baud: u32,
    actual_success: bool,
    actual_response: Vec<u8>,
    response_queue: VecDeque<Vec<u8>>,
    success_queue: VecDeque<bool>,
    stop_byte: u8,
    read_n_bytes: u32,
    last_read_index: usize,
}

impl View for MockableSerial {
    type V = PortState;

    closed spec fn view(&self) -> PortState {
        PortState {
            address: self.address@,
            baud: self.baud,
            stop_byte: self.stop_byte,
            read_n_bytes: self.read_n_bytes,
            default_success: self.actual_success,
            outcomes: self.success_queue@,
            active: self.actual_response@,
            cursor: self.last_read_index as nat,
            queue: frames_of(self.response_queue@),
        }
    }
}

/// What a serial port offers to the code that talks through it, together
/// with the one operation by which a test scripts the device's answers.
pub trait SerialMock: Sized {
    /// A read has a byte to deliver.
    spec fn can_read(&self) -> bool;

    /// Creates a port with the given configuration.
    fn new(address: &str, baud: u32, stop_byte: u8, read_n_bytes: u32) -> Self;

    /// Opens a handle: an independent port in the same state.
    fn open_native(&self) -> Self;

    /// Sends bytes to the device.
    fn write(&self, _b: &Vec<u8>) -> Result<(), std::io::Error>;

    /// Reads the next byte into `buff[0]`.
    fn read(&mut self, buff: &mut [u8]) -> Result<(), std::io::Error>
        requires
            old(self).can_read(),
            old(buff).len() >= 1,
    ;

    /// Appends a copy of `r` to the frames that the device will answer with.
    fn add_response(&mut self, r: &[u8]);
}

impl MockableSerial {
    /// The identifier that the port was created with.
    pub fn address(&self) -> (address: &str)
        ensures
            address@ == self@.address,
    {
        self.address.as_str()
    }

    /// The baud rate that the port was created with.
    pub fn baud(&self) -> (baud: u32)
        ensures
            baud == self@.baud,
    {
        self.baud
    }

    /// The byte that ends a frame.
    pub fn stop_byte(&self) -> (stop_byte: u8)
        ensures
            stop_byte == self@.stop_byte,
    {
        self.stop_byte
    }

    /// The chunk size that the port was created with.
    pub fn read_n_bytes(&self) -> (read_n_bytes: u32)
        ensures
            read_n_bytes == self@.read_n_bytes,
    {
        self.read_n_bytes
    }

    /// The frames that no read has started yet, front first.
    pub fn response_queue(&self) -> (queue: &VecDeque<Vec<u8>>)
        ensures
            frames_of(queue@) == self@.queue,
    {
        &self.response_queue
    }

    /// Whether a read has a byte to deliver: a frame is in flight with bytes
    /// left, or none is in flight and the frame at the front of the queue is
    /// not empty.
    pub fn is_readable(&self) -> (readable: bool)
        ensures
            readable == self@.can_read(),
    {
        if self.actual_response.is_empty() {
            self.response_queue.len() > 0 && self.response_queue[0].len() > 0
        } else {
            self.last_read_index < self.actual_response.len()
        }
    }

    /// Schedules the outcome of one more upcoming read: reads report the
    /// scheduled outcomes in the order in which they were added, one each,
    /// and the default once none is left.
    pub fn add_outcome(&mut self, success: bool)
        ensures
            final(self)@ == old(self)@.inject(success),
            old(self)@.wf() ==> final(self)@.wf(),
    {
        self.success_queue.push_back(success);
    }
}

impl SerialMock for MockableSerial {
    open spec fn can_read(&self) -> bool {
        self@.can_read()
    }

    fn new(address: &str, baud: u32, stop_byte: u8, read_n_bytes: u32) -> (port: Self)
        ensures
            port@ == PortState::fresh(address@, baud, stop_byte, read_n_bytes),
            port@.wf(),
    {
        let port = Self {
            address: address.to_owned(),
            baud,
            stop_byte,
            read_n_bytes,
            actual_success: true,
            actual_response: Vec::new(),
            response_queue: VecDeque::new(),
            last_read_index: 0,
            success_queue: VecDeque::new(),
        };
        assert(port@.queue =~= Seq::<Seq<u8>>::empty());
        port
    }

    fn open_native(&self) -> (copy: Self)
        ensures
            copy@ == self@,
    {
        let copy = Self {
            address: self.address.clone(),
            baud: self.baud,
            stop_byte: self.stop_byte,
            read_n_bytes: self.read_n_bytes,
            actual_success: self.actual_success,
            actual_response: self.actual_response.clone(),
            response_queue: self.response_queue.clone(),
            last_read_index: self.last_read_index,
            success_queue: self.success_queue.clone(),
        };
        assert(copy@.queue =~= self@.queue);
        assert(copy@.outcomes =~= self@.outcomes);
        assert(copy@.active =~= self@.active);
        copy
    }

    fn write(&self, _b: &Vec<u8>) -> (res: Result<(), std::io::Error>)
        ensures
            res is Ok,
    {
        Ok(())
    }

    fn read(&mut self, buff: &mut [u8]) -> (res: Result<(), std::io::Error>)
        ensures
            final(self)@ == old(self)@.after_read(),
            old(self)@.wf() ==> final(self)@.wf(),
            final(buff)@ == old(buff)@.update(0, old(self)@.next_byte()),
            res is Ok <==> old(self)@.next_success(),
    {
        if self.actual_response.is_empty() {
            if let Some(frame) = self.response_queue.pop_front() {
                self.last_read_index = 0;
                self.actual_response = frame;
            }
        }
        assert(self@.queue =~= old(self)@.pulled().queue);
        assert(self@ == old(self)@.pulled());
        let v = self.actual_response[self.last_read_index];
        buff[0] = v;

        if v == self.stop_byte {
            self.last_read_index = 0;
            self.actual_response.clear();
        } else {
            assert(self.actual_response.len() <= usize::MAX);
            self.last_read_index += 1;
        }

        let success = match self.success_queue.pop_front() {
            Some(outcome) => outcome,
            None => self.actual_success,
        };
        assert(self@.outcomes =~= old(self)@.after_read().outcomes);
        assert(self@.active =~= old(self)@.after_read().active);
        if success {
            Ok(())
        } else {
            Err(other_error("An error"))
        }
    }

    fn add_response(&mut self, r: &[u8])
        ensures
            final(self)@ == old(self)@.enqueue(r@),
            old(self)@.wf() ==> final(self)@.wf(),
    {
        let mut new_resp: Vec<u8> = Vec::with_capacity(r.len());
        let mut i: usize = 0;
        while i < r.len()
            invariant
                i <= r.len(),
                new_resp@ == r@.subrange(0, i as int),
            decreases r.len() - i,
        {
            new_resp.push(r[i]);
            i += 1;
        }
        assert(new_resp@ =~= r@);
        self.response_queue.push_back(new_resp);
        assert(self@.queue =~= old(self)@.queue.push(r@));
    }
}

} // verus!
