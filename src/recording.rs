use vstd::prelude::*;

use crate::RegisterWrite;

verus! {

/// A bus that does no I/O: it keeps every write it is handed, and fails the
/// transaction with the given number, counting from 0, if there is one. For
/// driving the library without hardware.
pub struct RecordingBus {
    accepted: Vec<(u8, Vec<u8>)>,
    attempts: usize,
    fail_at: Option<usize>,
    record: Ghost<Seq<(u8, Seq<u8>, Result<(), usize>)>>,
}

impl RecordingBus {
    /// A bus on which every write succeeds.
    pub fn new() -> (r: RecordingBus)
        ensures
            r.transactions() == Seq::<(u8, Seq<u8>, Result<(), usize>)>::empty(),
    {
        RecordingBus { accepted: Vec::new(), attempts: 0, fail_at: None, record: Ghost(Seq::empty()) }
    }

    /// A bus on which the transaction numbered `n` fails with error `n`.
    pub fn failing_at(n: usize) -> (r: RecordingBus)
        ensures
            r.transactions() == Seq::<(u8, Seq<u8>, Result<(), usize>)>::empty(),
    {
        RecordingBus { accepted: Vec::new(), attempts: 0, fail_at: Some(n), record: Ghost(Seq::empty()) }
    }

    /// The writes that succeeded, oldest first, each with its device address.
    pub fn accepted(&self) -> &Vec<(u8, Vec<u8>)> {
        &self.accepted
    }

    /// How many transactions were attempted.
    pub fn attempts(&self) -> usize {
        self.attempts
    }
}

impl RegisterWrite for RecordingBus {
    type Error = usize;

    closed spec fn transactions(&self) -> Seq<(u8, Seq<u8>, Result<(), usize>)> {
        self.record@
    }

    fn write(&mut self, address: u8, bytes: &[u8]) -> (r: Result<(), usize>) {
        let n = self.attempts;
        let fails = match self.fail_at {
            Some(k) => k == n,
            None => false,
        };
        let r = if fails {
            Err(n)
        } else {
            self.accepted.push((address, vstd::slice::slice_to_vec(bytes)));
            Ok(())
        };
        self.attempts = if n < usize::MAX {
            n + 1
        } else {
            n
        };
        self.record = Ghost(self.record@.push((address, bytes@, r)));
        r
    }
}

} // verus!
