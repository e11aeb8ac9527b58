//! The input buffer: the bytes that have been received from the modem and
//! not yet consumed.
//!
//! Whoever reads the serial line appends what arrives and takes frames out
//! until none is complete. The buffer has a fixed capacity. Bytes that do not
//! fit are refused as a whole and reported, never dropped in silence: the
//! stream is then beyond repair, and it is for the caller to start over.
use vstd::prelude::*;
use crate::digester::{digest_spec, Classification, Digested, MokoDigester, Verdict};
use crate::wire::{append, to_vec};

verus! {

/// More bytes came than the input buffer has room for.
#[derive(Clone, Copy, Debug, PartialEq, Eq, Structural)]
pub struct Overflow;

/// A frame taken out of the input buffer.
#[derive(Clone, Debug, PartialEq, Eq)]
pub struct Received {
    pub class: Classification,
    pub payload: Vec<u8>,
}

/// The bytes received and not yet consumed, in the order of their arrival.
///
/// A buffer starts empty, grows only by `append`, which refuses what does not
/// fit, and so never holds more bytes than its capacity.
pub struct InputBuffer {
    bytes: Vec<u8>,
    capacity: usize,
}

impl View for InputBuffer {
    type V = Seq<u8>;

    closed spec fn view(&self) -> Seq<u8> {
        self.bytes@
    }
}

impl InputBuffer {
    /// The most bytes that the buffer holds.
    pub closed spec fn limit(&self) -> nat {
        self.capacity as nat
    }

    /// An empty buffer that holds up to `capacity` bytes.
    pub fn new(capacity: usize) -> (r: Self)
        ensures
            r@ == Seq::<u8>::empty(),
            r.limit() == capacity,
    {
        Self { bytes: Vec::new(), capacity }
    }

    /// The most bytes that the buffer holds.
    pub fn capacity(&self) -> (r: usize)
        ensures
            r == self.limit(),
    {
        self.capacity
    }

    /// The number of bytes in the buffer.
    pub fn len(&self) -> (r: usize)
        ensures
            r == self@.len(),
    {
        self.bytes.len()
    }

    /// The bytes in the buffer.
    pub fn pending(&self) -> (r: &[u8])
        ensures
            r@ == self@,
    {
        self.bytes.as_slice()
    }

    /// Appends `chunk` if the buffer has room for all of it, and reports an
    /// overflow and leaves the buffer as it is if not.
    pub fn append(&mut self, chunk: &[u8]) -> (r: Result<(), Overflow>)
        ensures
            final(self).limit() == old(self).limit(),
            r is Ok <==> old(self)@.len() + chunk@.len() <= old(self).limit(),
            r is Ok ==> final(self)@ == old(self)@ + chunk@,
            r is Err ==> final(self)@ == old(self)@,
    {
        if self.bytes.len() > self.capacity || chunk.len() > self.capacity - self.bytes.len() {
            return Err(Overflow);
        }
        append(&mut self.bytes, chunk);
        Ok(())
    }

    /// Drops the first `n` bytes, or all bytes if there are fewer.
    pub fn discard(&mut self, n: usize)
        ensures
            final(self).limit() == old(self).limit(),
            final(self)@ == if n <= old(self)@.len() {
                old(self)@.subrange(n as int, old(self)@.len() as int)
            } else {
                Seq::<u8>::empty()
            },
    {
        if n >= self.bytes.len() {
            self.bytes.clear();
            assert(old(self)@.subrange(old(self)@.len() as int, old(self)@.len() as int)
                =~= Seq::<u8>::empty());
        } else {
            let rest = self.bytes.split_off(n);
            self.bytes = rest;
        }
    }

    /// Takes the first frame out of the buffer, if the buffer begins with a
    /// complete frame, and leaves the buffer as it is if not.
    ///
    /// The frame is what the digester makes of the buffer; the bytes that it
    /// takes up leave the buffer, and what stood behind them stays.
    pub fn take_frame(&mut self, digester: &mut MokoDigester) -> (r: Option<Received>)
        ensures
            final(self).limit() == old(self).limit(),
            match r {
                Some(frame) => exists|n: int|
                    {
                        &&& 1 <= n <= old(self)@.len()
                        &&& #[trigger] digest_spec(old(self)@) == Some(
                            Digested { class: frame.class, payload: frame.payload@, consumed: n },
                        )
                        &&& final(self)@ == old(self)@.subrange(n, old(self)@.len() as int)
                    },
                None => digest_spec(old(self)@) is None && final(self)@ == old(self)@,
            },
    {
        let (verdict, consumed) = digester.digest(self.bytes.as_slice());
        match verdict {
            Verdict::Incomplete => None,
            Verdict::Matched { class, payload } => {
                let frame = Received { class, payload: to_vec(payload) };
                self.discard(consumed);
                Some(frame)
            },
        }
    }
}

} // verus!
