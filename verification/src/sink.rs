//! Byte destinations for the encoder. The same serialization routine runs
//! against any of them: a buffer that keeps the bytes, or the counting
//! sink that discards them and only tracks the position, which the
//! measurement pass of the two-pass writer uses.

use vstd::prelude::*;

verus! {

/// Why a document could not be encoded.
#[derive(Clone, Copy, Debug, PartialEq, Eq, Structural)]
pub enum LOEncodeError {
    /// A length or position does not fit the format's 32-bit fields.
    TooLarge,
    /// The document tree is inconsistent with itself: a layer's tile list
    /// does not match its declared dimensions, or the position log does
    /// not line up with the stems. Aborting beats writing a corrupt file.
    StructureMismatch,
}

impl LOEncodeError {
    /// A short description of the failure.
    pub fn message(&self) -> &'static str {
        match self {
            LOEncodeError::TooLarge => "value does not fit the format's 32-bit fields",
            LOEncodeError::StructureMismatch => "document tree is inconsistent",
        }
    }
}

/// A destination the encoder writes into. `out` is everything written so
/// far; a sink keeps at most `u64::MAX` bytes of position and must accept
/// any write that stays under that.
pub trait ByteSink: Sized {
    spec fn out(&self) -> Seq<u8>;

    spec fn inv(&self) -> bool;

    fn write_all(&mut self, data: &[u8]) -> (r: Result<(), LOEncodeError>)
        requires
            old(self).inv(),
        ensures
            final(self).inv(),
            r is Ok ==> final(self).out() == old(self).out() + data@,
            r is Err ==> final(self).out() == old(self).out(),
            old(self).out().len() + data@.len() <= u64::MAX ==> r is Ok,
    ;

    fn stream_position(&self) -> (r: u64)
        requires
            self.inv(),
        ensures
            r as nat == self.out().len(),
    ;
}

/// A sink that keeps the bytes in memory.
pub struct VecSink {
    data: Vec<u8>,
}

impl VecSink {
    pub fn new() -> (r: VecSink)
        ensures
            r.inv(),
            r.out() == Seq::<u8>::empty(),
    {
        VecSink { data: Vec::new() }
    }

    /// Hands the written bytes out.
    pub fn into_bytes(self) -> (r: Vec<u8>)
        ensures
            r@ == self.out(),
    {
        self.data
    }
}

impl ByteSink for VecSink {
    closed spec fn out(&self) -> Seq<u8> {
        self.data@
    }

    closed spec fn inv(&self) -> bool {
        true
    }

    fn write_all(&mut self, data: &[u8]) -> (r: Result<(), LOEncodeError>) {
        self.data.extend_from_slice(data);
        Ok(())
    }

    fn stream_position(&self) -> (r: u64) {
        self.data.len() as u64
    }
}

/// A sink that discards every byte and only counts them: the measurement
/// pass runs the serializer against it to learn record positions before
/// anything is really written.
pub struct NullSink {
    position: u64,
    written: Ghost<Seq<u8>>,
}

impl NullSink {
    pub fn new() -> (r: NullSink)
        ensures
            r.inv(),
            r.out() == Seq::<u8>::empty(),
    {
        NullSink { position: 0, written: Ghost(Seq::empty()) }
    }
}

impl ByteSink for NullSink {
    closed spec fn out(&self) -> Seq<u8> {
        self.written@
    }

    closed spec fn inv(&self) -> bool {
        self.position == self.written@.len()
    }

    fn write_all(&mut self, data: &[u8]) -> (r: Result<(), LOEncodeError>) {
        match self.position.checked_add(data.len() as u64) {
            Some(p) => {
                self.position = p;
                self.written = Ghost(self.written@ + data@);
                Ok(())
            },
            None => Err(LOEncodeError::TooLarge),
        }
    }

    fn stream_position(&self) -> (r: u64) {
        self.position
    }
}

/// The ordered log of stem-record boundary positions that the measurement
/// pass accumulates. One log lives for exactly one encode call; it is
/// created empty, filled by the pass, drained by the patching step, and
/// dropped.
pub struct PositionLog {
    pub positions: Vec<u64>,
}

impl PositionLog {
    pub fn new() -> (r: PositionLog)
        ensures
            r.positions@ == Seq::<u64>::empty(),
    {
        PositionLog { positions: Vec::new() }
    }
}

} // verus!
