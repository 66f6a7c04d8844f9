//! The codecs, one per wire format, and the contracts that they share.

use vstd::prelude::*;

pub mod fast;
pub mod json;
pub mod json_laws;
pub mod tagvalue;

verus! {

/// A sink that an encoder writes into.
pub trait Buffer {
    /// What the sink holds.
    spec fn contents(&self) -> Seq<u8>;

    /// Whether the sink, as it is, takes `data`.
    spec fn accepts(&self, data: Seq<u8>) -> bool;

    /// What the sink holds, as a slice.
    fn as_slice(&self) -> (r: &[u8])
        ensures
            r@ == self.contents(),
    ;

    /// Appends `data` where the sink takes it; else rejects it and stays as
    /// it is.
    fn extend(&mut self, data: &[u8]) -> (accepted: bool)
        ensures
            accepted == old(self).accepts(data@),
            accepted ==> final(self).contents() == old(self).contents() + data@,
            !accepted ==> final(self).contents() == old(self).contents(),
    ;
}

impl Buffer for Vec<u8> {
    open spec fn contents(&self) -> Seq<u8> {
        self@
    }

    /// A vector takes whatever it is given.
    open spec fn accepts(&self, data: Seq<u8>) -> bool {
        true
    }

    fn as_slice(&self) -> (r: &[u8]) {
        Vec::as_slice(self)
    }

    fn extend(&mut self, data: &[u8]) -> (accepted: bool) {
        self.extend_from_slice(data);
        true
    }
}

/// A sink that takes bytes up to a limit and rejects what would go beyond
/// it.
#[derive(Debug)]
pub struct BoundedBuffer {
    bytes: Vec<u8>,
    limit: usize,
}

impl BoundedBuffer {
    /// The most bytes that the sink takes.
    pub closed spec fn limit(&self) -> usize {
        self.limit
    }

    /// What the sink holds.
    pub closed spec fn bytes(&self) -> Seq<u8> {
        self.bytes@
    }

    /// An empty sink that takes up to `limit` bytes.
    pub fn new(limit: usize) -> (r: BoundedBuffer)
        ensures
            r.limit() == limit,
            r.bytes() == Seq::<u8>::empty(),
    {
        BoundedBuffer { bytes: Vec::new(), limit }
    }

    /// The number of bytes that the sink holds.
    pub fn len(&self) -> (r: usize)
        ensures
            r == self.bytes().len(),
    {
        self.bytes.len()
    }
}

impl Buffer for BoundedBuffer {
    closed spec fn contents(&self) -> Seq<u8> {
        self.bytes@
    }

    /// The sink takes what does not go beyond its limit.
    open spec fn accepts(&self, data: Seq<u8>) -> bool {
        self.contents().len() + data.len() <= self.limit()
    }

    fn as_slice(&self) -> (r: &[u8]) {
        self.bytes.as_slice()
    }

    fn extend(&mut self, data: &[u8]) -> (accepted: bool)
        ensures
            final(self).limit() == old(self).limit(),
    {
        if data.len() <= self.limit && self.bytes.len() <= self.limit - data.len() {
            self.bytes.extend_from_slice(data);
            true
        } else {
            false
        }
    }
}

/// A device that reads messages of type `M` from bytes. The message that a
/// call hands out stays available until the next call.
pub trait Decoder<M> {
    /// Why a message is rejected.
    type Error;

    /// Reads one message from `data`.
    fn decode(&mut self, data: &[u8]) -> Result<&M, Self::Error>;
}

/// A device that writes messages of type `M` as bytes.
pub trait Encoder<M> {
    /// Why a message cannot be written.
    type Error;

    /// Appends the encoding of `message` to `buffer` and returns the number
    /// of bytes written.
    fn encode<B: Buffer>(&mut self, buffer: &mut B, message: &M) -> Result<usize, Self::Error>;
}

} // verus!
