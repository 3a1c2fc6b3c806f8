//! The chunked transfer protocol: its messages, their encoding, and the two
//! state machines that move a payload to and from the peripheral.

use crate::error::{Fault, TransferError};
use crate::transmission::read::{request_frame, ReadRequest};
use crate::transmission::write::{start_frame, WriteState, WriteTransfer};
use vstd::prelude::*;

pub mod laws;
pub mod meta;
pub mod msg;
pub mod read;
pub mod write;

verus! {

/// A value with a fixed encoding on the wire.
///
/// `parse` and `encoding` are the mathematical statement of the format;
/// `from_data` and `bytes` are the code that implements it. Every
/// implementation proves that a value's own encoding parses back to it.
pub trait DataFromBytes: Sized + View {
    /// The bytes that carry `v`.
    spec fn encoding(v: Self::V) -> Seq<u8>;

    /// The value at the head of `data` and the bytes that follow it, or
    /// `None` where `data` does not start with a value.
    spec fn parse(data: Seq<u8>) -> Option<(Self::V, Seq<u8>)>;

    /// What `encoding` writes, `parse` reads back, and nothing is left over.
    proof fn lemma_parse_encoding(v: Self::V)
        ensures
            Self::parse(Self::encoding(v)) == Some((v, Seq::<u8>::empty())),
    ;

    /// Splits `value` into the value at its head and the bytes after it.
    fn from_data(value: &[u8]) -> (r: (Self, &[u8]))
        requires
            Self::parse(value@) is Some,
        ensures
            Self::parse(value@) == Some((r.0@, r.1@)),
    ;

    /// The encoding of `self`.
    fn bytes(&self) -> (r: Vec<u8>)
        ensures
            r@ == Self::encoding(self@),
    ;
}

/// No two values share an encoding.
pub proof fn lemma_encoding_injective<T: DataFromBytes>(a: T::V, b: T::V)
    requires
        T::encoding(a) == T::encoding(b),
    ensures
        a == b,
{
    T::lemma_parse_encoding(a);
    T::lemma_parse_encoding(b);
}

/// One endpoint of the peripheral that carries chunked transfers.
#[derive(Clone, Copy, Debug, PartialEq, Eq)]
pub struct Transmission {
    /// The identifier of the endpoint: the 128 bits of its UUID.
    pub characteristic: u128,
}

/// [`rand::random`] at `u32`: a number drawn from the thread's generator.
/// Nothing is claimed of the number.
#[verifier::external_body]
fn random_id() -> (id: u32) {
    rand::random::<u32>()
}

impl Transmission {
    /// The transmission over the endpoint `characteristic`.
    pub fn new(characteristic: u128) -> (r: Transmission)
        ensures
            r.characteristic == characteristic,
    {
        Transmission { characteristic }
    }

    /// Opens a send of `data` under a freshly drawn identifier. Returns
    /// the transfer and the frame that announces it, which the driver
    /// writes after subscribing to the endpoint. A payload whose length
    /// does not fit the announcement's 32 bits is refused.
    pub fn begin_write(&self, data: Vec<u8>) -> (r: Result<(WriteTransfer, Vec<u8>), TransferError>)
        ensures
            match r {
                Ok((transfer, frame)) => {
                    &&& data@.len() <= u32::MAX
                    &&& transfer@ == WriteState::initial(self.characteristic, transfer@.id, data@)
                    &&& frame@ == start_frame(transfer@.id, data@)
                },
                Err(error) => data@.len() > u32::MAX && error@ == Fault::Oversize,
            },
    {
        let id = random_id();
        WriteTransfer::start(self.characteristic, id, data)
    }

    /// Opens a receive. Returns the request and the frame that asks for
    /// the payload, which the driver writes after subscribing to the
    /// endpoint.
    pub fn begin_read(&self) -> (r: (ReadRequest, Vec<u8>))
        ensures
            r.0.endpoint == self.characteristic,
            r.1@ == request_frame(),
    {
        ReadRequest::start(self.characteristic)
    }
}

} // verus!
