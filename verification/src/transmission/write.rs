//! Sending a payload: the initiator announces it, learns the frame size the
//! peripheral accepts, and then writes one chunk for every acknowledgement
//! until the peripheral reports that it holds everything.

use crate::error::{Fault, TransferError, Violation};
use crate::transmission::meta::{ChunkMetaData, MetaData};
use crate::transmission::msg::{notice_of, Notice, NotifyMessage, ReadMessage};
use crate::transmission::DataFromBytes;
use crate::wire::put_range;
use vstd::prelude::*;

verus! {

/// Bytes of every chunk frame that are not payload: the chunk's header.
pub const CONTROL_OVERHEAD: u32 = 12;

/// The mathematical state of a send in progress.
pub struct WriteState {
    /// The endpoint whose notifications belong to this transfer.
    pub endpoint: u128,
    /// The identifier announced for this transfer.
    pub id: u32,
    /// The payload.
    pub data: Seq<u8>,
    /// The frame size the peripheral accepts, once it has said so.
    pub mtu: Option<u16>,
    /// How many bytes of the payload have been written in chunks.
    pub sent: nat,
}

/// What a send asks of its driver after a notification.
pub enum WriteAction {
    /// Nothing to write: await the next notification.
    Wait(WriteState),
    /// Write the frame, with response, then await the next notification.
    Send(WriteState, Seq<u8>),
    /// The peripheral holds the whole payload: the send has succeeded.
    Done,
    /// The send has failed.
    Abort(Fault),
}

/// The frame of the chunk of `data` that starts at `start` and has `size`
/// bytes: its header, then its bytes.
#[verifier::opaque]
pub open spec fn chunk_frame(id: u32, data: Seq<u8>, start: nat, size: nat) -> Seq<u8> {
    ReadMessage::encoding(
        ReadMessage::Write(ChunkMetaData { id, start: start as u32, chunk_size: size as u32 }),
    ) + data.subrange(start as int, (start + size) as int)
}

/// The frame that announces a payload.
pub open spec fn start_frame(id: u32, data: Seq<u8>) -> Seq<u8> {
    ReadMessage::encoding(ReadMessage::StartWrite(MetaData { id, total_size: data.len() as u32 }))
}

impl WriteState {
    /// The state right after the payload has been announced.
    pub open spec fn initial(endpoint: u128, id: u32, data: Seq<u8>) -> WriteState {
        WriteState { endpoint, id, data, mtu: None, sent: 0 }
    }

    /// What holds of every state a send passes through.
    pub open spec fn wf(self) -> bool {
        &&& self.data.len() <= u32::MAX
        &&& self.sent <= self.data.len()
        &&& self.mtu matches Some(mtu) ==> mtu >= CONTROL_OVERHEAD
        &&& self.mtu is None ==> self.sent == 0
    }

    /// Length of the next chunk: what the negotiated frame leaves beside
    /// the header, or what is left of the payload if that is less.
    pub open spec fn next_size(self) -> nat
        recommends
            self.wf(),
            self.mtu is Some,
    {
        let room = self.mtu->0 - CONTROL_OVERHEAD;
        let left = self.data.len() - self.sent;
        if room < left {
            room as nat
        } else {
            left as nat
        }
    }

    /// Writes the next chunk and moves the cursor past it.
    pub open spec fn send_next(self) -> WriteAction
        recommends
            self.wf(),
            self.mtu is Some,
    {
        WriteAction::Send(
            WriteState { sent: self.sent + self.next_size(), ..self },
            chunk_frame(self.id, self.data, self.sent, self.next_size()),
        )
    }

    /// The send's answer to a message from the peripheral.
    ///
    /// Before the peripheral is ready, only its readiness and its errors
    /// count; everything else passes by. From then on every message has to
    /// be the acknowledgement that the protocol expects next.
    pub open spec fn step(self, msg: Notice) -> WriteAction {
        match self.mtu {
            None => match msg {
                Notice::Error(message) => WriteAction::Abort(Fault::Peer(message)),
                Notice::WriteReady { mtu } => if mtu < CONTROL_OVERHEAD {
                    WriteAction::Abort(Fault::Protocol(Violation::MtuTooSmall))
                } else {
                    WriteState { mtu: Some(mtu), ..self }.send_next()
                },
                _ => WriteAction::Wait(self),
            },
            Some(_) => match msg {
                Notice::Error(message) => WriteAction::Abort(Fault::Peer(message)),
                Notice::WriteReceive { next_start } => if next_start != self.sent {
                    WriteAction::Abort(Fault::Protocol(Violation::OutOfOrder))
                } else if self.sent < self.data.len() {
                    self.send_next()
                } else {
                    WriteAction::Wait(self)
                },
                Notice::WriteFinish => if self.sent == self.data.len() {
                    WriteAction::Done
                } else {
                    WriteAction::Abort(Fault::Protocol(Violation::PrematureFinish))
                },
                _ => WriteAction::Abort(Fault::Protocol(Violation::UnexpectedMessage)),
            },
        }
    }

    /// The send's answer to a notification of the endpoint `uuid`:
    /// notifications of other endpoints pass by.
    pub open spec fn notified(self, uuid: u128, value: Seq<u8>) -> WriteAction {
        if uuid == self.endpoint {
            self.step(notice_of(value))
        } else {
            WriteAction::Wait(self)
        }
    }
}

/// A send in progress: the payload and the cursor into it.
#[derive(Debug)]
pub struct WriteTransfer {
    endpoint: u128,
    id: u32,
    data: Vec<u8>,
    mtu: Option<u16>,
    sent: u32,
}

/// What the driver of a send has to do next. The transfer is handed back
/// as long as it goes on, and is gone once it has ended.
#[derive(Debug)]
pub enum WriteOutcome {
    /// Nothing to write: await the next notification.
    Wait(WriteTransfer),
    /// Write the frame, with response, then await the next notification.
    Send(WriteTransfer, Vec<u8>),
    /// The peripheral holds the whole payload: the send has succeeded.
    Done,
    /// The send has failed.
    Abort(TransferError),
}

impl View for WriteTransfer {
    type V = WriteState;

    closed spec fn view(&self) -> WriteState {
        WriteState {
            endpoint: self.endpoint,
            id: self.id,
            data: self.data@,
            mtu: self.mtu,
            sent: self.sent as nat,
        }
    }
}

impl View for WriteOutcome {
    type V = WriteAction;

    open spec fn view(&self) -> WriteAction {
        match *self {
            WriteOutcome::Wait(transfer) => WriteAction::Wait(transfer@),
            WriteOutcome::Send(transfer, frame) => WriteAction::Send(transfer@, frame@),
            WriteOutcome::Done => WriteAction::Done,
            WriteOutcome::Abort(error) => WriteAction::Abort(error@),
        }
    }
}

impl WriteTransfer {
    #[verifier::type_invariant]
    spec fn inv(self) -> bool {
        self@.wf()
    }

    /// Opens a send of `data` under the identifier `id`. Returns the
    /// transfer and the frame that announces it, which the driver writes
    /// after subscribing to the endpoint. A payload whose length does not
    /// fit the announcement's 32 bits is refused.
    pub fn start(endpoint: u128, id: u32, data: Vec<u8>) -> (r: Result<
        (WriteTransfer, Vec<u8>),
        TransferError,
    >)
        ensures
            match r {
                Ok((transfer, frame)) => {
                    &&& data@.len() <= u32::MAX
                    &&& transfer@ == WriteState::initial(endpoint, id, data@)
                    &&& frame@ == start_frame(id, data@)
                },
                Err(error) => data@.len() > u32::MAX && error@ == Fault::Oversize,
            },
    {
        if data.len() > u32::MAX as usize {
            return Err(TransferError::Oversize);
        }
        let meta = MetaData { id, total_size: data.len() as u32 };
        let frame = ReadMessage::StartWrite(meta).bytes();
        Ok((WriteTransfer { endpoint, id, data, mtu: None, sent: 0 }, frame))
    }

    /// The identifier of this transfer.
    pub fn id(&self) -> (r: u32)
        ensures
            r == self@.id,
    {
        self.id
    }

    /// The endpoint of this transfer.
    pub fn endpoint(&self) -> (r: u128)
        ensures
            r == self@.endpoint,
    {
        self.endpoint
    }

    /// Length of the payload.
    pub fn total_size(&self) -> (r: u32)
        ensures
            r == self@.data.len(),
    {
        proof {
            use_type_invariant(self);
        }
        self.data.len() as u32
    }

    /// How many bytes of the payload have been written in chunks.
    pub fn sent(&self) -> (r: u32)
        ensures
            r == self@.sent,
    {
        self.sent
    }

    /// The frame size the peripheral accepts, once it has said so.
    pub fn mtu(&self) -> (r: Option<u16>)
        ensures
            r == self@.mtu,
    {
        self.mtu
    }

    fn send_next(self) -> (r: WriteOutcome)
        requires
            self@.mtu is Some,
        ensures
            r@ == self@.send_next(),
    {
        proof {
            use_type_invariant(&self);
        }
        let mtu: u16 = match self.mtu {
            Some(mtu) => mtu,
            None => 0,
        };
        let room: u32 = mtu as u32 - CONTROL_OVERHEAD;
        let left: u32 = self.data.len() as u32 - self.sent;
        let size: u32 = if room < left {
            room
        } else {
            left
        };
        let header = ChunkMetaData { id: self.id, start: self.sent, chunk_size: size };
        let mut frame = ReadMessage::Write(header).bytes();
        put_range(&mut frame, self.data.as_slice(), self.sent as usize, (self.sent + size) as usize);
        proof {
            reveal(chunk_frame);
        }
        WriteOutcome::Send(
            WriteTransfer {
                endpoint: self.endpoint,
                id: self.id,
                data: self.data,
                mtu: self.mtu,
                sent: self.sent + size,
            },
            frame,
        )
    }

    /// Answers a message from the peripheral.
    pub fn on_message(self, msg: NotifyMessage) -> (r: WriteOutcome)
        ensures
            self@.wf(),
            r@ == self@.step(msg@),
    {
        proof {
            use_type_invariant(&self);
        }
        match self.mtu {
            None => match msg {
                NotifyMessage::Error(message) => WriteOutcome::Abort(TransferError::Peer(message)),
                NotifyMessage::WriteReady { mtu } => {
                    if (mtu as u32) < CONTROL_OVERHEAD {
                        WriteOutcome::Abort(TransferError::Protocol(Violation::MtuTooSmall))
                    } else {
                        let ready = WriteTransfer {
                            endpoint: self.endpoint,
                            id: self.id,
                            data: self.data,
                            mtu: Some(mtu),
                            sent: self.sent,
                        };
                        ready.send_next()
                    }
                },
                _ => WriteOutcome::Wait(self),
            },
            Some(_) => match msg {
                NotifyMessage::Error(message) => WriteOutcome::Abort(TransferError::Peer(message)),
                NotifyMessage::WriteReceive { next_start } => {
                    if next_start != self.sent {
                        WriteOutcome::Abort(TransferError::Protocol(Violation::OutOfOrder))
                    } else if (self.sent as usize) < self.data.len() {
                        self.send_next()
                    } else {
                        WriteOutcome::Wait(self)
                    }
                },
                NotifyMessage::WriteFinish => {
                    if self.sent as usize == self.data.len() {
                        WriteOutcome::Done
                    } else {
                        WriteOutcome::Abort(TransferError::Protocol(Violation::PrematureFinish))
                    }
                },
                _ => WriteOutcome::Abort(TransferError::Protocol(Violation::UnexpectedMessage)),
            },
        }
    }

    /// Answers a notification: `uuid` is the endpoint it came from, `value`
    /// its bytes.
    pub fn on_notification(self, uuid: u128, value: &[u8]) -> (r: WriteOutcome)
        ensures
            self@.wf(),
            r@ == self@.notified(uuid, value@),
    {
        proof {
            use_type_invariant(&self);
        }
        if uuid == self.endpoint {
            let (msg, _) = NotifyMessage::from_data(value);
            self.on_message(msg)
        } else {
            WriteOutcome::Wait(self)
        }
    }

    /// The notification stream has ended before the peripheral resolved
    /// the transfer.
    pub fn on_closed(self) -> (r: TransferError)
        ensures
            r@ == Fault::Exhausted,
    {
        TransferError::Exhausted
    }
}

} // verus!
