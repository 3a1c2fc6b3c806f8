//! Control messages. [`ReadMessage`] travels to the peripheral through
//! writes, [`NotifyMessage`] comes back through notifications.
//!
//! Every message but a chunk header opens with a one-byte tag. A chunk
//! header travels bare, so that the header is the only overhead of a chunk;
//! it is told from the tagged messages by its length, which none of them
//! reaches.

use crate::transmission::meta::{ChunkMetaData, MetaData, CHUNK_META_LEN, META_LEN};
use crate::transmission::DataFromBytes;
use crate::wire::{
    get_u16, get_u32, lemma_u16_round_trip, lemma_u32_round_trip, put_bytes, put_u16, put_u32,
    u16_at, u16_le, u32_at, u32_le,
};
use vstd::prelude::*;

verus! {

/// Tag of [`ReadMessage::StartWrite`].
pub const TAG_START_WRITE: u8 = 0;

/// Tag of [`ReadMessage::StartRead`].
pub const TAG_START_READ: u8 = 1;

/// Tag of [`ReadMessage::ReadReceive`].
pub const TAG_READ_RECEIVE: u8 = 2;

/// Tag of [`ReadMessage::ReadFinish`].
pub const TAG_READ_FINISH: u8 = 3;

/// Tag of [`NotifyMessage::WriteReady`].
pub const TAG_WRITE_READY: u8 = 0;

/// Tag of [`NotifyMessage::WriteReceive`].
pub const TAG_WRITE_RECEIVE: u8 = 1;

/// Tag of [`NotifyMessage::WriteFinish`].
pub const TAG_WRITE_FINISH: u8 = 2;

/// Tag of [`NotifyMessage::ReadReady`].
pub const TAG_READ_READY: u8 = 3;

/// Tag of [`NotifyMessage::DataUpdate`].
pub const TAG_DATA_UPDATE: u8 = 4;

/// Tag of [`NotifyMessage::Error`].
pub const TAG_ERROR: u8 = 5;

/// What the initiator of a transfer writes to the endpoint.
#[derive(Clone, Copy, Debug, PartialEq, Eq)]
pub enum ReadMessage {
    /// Opens a transfer towards the peripheral.
    StartWrite(MetaData),
    /// Stands before the bytes of one chunk, in the same write.
    Write(ChunkMetaData),
    /// Asks the peripheral to offer its payload.
    StartRead,
    /// Acknowledges a chunk and asks for the one that starts at
    /// `next_start`.
    ReadReceive { next_start: u32 },
    /// Acknowledges the last chunk.
    ReadFinish,
}

impl View for ReadMessage {
    type V = ReadMessage;

    open spec fn view(&self) -> ReadMessage {
        *self
    }
}

impl DataFromBytes for ReadMessage {
    open spec fn encoding(v: ReadMessage) -> Seq<u8> {
        match v {
            ReadMessage::StartWrite(meta) => seq![TAG_START_WRITE] + MetaData::encoding(meta),
            ReadMessage::Write(chunk) => ChunkMetaData::encoding(chunk),
            ReadMessage::StartRead => seq![TAG_START_READ],
            ReadMessage::ReadReceive { next_start } => seq![TAG_READ_RECEIVE] + u32_le(next_start),
            ReadMessage::ReadFinish => seq![TAG_READ_FINISH],
        }
    }

    open spec fn parse(data: Seq<u8>) -> Option<(ReadMessage, Seq<u8>)> {
        if data.len() >= CHUNK_META_LEN {
            Some((ReadMessage::Write(ChunkMetaData::at(data, 0)), data.skip(CHUNK_META_LEN as int)))
        } else if data.len() == 0 {
            None
        } else if data[0] == TAG_START_WRITE && data.len() >= 1 + META_LEN {
            Some((ReadMessage::StartWrite(MetaData::at(data, 1)), data.skip(1 + META_LEN)))
        } else if data[0] == TAG_START_READ {
            Some((ReadMessage::StartRead, data.skip(1)))
        } else if data[0] == TAG_READ_RECEIVE && data.len() >= 5 {
            Some((ReadMessage::ReadReceive { next_start: u32_at(data, 1) }, data.skip(5)))
        } else if data[0] == TAG_READ_FINISH {
            Some((ReadMessage::ReadFinish, data.skip(1)))
        } else {
            None
        }
    }

    proof fn lemma_parse_encoding(v: ReadMessage) {
        let data = ReadMessage::encoding(v);
        let none = Seq::<u8>::empty();
        match v {
            ReadMessage::StartWrite(meta) => {
                MetaData::lemma_at_encoding(meta, seq![TAG_START_WRITE], none);
                assert(data =~= seq![TAG_START_WRITE] + MetaData::encoding(meta) + none);
                assert(data.skip(1 + META_LEN) =~= none);
            },
            ReadMessage::Write(chunk) => {
                ChunkMetaData::lemma_parse_prefix(chunk, none);
                assert(data =~= ChunkMetaData::encoding(chunk) + none);
            },
            ReadMessage::StartRead => {
                assert(data.skip(1) =~= none);
            },
            ReadMessage::ReadReceive { next_start } => {
                lemma_u32_round_trip(next_start, seq![TAG_READ_RECEIVE], none);
                assert(data =~= seq![TAG_READ_RECEIVE] + u32_le(next_start) + none);
                assert(data.skip(5) =~= none);
            },
            ReadMessage::ReadFinish => {
                assert(data.skip(1) =~= none);
            },
        }
    }

    fn from_data(value: &[u8]) -> (r: (ReadMessage, &[u8])) {
        if value.len() >= CHUNK_META_LEN {
            let (chunk, rest) = ChunkMetaData::from_data(value);
            (ReadMessage::Write(chunk), rest)
        } else {
            let tag = value[0];
            let (_, body) = value.split_at(1);
            assert(body@ =~= value@.skip(1));
            if tag == TAG_START_WRITE {
                let meta = MetaData { id: get_u32(value, 1), total_size: get_u32(value, 5) };
                let (_, rest) = value.split_at(1 + META_LEN);
                assert(rest@ =~= value@.skip(1 + META_LEN));
                (ReadMessage::StartWrite(meta), rest)
            } else if tag == TAG_START_READ {
                (ReadMessage::StartRead, body)
            } else if tag == TAG_READ_RECEIVE {
                let next_start = get_u32(value, 1);
                let (_, rest) = value.split_at(5);
                assert(rest@ =~= value@.skip(5));
                (ReadMessage::ReadReceive { next_start }, rest)
            } else {
                (ReadMessage::ReadFinish, body)
            }
        }
    }

    fn bytes(&self) -> (r: Vec<u8>) {
        let mut out: Vec<u8> = Vec::new();
        match *self {
            ReadMessage::StartWrite(meta) => {
                out.push(TAG_START_WRITE);
                put_u32(&mut out, meta.id);
                put_u32(&mut out, meta.total_size);
            },
            ReadMessage::Write(chunk) => {
                put_u32(&mut out, chunk.id);
                put_u32(&mut out, chunk.start);
                put_u32(&mut out, chunk.chunk_size);
            },
            ReadMessage::StartRead => {
                out.push(TAG_START_READ);
            },
            ReadMessage::ReadReceive { next_start } => {
                out.push(TAG_READ_RECEIVE);
                put_u32(&mut out, next_start);
            },
            ReadMessage::ReadFinish => {
                out.push(TAG_READ_FINISH);
            },
        }
        assert(out@ =~= ReadMessage::encoding(*self));
        out
    }
}

/// What the peripheral reports through the endpoint's notifications.
#[derive(Debug, PartialEq, Eq)]
pub enum NotifyMessage {
    /// The peripheral accepts the announced transfer; no frame written to
    /// it may be longer than `mtu` bytes.
    WriteReady { mtu: u16 },
    /// The peripheral holds the payload up to `next_start` and expects the
    /// chunk that starts there.
    WriteReceive { next_start: u32 },
    /// The peripheral holds the whole payload.
    WriteFinish,
    /// The peripheral offers a payload and is ready to be read.
    ReadReady(MetaData),
    /// The value behind the endpoint changed, outside any transfer.
    DataUpdate,
    /// The peripheral gave up; the bytes are its message.
    Error(Vec<u8>),
    /// Bytes that are no message of this protocol.
    Unknown,
}

/// The mathematical value of a [`NotifyMessage`].
pub enum Notice {
    WriteReady { mtu: u16 },
    WriteReceive { next_start: u32 },
    WriteFinish,
    ReadReady(MetaData),
    DataUpdate,
    Error(Seq<u8>),
    Unknown,
}

impl View for NotifyMessage {
    type V = Notice;

    open spec fn view(&self) -> Notice {
        match *self {
            NotifyMessage::WriteReady { mtu } => Notice::WriteReady { mtu },
            NotifyMessage::WriteReceive { next_start } => Notice::WriteReceive { next_start },
            NotifyMessage::WriteFinish => Notice::WriteFinish,
            NotifyMessage::ReadReady(meta) => Notice::ReadReady(meta),
            NotifyMessage::DataUpdate => Notice::DataUpdate,
            NotifyMessage::Error(message) => Notice::Error(message@),
            NotifyMessage::Unknown => Notice::Unknown,
        }
    }
}

/// The message that a notification's bytes carry.
pub open spec fn notice_of(data: Seq<u8>) -> Notice {
    match NotifyMessage::parse(data) {
        Some((notice, _)) => notice,
        None => Notice::Unknown,
    }
}

impl DataFromBytes for NotifyMessage {
    /// The tag, then the fields. An error's message runs to the end of the
    /// notification. `Unknown` stands for what cannot be read, and has no
    /// bytes of its own.
    open spec fn encoding(v: Notice) -> Seq<u8> {
        match v {
            Notice::WriteReady { mtu } => seq![TAG_WRITE_READY] + u16_le(mtu),
            Notice::WriteReceive { next_start } => seq![TAG_WRITE_RECEIVE] + u32_le(next_start),
            Notice::WriteFinish => seq![TAG_WRITE_FINISH],
            Notice::ReadReady(meta) => seq![TAG_READ_READY] + MetaData::encoding(meta),
            Notice::DataUpdate => seq![TAG_DATA_UPDATE],
            Notice::Error(message) => seq![TAG_ERROR] + message,
            Notice::Unknown => Seq::empty(),
        }
    }

    /// Never `None`: bytes that do not open with a known tag, or stop
    /// before the tag's fields end, are `Unknown` and none of them is
    /// consumed.
    open spec fn parse(data: Seq<u8>) -> Option<(Notice, Seq<u8>)> {
        if data.len() == 0 {
            Some((Notice::Unknown, data))
        } else if data[0] == TAG_WRITE_READY && data.len() >= 3 {
            Some((Notice::WriteReady { mtu: u16_at(data, 1) }, data.skip(3)))
        } else if data[0] == TAG_WRITE_RECEIVE && data.len() >= 5 {
            Some((Notice::WriteReceive { next_start: u32_at(data, 1) }, data.skip(5)))
        } else if data[0] == TAG_WRITE_FINISH {
            Some((Notice::WriteFinish, data.skip(1)))
        } else if data[0] == TAG_READ_READY && data.len() >= 1 + META_LEN {
            Some((Notice::ReadReady(MetaData::at(data, 1)), data.skip(1 + META_LEN)))
        } else if data[0] == TAG_DATA_UPDATE {
            Some((Notice::DataUpdate, data.skip(1)))
        } else if data[0] == TAG_ERROR {
            Some((Notice::Error(data.skip(1)), Seq::empty()))
        } else {
            Some((Notice::Unknown, data))
        }
    }

    proof fn lemma_parse_encoding(v: Notice) {
        let data = NotifyMessage::encoding(v);
        let none = Seq::<u8>::empty();
        match v {
            Notice::WriteReady { mtu } => {
                lemma_u16_round_trip(mtu, seq![TAG_WRITE_READY], none);
                assert(data =~= seq![TAG_WRITE_READY] + u16_le(mtu) + none);
                assert(data.skip(3) =~= none);
            },
            Notice::WriteReceive { next_start } => {
                lemma_u32_round_trip(next_start, seq![TAG_WRITE_RECEIVE], none);
                assert(data =~= seq![TAG_WRITE_RECEIVE] + u32_le(next_start) + none);
                assert(data.skip(5) =~= none);
            },
            Notice::WriteFinish => {
                assert(data.skip(1) =~= none);
            },
            Notice::ReadReady(meta) => {
                MetaData::lemma_at_encoding(meta, seq![TAG_READ_READY], none);
                assert(data =~= seq![TAG_READ_READY] + MetaData::encoding(meta) + none);
                assert(data.skip(1 + META_LEN) =~= none);
            },
            Notice::DataUpdate => {
                assert(data.skip(1) =~= none);
            },
            Notice::Error(message) => {
                assert(data.skip(1) =~= message);
            },
            Notice::Unknown => {},
        }
    }

    fn from_data(value: &[u8]) -> (r: (NotifyMessage, &[u8])) {
        if value.len() == 0 {
            return (NotifyMessage::Unknown, value);
        }
        let tag = value[0];
        let (_, body) = value.split_at(1);
        assert(body@ =~= value@.skip(1));
        if tag == TAG_WRITE_READY && value.len() >= 3 {
            let mtu = get_u16(value, 1);
            let (_, rest) = value.split_at(3);
            assert(rest@ =~= value@.skip(3));
            (NotifyMessage::WriteReady { mtu }, rest)
        } else if tag == TAG_WRITE_RECEIVE && value.len() >= 5 {
            let next_start = get_u32(value, 1);
            let (_, rest) = value.split_at(5);
            assert(rest@ =~= value@.skip(5));
            (NotifyMessage::WriteReceive { next_start }, rest)
        } else if tag == TAG_WRITE_FINISH {
            (NotifyMessage::WriteFinish, body)
        } else if tag == TAG_READ_READY && value.len() >= 1 + META_LEN {
            let meta = MetaData { id: get_u32(value, 1), total_size: get_u32(value, 5) };
            let (_, rest) = value.split_at(1 + META_LEN);
            assert(rest@ =~= value@.skip(1 + META_LEN));
            (NotifyMessage::ReadReady(meta), rest)
        } else if tag == TAG_DATA_UPDATE {
            (NotifyMessage::DataUpdate, body)
        } else if tag == TAG_ERROR {
            let mut message: Vec<u8> = Vec::new();
            put_bytes(&mut message, body);
            let (_, rest) = value.split_at(value.len());
            assert(rest@ =~= Seq::<u8>::empty());
            assert(message@ =~= value@.skip(1));
            (NotifyMessage::Error(message), rest)
        } else {
            (NotifyMessage::Unknown, value)
        }
    }

    fn bytes(&self) -> (r: Vec<u8>) {
        let mut out: Vec<u8> = Vec::new();
        match self {
            NotifyMessage::WriteReady { mtu } => {
                out.push(TAG_WRITE_READY);
                put_u16(&mut out, *mtu);
            },
            NotifyMessage::WriteReceive { next_start } => {
                out.push(TAG_WRITE_RECEIVE);
                put_u32(&mut out, *next_start);
            },
            NotifyMessage::WriteFinish => {
                out.push(TAG_WRITE_FINISH);
            },
            NotifyMessage::ReadReady(meta) => {
                out.push(TAG_READ_READY);
                put_u32(&mut out, meta.id);
                put_u32(&mut out, meta.total_size);
            },
            NotifyMessage::DataUpdate => {
                out.push(TAG_DATA_UPDATE);
            },
            NotifyMessage::Error(message) => {
                out.push(TAG_ERROR);
                put_bytes(&mut out, message.as_slice());
            },
            NotifyMessage::Unknown => {},
        }
        assert(out@ =~= NotifyMessage::encoding(self@));
        out
    }
}

} // verus!
