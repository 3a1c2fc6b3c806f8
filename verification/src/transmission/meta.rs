//! The two headers of the protocol: the announcement of a transfer and the
//! position of one chunk within it.

use crate::transmission::DataFromBytes;
use crate::wire::{get_u32, lemma_u32_round_trip, put_u32, u32_at, u32_le};
use vstd::prelude::*;

verus! {

/// Length in bytes of an encoded [`MetaData`].
pub const META_LEN: usize = 8;

/// Length in bytes of an encoded [`ChunkMetaData`].
pub const CHUNK_META_LEN: usize = 12;

/// Announces a transfer: the identifier its initiator chose and the
/// length of the whole payload.
#[derive(Clone, Copy, Debug, PartialEq, Eq)]
pub struct MetaData {
    pub id: u32,
    pub total_size: u32,
}

/// Stands before every chunk: the transfer it belongs to, the offset of
/// its first byte within the payload, and its length.
#[derive(Clone, Copy, Debug, PartialEq, Eq)]
pub struct ChunkMetaData {
    pub id: u32,
    pub start: u32,
    pub chunk_size: u32,
}

impl View for MetaData {
    type V = MetaData;

    open spec fn view(&self) -> MetaData {
        *self
    }
}

impl View for ChunkMetaData {
    type V = ChunkMetaData;

    open spec fn view(&self) -> ChunkMetaData {
        *self
    }
}

impl DataFromBytes for MetaData {
    /// `id`, then `total_size`, four bytes each.
    open spec fn encoding(v: MetaData) -> Seq<u8> {
        u32_le(v.id) + u32_le(v.total_size)
    }

    open spec fn parse(data: Seq<u8>) -> Option<(MetaData, Seq<u8>)> {
        if data.len() < META_LEN {
            None
        } else {
            Some((MetaData::at(data, 0), data.skip(META_LEN as int)))
        }
    }

    proof fn lemma_parse_encoding(v: MetaData) {
        MetaData::lemma_parse_prefix(v, Seq::empty());
        assert(MetaData::encoding(v) + Seq::<u8>::empty() =~= MetaData::encoding(v));
    }

    fn from_data(value: &[u8]) -> (r: (MetaData, &[u8])) {
        let id = get_u32(value, 0);
        let total_size = get_u32(value, 4);
        let (_, rest) = value.split_at(META_LEN);
        assert(rest@ =~= value@.skip(META_LEN as int));
        (MetaData { id, total_size }, rest)
    }

    fn bytes(&self) -> (r: Vec<u8>) {
        let mut out: Vec<u8> = Vec::new();
        put_u32(&mut out, self.id);
        put_u32(&mut out, self.total_size);
        assert(out@ =~= MetaData::encoding(*self));
        out
    }
}

impl MetaData {
    /// The header whose encoding starts at `at` in `data`.
    pub open spec fn at(data: Seq<u8>, at: int) -> MetaData
        recommends
            0 <= at,
            at + META_LEN <= data.len(),
    {
        MetaData { id: u32_at(data, at), total_size: u32_at(data, at + 4) }
    }

    /// An encoded header is read back from wherever it stands.
    pub proof fn lemma_at_encoding(v: MetaData, before: Seq<u8>, after: Seq<u8>)
        ensures
            MetaData::encoding(v).len() == META_LEN,
            MetaData::at(before + MetaData::encoding(v) + after, before.len() as int) == v,
    {
        let data = before + MetaData::encoding(v) + after;
        lemma_u32_round_trip(v.id, before, u32_le(v.total_size) + after);
        lemma_u32_round_trip(v.total_size, before + u32_le(v.id), after);
        assert(data =~= before + u32_le(v.id) + (u32_le(v.total_size) + after));
        assert(data =~= before + u32_le(v.id) + u32_le(v.total_size) + after);
    }

    /// A header followed by any bytes parses to the header and those bytes.
    pub proof fn lemma_parse_prefix(v: MetaData, rest: Seq<u8>)
        ensures
            MetaData::encoding(v).len() == META_LEN,
            MetaData::parse(MetaData::encoding(v) + rest) == Some((v, rest)),
    {
        let data = MetaData::encoding(v) + rest;
        MetaData::lemma_at_encoding(v, Seq::empty(), rest);
        assert(data =~= Seq::<u8>::empty() + MetaData::encoding(v) + rest);
        assert(data.skip(META_LEN as int) =~= rest);
    }
}

impl DataFromBytes for ChunkMetaData {
    /// `id`, `start`, then `chunk_size`, four bytes each.
    open spec fn encoding(v: ChunkMetaData) -> Seq<u8> {
        u32_le(v.id) + u32_le(v.start) + u32_le(v.chunk_size)
    }

    open spec fn parse(data: Seq<u8>) -> Option<(ChunkMetaData, Seq<u8>)> {
        if data.len() < CHUNK_META_LEN {
            None
        } else {
            Some((ChunkMetaData::at(data, 0), data.skip(CHUNK_META_LEN as int)))
        }
    }

    proof fn lemma_parse_encoding(v: ChunkMetaData) {
        ChunkMetaData::lemma_parse_prefix(v, Seq::empty());
        assert(ChunkMetaData::encoding(v) + Seq::<u8>::empty() =~= ChunkMetaData::encoding(v));
    }

    fn from_data(value: &[u8]) -> (r: (ChunkMetaData, &[u8])) {
        let id = get_u32(value, 0);
        let start = get_u32(value, 4);
        let chunk_size = get_u32(value, 8);
        let (_, rest) = value.split_at(CHUNK_META_LEN);
        assert(rest@ =~= value@.skip(CHUNK_META_LEN as int));
        (ChunkMetaData { id, start, chunk_size }, rest)
    }

    fn bytes(&self) -> (r: Vec<u8>) {
        let mut out: Vec<u8> = Vec::new();
        put_u32(&mut out, self.id);
        put_u32(&mut out, self.start);
        put_u32(&mut out, self.chunk_size);
        assert(out@ =~= ChunkMetaData::encoding(*self));
        out
    }
}

impl ChunkMetaData {
    /// The header whose encoding starts at `at` in `data`.
    pub open spec fn at(data: Seq<u8>, at: int) -> ChunkMetaData
        recommends
            0 <= at,
            at + CHUNK_META_LEN <= data.len(),
    {
        ChunkMetaData {
            id: u32_at(data, at),
            start: u32_at(data, at + 4),
            chunk_size: u32_at(data, at + 8),
        }
    }

    /// A header followed by any bytes parses to the header and those bytes.
    pub proof fn lemma_parse_prefix(v: ChunkMetaData, rest: Seq<u8>)
        ensures
            ChunkMetaData::encoding(v).len() == CHUNK_META_LEN,
            ChunkMetaData::parse(ChunkMetaData::encoding(v) + rest) == Some((v, rest)),
    {
        let data = ChunkMetaData::encoding(v) + rest;
        lemma_u32_round_trip(v.id, Seq::empty(), u32_le(v.start) + u32_le(v.chunk_size) + rest);
        lemma_u32_round_trip(v.start, u32_le(v.id), u32_le(v.chunk_size) + rest);
        lemma_u32_round_trip(v.chunk_size, u32_le(v.id) + u32_le(v.start), rest);
        assert(data =~= Seq::<u8>::empty() + u32_le(v.id) + (u32_le(v.start) + u32_le(v.chunk_size)
            + rest));
        assert(data =~= u32_le(v.id) + u32_le(v.start) + (u32_le(v.chunk_size) + rest));
        assert(data =~= u32_le(v.id) + u32_le(v.start) + u32_le(v.chunk_size) + rest);
        assert(data.skip(CHUNK_META_LEN as int) =~= rest);
    }
}

} // verus!
