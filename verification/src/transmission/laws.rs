//! What holds of whole transfers: the frames a send writes over any run of
//! notifications, and what a receive makes of them.

use crate::error::{Fault, Violation};
use crate::transmission::meta::{ChunkMetaData, MetaData, CHUNK_META_LEN};
use crate::transmission::msg::Notice;
use crate::transmission::read::{finish_frame, receive_frame, ReadAction, ReadState};
use crate::transmission::write::{chunk_frame, WriteAction, WriteState, CONTROL_OVERHEAD};
use vstd::prelude::*;

verus! {

/// The header at the head of a chunk frame.
pub open spec fn header_of(frame: Seq<u8>) -> ChunkMetaData {
    ChunkMetaData::at(frame, 0)
}

/// The bytes of a chunk frame after its header.
pub open spec fn payload_of(frame: Seq<u8>) -> Seq<u8> {
    frame.skip(CHUNK_META_LEN as int)
}

/// The payloads of `frames`, one after another.
pub open spec fn joined(frames: Seq<Seq<u8>>) -> Seq<u8>
    decreases frames.len(),
{
    if frames.len() == 0 {
        Seq::empty()
    } else {
        payload_of(frames[0]) + joined(frames.drop_first())
    }
}

/// How a send stands after a run of notifications.
pub enum WriteEnd {
    /// The send goes on, in this state.
    Open(WriteState),
    /// The send has succeeded.
    Succeeded,
    /// The send has failed.
    Failed(Fault),
}

/// The chunk frames that a send in state `s` writes while the messages
/// `msgs` arrive one after another, up to the message that ends it.
pub open spec fn frames_sent(s: WriteState, msgs: Seq<Notice>) -> Seq<Seq<u8>>
    decreases msgs.len(),
{
    if msgs.len() == 0 {
        Seq::empty()
    } else {
        match s.step(msgs[0]) {
            WriteAction::Wait(next) => frames_sent(next, msgs.drop_first()),
            WriteAction::Send(next, frame) => seq![frame] + frames_sent(next, msgs.drop_first()),
            WriteAction::Done => Seq::empty(),
            WriteAction::Abort(_) => Seq::empty(),
        }
    }
}

/// How a send in state `s` stands once the messages `msgs` have arrived;
/// messages after the one that ends it are not looked at.
pub open spec fn write_end(s: WriteState, msgs: Seq<Notice>) -> WriteEnd
    decreases msgs.len(),
{
    if msgs.len() == 0 {
        WriteEnd::Open(s)
    } else {
        match s.step(msgs[0]) {
            WriteAction::Wait(next) => write_end(next, msgs.drop_first()),
            WriteAction::Send(next, _) => write_end(next, msgs.drop_first()),
            WriteAction::Done => WriteEnd::Succeeded,
            WriteAction::Abort(fault) => WriteEnd::Failed(fault),
        }
    }
}

/// `frames` are chunks of the transfer `id` that follow one another through
/// `data` without gap or overlap, the first of them starting at `from`.
pub open spec fn contiguous_from(frames: Seq<Seq<u8>>, id: u32, data: Seq<u8>, from: nat) -> bool
    decreases frames.len(),
{
    frames.len() > 0 ==> {
        let size = header_of(frames[0]).chunk_size as nat;
        &&& from + size <= data.len()
        &&& frames[0] == chunk_frame(id, data, from, size)
        &&& contiguous_from(frames.drop_first(), id, data, from + size)
    }
}

/// `frames` are the chunks of the transfer `id` that cut `data` from `from`
/// to its end: contiguous, and only the last of them reaches the end.
pub open spec fn chunked_from(frames: Seq<Seq<u8>>, id: u32, data: Seq<u8>, from: nat) -> bool
    decreases frames.len(),
{
    &&& frames.len() > 0
    &&& {
        let size = header_of(frames[0]).chunk_size as nat;
        &&& from + size <= data.len()
        &&& frames[0] == chunk_frame(id, data, from, size)
        &&& if frames.len() == 1 {
            from + size == data.len()
        } else {
            from + size < data.len() && chunked_from(frames.drop_first(), id, data, from + size)
        }
    }
}

/// The payload that a receive in state `s` hands out when reads of the
/// endpoint return `chunks` one after another, provided that it completes
/// with the last of them.
pub open spec fn received(s: ReadState, chunks: Seq<Seq<u8>>) -> Option<Seq<u8>>
    decreases chunks.len(),
{
    if chunks.len() == 0 {
        None
    } else {
        match s.step(chunks[0]) {
            ReadAction::More(next, _) => received(next, chunks.drop_first()),
            ReadAction::Done(payload, _) => if chunks.len() == 1 {
                Some(payload)
            } else {
                None
            },
            ReadAction::Abort(_) => None,
        }
    }
}

/// A chunk frame is its header followed by the bytes the header names.
pub proof fn lemma_chunk_frame(id: u32, data: Seq<u8>, start: nat, size: nat)
    requires
        start + size <= data.len() <= u32::MAX,
    ensures
        chunk_frame(id, data, start, size).len() == CHUNK_META_LEN + size,
        header_of(chunk_frame(id, data, start, size)) == (ChunkMetaData {
            id,
            start: start as u32,
            chunk_size: size as u32,
        }),
        payload_of(chunk_frame(id, data, start, size)) == data.subrange(
            start as int,
            (start + size) as int,
        ),
{
    reveal(chunk_frame);
    let meta = ChunkMetaData { id, start: start as u32, chunk_size: size as u32 };
    ChunkMetaData::lemma_parse_prefix(meta, data.subrange(start as int, (start + size) as int));
}

/// Every step of a well-formed send leaves it well formed, with the same
/// payload under the same identifier; a chunk it writes starts where the
/// previous one ended, and the frame fits the negotiated size.
pub proof fn lemma_step(s: WriteState, msg: Notice)
    requires
        s.wf(),
    ensures
        match s.step(msg) {
            WriteAction::Wait(next) => next == s,
            WriteAction::Send(next, frame) => {
                &&& next.wf()
                &&& next.endpoint == s.endpoint
                &&& next.id == s.id
                &&& next.data == s.data
                &&& next.mtu matches Some(mtu)
                &&& next.sent - s.sent <= mtu - CONTROL_OVERHEAD
                &&& frame == chunk_frame(s.id, s.data, s.sent, (next.sent - s.sent) as nat)
                &&& frame.len() <= mtu
                &&& s.mtu is Some ==> s.sent < s.data.len()
            },
            WriteAction::Done => s.mtu is Some && s.sent == s.data.len(),
            WriteAction::Abort(_) => true,
        },
{
    match s.step(msg) {
        WriteAction::Send(next, frame) => {
            lemma_chunk_frame(s.id, s.data, s.sent, (next.sent - s.sent) as nat);
        },
        _ => {},
    }
}

/// From any state of a send, the frames written over any run of messages
/// are contiguous chunks that continue at the cursor, and their payloads
/// are the bytes of the payload from the cursor on.
pub proof fn lemma_frames_from(s: WriteState, msgs: Seq<Notice>)
    requires
        s.wf(),
    ensures
        contiguous_from(frames_sent(s, msgs), s.id, s.data, s.sent),
        s.sent + joined(frames_sent(s, msgs)).len() <= s.data.len(),
        joined(frames_sent(s, msgs)) == s.data.subrange(
            s.sent as int,
            (s.sent + joined(frames_sent(s, msgs)).len()) as int,
        ),
        match write_end(s, msgs) {
            WriteEnd::Open(last) => {
                &&& last.wf()
                &&& last.id == s.id
                &&& last.data == s.data
                &&& last.sent == s.sent + joined(frames_sent(s, msgs)).len()
            },
            WriteEnd::Succeeded => s.sent + joined(frames_sent(s, msgs)).len() == s.data.len(),
            WriteEnd::Failed(_) => true,
        },
    decreases msgs.len(),
{
    let frames = frames_sent(s, msgs);
    if msgs.len() == 0 {
        assert(joined(frames) =~= s.data.subrange(s.sent as int, s.sent as int));
    } else {
        lemma_step(s, msgs[0]);
        let rest = msgs.drop_first();
        match s.step(msgs[0]) {
            WriteAction::Wait(next) => {
                lemma_frames_from(next, rest);
            },
            WriteAction::Send(next, frame) => {
                lemma_frames_from(next, rest);
                let size = (next.sent - s.sent) as nat;
                let tail = frames_sent(next, rest);
                lemma_chunk_frame(s.id, s.data, s.sent, size);
                assert(frames.drop_first() =~= tail);
                assert(frames[0] == frame);
                assert(joined(frames) =~= s.data.subrange(
                    s.sent as int,
                    (s.sent + joined(frames).len()) as int,
                ));
            },
            WriteAction::Done => {
                assert(joined(frames) =~= s.data.subrange(s.sent as int, s.sent as int));
            },
            WriteAction::Abort(_) => {
                assert(joined(frames) =~= s.data.subrange(s.sent as int, s.sent as int));
            },
        }
    }
}

/// What `contiguous_from` says of each frame by its position: each frame
/// is a chunk of this transfer, holds the bytes its header names, and
/// starts where the frame before it ended.
pub proof fn lemma_chunk_at(frames: Seq<Seq<u8>>, id: u32, data: Seq<u8>, from: nat, i: int)
    requires
        data.len() <= u32::MAX,
        contiguous_from(frames, id, data, from),
        0 <= i < frames.len(),
    ensures
        header_of(frames[i]).id == id,
        header_of(frames[i]).start + header_of(frames[i]).chunk_size <= data.len(),
        payload_of(frames[i]) == data.subrange(
            header_of(frames[i]).start as int,
            header_of(frames[i]).start + header_of(frames[i]).chunk_size,
        ),
        i == 0 ==> header_of(frames[i]).start == from,
        i > 0 ==> header_of(frames[i]).start == header_of(frames[i - 1]).start + header_of(
            frames[i - 1],
        ).chunk_size,
    decreases i,
{
    let size = header_of(frames[0]).chunk_size as nat;
    lemma_chunk_frame(id, data, from, size);
    if i > 0 {
        let rest = frames.drop_first();
        assert(rest[i - 1] == frames[i]);
        lemma_chunk_at(rest, id, data, from + size, i - 1);
        if i > 1 {
            assert(rest[i - 2] == frames[i - 1]);
        }
    }
}

/// Chunking covers the payload once and in order. Whatever the peripheral
/// answers, and whatever frame size it names, the frames a send writes are
/// chunks of this transfer; the first starts at offset 0 and each of the
/// others where the one before it ended; each holds the bytes of the
/// payload that its header names; and together they hold a prefix of the
/// payload. Where the send succeeds, they hold all of it.
pub proof fn lemma_chunks_cover_payload(endpoint: u128, id: u32, data: Seq<u8>, msgs: Seq<Notice>)
    requires
        data.len() <= u32::MAX,
    ensures
        ({
            let frames = frames_sent(WriteState::initial(endpoint, id, data), msgs);
            &&& contiguous_from(frames, id, data, 0)
            &&& forall|i: int|
                #![trigger frames[i]]
                0 <= i < frames.len() ==> {
                    let header = header_of(frames[i]);
                    &&& header.id == id
                    &&& header.start + header.chunk_size <= data.len()
                    &&& payload_of(frames[i]) == data.subrange(
                        header.start as int,
                        header.start + header.chunk_size,
                    )
                    &&& i == 0 ==> header.start == 0
                    &&& i > 0 ==> header.start == header_of(frames[i - 1]).start + header_of(
                        frames[i - 1],
                    ).chunk_size
                }
            &&& joined(frames).len() <= data.len()
            &&& joined(frames) == data.subrange(0, joined(frames).len() as int)
            &&& write_end(WriteState::initial(endpoint, id, data), msgs) is Succeeded ==> joined(
                frames,
            ) == data
        }),
{
    let s = WriteState::initial(endpoint, id, data);
    let frames = frames_sent(s, msgs);
    lemma_frames_from(s, msgs);
    assert forall|i: int| #![trigger frames[i]] 0 <= i < frames.len() implies {
        let header = header_of(frames[i]);
        &&& header.id == id
        &&& header.start + header.chunk_size <= data.len()
        &&& payload_of(frames[i]) == data.subrange(
            header.start as int,
            header.start + header.chunk_size,
        )
        &&& i == 0 ==> header.start == 0
        &&& i > 0 ==> header.start == header_of(frames[i - 1]).start + header_of(
            frames[i - 1],
        ).chunk_size
    } by {
        lemma_chunk_at(frames, id, data, 0, i);
    }
    if write_end(s, msgs) is Succeeded {
        assert(data.subrange(0, data.len() as int) =~= data);
    }
}

/// Once the whole payload has been written, no message makes the send
/// write again.
pub proof fn lemma_nothing_after_end(s: WriteState, msgs: Seq<Notice>)
    requires
        s.wf(),
        s.mtu is Some,
        s.sent == s.data.len(),
    ensures
        frames_sent(s, msgs).len() == 0,
    decreases msgs.len(),
{
    if msgs.len() > 0 {
        lemma_step(s, msgs[0]);
        match s.step(msgs[0]) {
            WriteAction::Wait(next) => {
                lemma_nothing_after_end(next, msgs.drop_first());
            },
            _ => {},
        }
    }
}

/// A payload that fits beside the header in one frame of the negotiated
/// size goes out in exactly one chunk: whatever follows the peripheral's
/// readiness, that chunk is all the send writes, and the peripheral's
/// acknowledgement of it completes the send.
pub proof fn lemma_single_chunk(
    endpoint: u128,
    id: u32,
    data: Seq<u8>,
    mtu: u16,
    msgs: Seq<Notice>,
)
    requires
        mtu >= CONTROL_OVERHEAD,
        data.len() <= mtu - CONTROL_OVERHEAD,
    ensures
        frames_sent(
            WriteState::initial(endpoint, id, data),
            seq![Notice::WriteReady { mtu }] + msgs,
        ) == seq![chunk_frame(id, data, 0, data.len())],
        write_end(
            WriteState::initial(endpoint, id, data),
            seq![Notice::WriteReady { mtu }, Notice::WriteFinish],
        ) is Succeeded,
{
    let s = WriteState::initial(endpoint, id, data);
    let ready = Notice::WriteReady { mtu };
    lemma_step(s, ready);
    let all = seq![ready] + msgs;
    assert(all[0] == ready);
    assert(all.drop_first() =~= msgs);
    match s.step(ready) {
        WriteAction::Send(next, frame) => {
            lemma_nothing_after_end(next, msgs);
            assert(frames_sent(s, all) =~= seq![frame]);
            let two = seq![ready, Notice::WriteFinish];
            assert(two[0] == ready);
            assert(two.drop_first() =~= seq![Notice::WriteFinish]);
            assert(seq![Notice::WriteFinish][0] == Notice::WriteFinish);
            assert(write_end(next, seq![Notice::WriteFinish]) is Succeeded);
        },
        _ => {},
    }
}

/// A send succeeds on a message if and only if the message is the
/// peripheral's final acknowledgement and the whole payload has been
/// written in chunks before.
pub proof fn lemma_send_done_iff(s: WriteState, msg: Notice)
    ensures
        s.step(msg) is Done <==> (s.mtu is Some && s.sent == s.data.len() && msg is WriteFinish),
{
}

/// The run of messages up to the `k`-th leaves the send open with the whole
/// payload written, and the `k`-th is the peripheral's final
/// acknowledgement.
pub open spec fn finished_at(s: WriteState, msgs: Seq<Notice>, k: int) -> bool {
    &&& 0 <= k < msgs.len()
    &&& msgs[k] is WriteFinish
    &&& match write_end(s, msgs.take(k)) {
        WriteEnd::Open(last) => last.mtu is Some && last.sent == last.data.len(),
        _ => false,
    }
}

/// A send that succeeds over a run of messages was finished by one of
/// them.
pub proof fn lemma_success_has_final_acknowledgement(s: WriteState, msgs: Seq<Notice>) -> (k: int)
    requires
        write_end(s, msgs) is Succeeded,
    ensures
        finished_at(s, msgs, k),
    decreases msgs.len(),
{
    let rest = msgs.drop_first();
    match s.step(msgs[0]) {
        WriteAction::Wait(next) => {
            let k = lemma_success_has_final_acknowledgement(next, rest);
            assert(msgs.take(k + 1)[0] == msgs[0]);
            assert(msgs.take(k + 1).drop_first() =~= rest.take(k));
            k + 1
        },
        WriteAction::Send(next, _) => {
            let k = lemma_success_has_final_acknowledgement(next, rest);
            assert(msgs.take(k + 1)[0] == msgs[0]);
            assert(msgs.take(k + 1).drop_first() =~= rest.take(k));
            k + 1
        },
        _ => {
            assert(msgs.take(0) =~= Seq::<Notice>::empty());
            0
        },
    }
}

/// A send that a message finishes has succeeded, whatever follows.
pub proof fn lemma_final_acknowledgement_is_success(s: WriteState, msgs: Seq<Notice>, k: int)
    requires
        finished_at(s, msgs, k),
    ensures
        write_end(s, msgs) is Succeeded,
    decreases k,
{
    if k == 0 {
        assert(msgs.take(0) =~= Seq::<Notice>::empty());
    } else {
        let rest = msgs.drop_first();
        assert(msgs.take(k)[0] == msgs[0]);
        assert(msgs.take(k).drop_first() =~= rest.take(k - 1));
        match s.step(msgs[0]) {
            WriteAction::Wait(next) => {
                lemma_final_acknowledgement_is_success(next, rest, k - 1);
            },
            WriteAction::Send(next, _) => {
                lemma_final_acknowledgement_is_success(next, rest, k - 1);
            },
            _ => {},
        }
    }
}

/// A send succeeds over a run of messages if and only if one of them is
/// the peripheral's final acknowledgement and arrives when the send is
/// still open and has written the whole payload.
pub proof fn lemma_send_succeeds_iff(s: WriteState, msgs: Seq<Notice>)
    ensures
        write_end(s, msgs) is Succeeded <==> exists|k: int| finished_at(s, msgs, k),
{
    if write_end(s, msgs) is Succeeded {
        let k = lemma_success_has_final_acknowledgement(s, msgs);
        assert(finished_at(s, msgs, k));
    }
    if exists|k: int| finished_at(s, msgs, k) {
        let k = choose|k: int| finished_at(s, msgs, k);
        lemma_final_acknowledgement_is_success(s, msgs, k);
    }
}

/// Every step of a well-formed receive leaves it well formed, for the same
/// transfer, with the chunk appended to the buffer; the receive goes on
/// while the buffer is short of the announced length, and hands out a
/// payload of exactly that length.
pub proof fn lemma_read_step(s: ReadState, chunk: Seq<u8>)
    requires
        s.wf(),
    ensures
        match s.step(chunk) {
            ReadAction::More(next, frame) => {
                &&& next.wf()
                &&& next.id == s.id
                &&& next.total_size == s.total_size
                &&& next.buffer == s.buffer + payload_of(chunk)
                &&& next.buffer.len() < s.total_size
                &&& frame == receive_frame(next.buffer.len() as u32)
            },
            ReadAction::Done(payload, _) => {
                &&& payload == s.buffer + payload_of(chunk)
                &&& payload.len() == s.total_size
            },
            ReadAction::Abort(_) => true,
        },
{
}

/// A receive completes on a chunk if and only if the chunk belongs to the
/// transfer, continues the buffer, holds what its header counts and ends
/// where the announced payload ends. It then hands out the buffer with the
/// chunk appended, together with the final acknowledgement to write.
pub proof fn lemma_receive_done_iff(s: ReadState, chunk: Seq<u8>)
    ensures
        s.step(chunk) is Done <==> {
            &&& chunk.len() >= CHUNK_META_LEN
            &&& header_of(chunk).id == s.id
            &&& header_of(chunk).start == s.buffer.len()
            &&& header_of(chunk).chunk_size == payload_of(chunk).len()
            &&& header_of(chunk).start + header_of(chunk).chunk_size == s.total_size
        },
        s.step(chunk) is Done ==> s.step(chunk) == ReadAction::Done(
            s.buffer + payload_of(chunk),
            finish_frame(),
        ),
{
}

/// A chunk that names another transfer is rejected, whatever else it
/// holds, and the receive ends without handing out any of its buffer.
pub proof fn lemma_foreign_chunk_rejected(s: ReadState, chunk: Seq<u8>)
    requires
        chunk.len() >= CHUNK_META_LEN,
        header_of(chunk).id != s.id,
    ensures
        s.step(chunk) == ReadAction::Abort(Fault::Protocol(Violation::ChunkIdMismatch)),
{
}

/// The announcement of another transfer never moves a send: before the
/// peripheral is ready it passes by and the state stays as it was, after
/// that it ends the send.
pub proof fn lemma_foreign_announcement_rejected(s: WriteState, meta: MetaData)
    ensures
        s.mtu is None ==> s.step(Notice::ReadReady(meta)) == WriteAction::Wait(s),
        s.mtu is Some ==> s.step(Notice::ReadReady(meta)) == WriteAction::Abort(
            Fault::Protocol(Violation::UnexpectedMessage),
        ),
{
}

/// Where a send succeeds, the frames it wrote cut the payload from the
/// cursor to its end, and only the last of them reaches the end.
pub proof fn lemma_frames_of_success(s: WriteState, msgs: Seq<Notice>)
    requires
        s.wf(),
        write_end(s, msgs) is Succeeded,
    ensures
        (s.mtu is None || s.sent < s.data.len()) ==> chunked_from(
            frames_sent(s, msgs),
            s.id,
            s.data,
            s.sent,
        ),
        (s.mtu is Some && s.sent == s.data.len()) ==> frames_sent(s, msgs).len() == 0,
    decreases msgs.len(),
{
    let frames = frames_sent(s, msgs);
    lemma_step(s, msgs[0]);
    let rest = msgs.drop_first();
    match s.step(msgs[0]) {
        WriteAction::Wait(next) => {
            lemma_frames_of_success(next, rest);
        },
        WriteAction::Send(next, frame) => {
            lemma_frames_of_success(next, rest);
            lemma_chunk_frame(s.id, s.data, s.sent, (next.sent - s.sent) as nat);
            assert(frames.drop_first() =~= frames_sent(next, rest));
            assert(frames[0] == frame);
        },
        _ => {},
    }
}

/// A receive that holds the payload up to some offset and is fed the
/// chunks that cut the rest of it hands out the payload.
pub proof fn lemma_received(s: ReadState, data: Seq<u8>, frames: Seq<Seq<u8>>)
    requires
        data.len() <= u32::MAX,
        s.total_size == data.len(),
        s.buffer.len() <= data.len(),
        s.buffer == data.subrange(0, s.buffer.len() as int),
        chunked_from(frames, s.id, data, s.buffer.len()),
    ensures
        received(s, frames) == Some(data),
    decreases frames.len(),
{
    let from = s.buffer.len();
    let size = header_of(frames[0]).chunk_size as nat;
    lemma_chunk_frame(s.id, data, from, size);
    let grown = s.buffer + payload_of(frames[0]);
    assert(grown =~= data.subrange(0, (from + size) as int));
    if frames.len() == 1 {
        assert(grown =~= data);
    } else {
        lemma_received(ReadState { buffer: grown, ..s }, data, frames.drop_first());
    }
}

/// Round trip. Where a send of `data` succeeds, a receive to which the
/// same payload is announced, and which is handed the frames that the send
/// wrote, one per read and in their order, completes with the last of them
/// and hands out `data`.
pub proof fn lemma_round_trip(endpoint: u128, id: u32, data: Seq<u8>, msgs: Seq<Notice>)
    requires
        data.len() <= u32::MAX,
        write_end(WriteState::initial(endpoint, id, data), msgs) is Succeeded,
    ensures
        received(
            ReadState::announced(MetaData { id, total_size: data.len() as u32 }),
            frames_sent(WriteState::initial(endpoint, id, data), msgs),
        ) == Some(data),
{
    let s = WriteState::initial(endpoint, id, data);
    lemma_frames_of_success(s, msgs);
    let r = ReadState::announced(MetaData { id, total_size: data.len() as u32 });
    assert(r.buffer =~= data.subrange(0, 0));
    lemma_received(r, data, frames_sent(s, msgs));
}

/// What a peripheral that takes every chunk answers once it holds `held`
/// of `total` bytes, when a frame has room for `room` bytes of payload: it
/// asks for the next chunk until it holds everything, and then finishes.
pub open spec fn acknowledgements(total: nat, room: nat, held: nat) -> Seq<Notice>
    decreases total - held,
{
    if held < total && room > 0 {
        let size = if room < total - held {
            room
        } else {
            (total - held) as nat
        };
        seq![Notice::WriteReceive { next_start: held as u32 }] + acknowledgements(
            total,
            room,
            held + size,
        )
    } else {
        seq![Notice::WriteFinish]
    }
}

/// Everything that a peripheral which accepts frames of `mtu` bytes and
/// takes every chunk says during a send of `total` bytes.
pub open spec fn faithful_peer(total: nat, mtu: u16) -> Seq<Notice> {
    let room = (mtu - CONTROL_OVERHEAD) as nat;
    let first = if room < total {
        room
    } else {
        total
    };
    seq![Notice::WriteReady { mtu }] + acknowledgements(total, room, first)
}

/// A send that has written a chunk succeeds with a peripheral that takes
/// every chunk, provided that a frame has room for payload.
pub proof fn lemma_acknowledged_to_the_end(s: WriteState)
    requires
        s.wf(),
        s.mtu matches Some(mtu) && mtu > CONTROL_OVERHEAD,
    ensures
        write_end(
            s,
            acknowledgements(s.data.len(), (s.mtu->0 - CONTROL_OVERHEAD) as nat, s.sent),
        ) is Succeeded,
    decreases s.data.len() - s.sent,
{
    let room = (s.mtu->0 - CONTROL_OVERHEAD) as nat;
    let msgs = acknowledgements(s.data.len(), room, s.sent);
    if s.sent < s.data.len() {
        let ask = Notice::WriteReceive { next_start: s.sent as u32 };
        lemma_step(s, ask);
        match s.step(ask) {
            WriteAction::Send(next, _) => {
                lemma_acknowledged_to_the_end(next);
                assert(msgs[0] == ask);
                assert(msgs.drop_first() =~= acknowledgements(s.data.len(), room, next.sent));
            },
            _ => {},
        }
    } else {
        assert(msgs[0] == Notice::WriteFinish);
    }
}

/// Every send succeeds with a peripheral that takes every chunk, whatever
/// the payload, if only a frame has room for payload beside the header (or
/// there is no payload to carry).
pub proof fn lemma_faithful_peer_succeeds(endpoint: u128, id: u32, data: Seq<u8>, mtu: u16)
    requires
        data.len() <= u32::MAX,
        mtu > CONTROL_OVERHEAD || (mtu == CONTROL_OVERHEAD && data.len() == 0),
    ensures
        write_end(WriteState::initial(endpoint, id, data), faithful_peer(data.len(), mtu))
            is Succeeded,
{
    let s = WriteState::initial(endpoint, id, data);
    let ready = Notice::WriteReady { mtu };
    let room = (mtu - CONTROL_OVERHEAD) as nat;
    let msgs = faithful_peer(data.len(), mtu);
    lemma_step(s, ready);
    assert(s.step(ready) is Send);
    let next = s.step(ready)->Send_0;
    let rest = acknowledgements(data.len(), room, next.sent);
    assert(msgs[0] == ready);
    assert(msgs.drop_first() =~= rest);
    assert(write_end(s, msgs) == write_end(next, rest));
    if mtu > CONTROL_OVERHEAD {
        lemma_acknowledged_to_the_end(next);
    } else {
        assert(rest =~= seq![Notice::WriteFinish]);
        assert(rest[0] == Notice::WriteFinish);
        assert(next.step(rest[0]) is Done);
        assert(write_end(next, rest) is Succeeded);
    }
}

/// Round trip with a peripheral that takes every chunk: the send
/// succeeds, and a receive that is handed its frames hands out the payload.
pub proof fn lemma_faithful_round_trip(endpoint: u128, id: u32, data: Seq<u8>, mtu: u16)
    requires
        data.len() <= u32::MAX,
        mtu > CONTROL_OVERHEAD || (mtu == CONTROL_OVERHEAD && data.len() == 0),
    ensures
        received(
            ReadState::announced(MetaData { id, total_size: data.len() as u32 }),
            frames_sent(WriteState::initial(endpoint, id, data), faithful_peer(data.len(), mtu)),
        ) == Some(data),
{
    lemma_faithful_peer_succeeds(endpoint, id, data, mtu);
    lemma_round_trip(endpoint, id, data, faithful_peer(data.len(), mtu));
}

} // verus!
