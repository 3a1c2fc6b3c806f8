use ble_transfer::error::{ErrorKind, TransferError, Violation};
use ble_transfer::transmission::meta::{ChunkMetaData, MetaData};
use ble_transfer::transmission::msg::NotifyMessage;
use ble_transfer::transmission::write::{WriteOutcome, WriteTransfer, CONTROL_OVERHEAD};
use ble_transfer::transmission::{DataFromBytes, Transmission};

const ENDPOINT: u128 = 0xc7d7ee2f_c84b_4f5c_a2a4_e642c97a880d;

fn payload(len: usize) -> Vec<u8> {
    (0..len).map(|i| (i % 251) as u8).collect()
}

fn started(id: u32, data: &[u8]) -> WriteTransfer {
    let (transfer, _) = WriteTransfer::start(ENDPOINT, id, data.to_vec()).unwrap();
    transfer
}

fn sending(id: u32, data: &[u8], mtu: u16) -> (WriteTransfer, Vec<u8>) {
    match started(id, data).on_message(NotifyMessage::WriteReady { mtu }) {
        WriteOutcome::Send(transfer, frame) => (transfer, frame),
        other => panic!("no first chunk: {:?}", other),
    }
}

/// Plays the peripheral that takes every chunk, and returns the frames the
/// send wrote.
fn run_to_the_end(id: u32, data: &[u8], mtu: u16) -> Vec<Vec<u8>> {
    let (mut transfer, frame) = sending(id, data, mtu);
    let mut frames = vec![frame];
    loop {
        let held = transfer.sent();
        let answer = if held < transfer.total_size() {
            NotifyMessage::WriteReceive { next_start: held }
        } else {
            NotifyMessage::WriteFinish
        };
        match transfer.on_message(answer) {
            WriteOutcome::Send(next, frame) => {
                frames.push(frame);
                transfer = next;
            }
            WriteOutcome::Done => return frames,
            other => panic!("the send stopped: {:?}", other),
        }
    }
}

#[test]
fn start_announces_the_payload() {
    let (transfer, frame) = WriteTransfer::start(ENDPOINT, 0x0102_0304, payload(1000)).unwrap();
    assert_eq!(frame, vec![0, 4, 3, 2, 1, 0xe8, 3, 0, 0]);
    assert_eq!(transfer.id(), 0x0102_0304);
    assert_eq!(transfer.endpoint(), ENDPOINT);
    assert_eq!(transfer.total_size(), 1000);
    assert_eq!(transfer.sent(), 0);
    assert_eq!(transfer.mtu(), None);
}

#[test]
fn begin_write_announces_under_the_id_it_drew() {
    let transmission = Transmission::new(ENDPOINT);
    let (transfer, frame) = transmission.begin_write(payload(300)).unwrap();
    let id = transfer.id();
    let mut expected = vec![0];
    expected.extend_from_slice(&MetaData { id, total_size: 300 }.bytes());
    assert_eq!(frame, expected);
    assert_eq!(transfer.endpoint(), ENDPOINT);
    assert_eq!(transfer.total_size(), 300);
}

#[test]
fn begin_write_draws_different_ids() {
    let transmission = Transmission::new(ENDPOINT);
    let mut ids = Vec::new();
    for _ in 0..16 {
        let (transfer, _) = transmission.begin_write(Vec::new()).unwrap();
        ids.push(transfer.id());
    }
    ids.sort();
    ids.dedup();
    assert!(ids.len() > 1);
}

#[test]
fn a_thousand_bytes_in_frames_of_two_hundred() {
    let data = payload(1000);
    let frames = run_to_the_end(42, &data, 200);
    assert_eq!(CONTROL_OVERHEAD, 12);
    let mut sizes = Vec::new();
    let mut starts = Vec::new();
    let mut joined = Vec::new();
    for frame in &frames {
        let (header, chunk) = ChunkMetaData::from_data(frame);
        assert_eq!(header.id, 42);
        assert_eq!(header.chunk_size as usize, chunk.len());
        sizes.push(header.chunk_size);
        starts.push(header.start);
        joined.extend_from_slice(chunk);
    }
    assert_eq!(sizes, vec![188, 188, 188, 188, 188, 60]);
    assert_eq!(starts, vec![0, 188, 376, 564, 752, 940]);
    assert_eq!(joined, data);
}

#[test]
fn chunks_cover_the_payload_once_and_in_order() {
    for (len, mtu) in [(1usize, 13u16), (5, 13), (100, 20), (999, 100), (4096, 512), (33, 45)] {
        let data = payload(len);
        let frames = run_to_the_end(7, &data, mtu);
        let mut next = 0u32;
        let mut joined = Vec::new();
        for frame in &frames {
            assert!(frame.len() <= mtu as usize);
            let (header, chunk) = ChunkMetaData::from_data(frame);
            assert_eq!(header.start, next);
            assert!(header.chunk_size <= mtu as u32 - CONTROL_OVERHEAD);
            assert_eq!(chunk, &data[next as usize..(next + header.chunk_size) as usize]);
            next += header.chunk_size;
            joined.extend_from_slice(chunk);
        }
        assert_eq!(next as usize, len);
        assert_eq!(joined, data);
    }
}

#[test]
fn a_payload_that_fits_goes_in_one_chunk() {
    let data = payload(188);
    let (transfer, frame) = sending(3, &data, 200);
    assert_eq!(frame.len(), 200);
    let (header, chunk) = ChunkMetaData::from_data(&frame);
    assert_eq!(header, ChunkMetaData { id: 3, start: 0, chunk_size: 188 });
    assert_eq!(chunk, &data[..]);
    assert_eq!(transfer.sent(), 188);
    assert!(matches!(transfer.on_message(NotifyMessage::WriteFinish), WriteOutcome::Done));
    assert_eq!(run_to_the_end(3, &data, 200).len(), 1);
    assert_eq!(run_to_the_end(3, &payload(189), 200).len(), 2);
}

#[test]
fn an_empty_payload_goes_in_one_empty_chunk() {
    let (transfer, frame) = sending(8, &[], 12);
    assert_eq!(frame, ChunkMetaData { id: 8, start: 0, chunk_size: 0 }.bytes());
    assert!(matches!(transfer.on_message(NotifyMessage::WriteFinish), WriteOutcome::Done));
}

#[test]
fn the_peripheral_may_acknowledge_the_end_before_it_finishes() {
    let (transfer, _) = sending(8, &payload(10), 100);
    let transfer = match transfer.on_message(NotifyMessage::WriteReceive { next_start: 10 }) {
        WriteOutcome::Wait(transfer) => transfer,
        other => panic!("{:?}", other),
    };
    assert_eq!(transfer.sent(), 10);
    assert!(matches!(transfer.on_message(NotifyMessage::WriteFinish), WriteOutcome::Done));
}

#[test]
fn before_readiness_other_messages_pass_by() {
    let mut transfer = started(1, &payload(50));
    let passing = [
        NotifyMessage::DataUpdate,
        NotifyMessage::Unknown,
        NotifyMessage::WriteFinish,
        NotifyMessage::WriteReceive { next_start: 0 },
        NotifyMessage::ReadReady(MetaData { id: 99, total_size: 5 }),
    ];
    for message in passing {
        transfer = match transfer.on_message(message) {
            WriteOutcome::Wait(transfer) => transfer,
            other => panic!("{:?}", other),
        };
        assert_eq!(transfer.sent(), 0);
        assert_eq!(transfer.mtu(), None);
    }
    assert!(matches!(
        transfer.on_message(NotifyMessage::WriteReady { mtu: 100 }),
        WriteOutcome::Send(_, _)
    ));
}

#[test]
fn an_error_before_readiness_ends_the_send() {
    match started(1, &payload(50)).on_message(NotifyMessage::Error(b"flash full".to_vec())) {
        WriteOutcome::Abort(error) => assert_eq!(error, TransferError::Peer(b"flash full".to_vec())),
        other => panic!("{:?}", other),
    }
}

#[test]
fn an_error_between_chunks_ends_the_send() {
    let (transfer, _) = sending(1, &payload(50), 20);
    match transfer.on_message(NotifyMessage::Error(b"crc".to_vec())) {
        WriteOutcome::Abort(error) => assert_eq!(error, TransferError::Peer(b"crc".to_vec())),
        other => panic!("{:?}", other),
    }
}

#[test]
fn a_frame_size_below_the_header_is_refused() {
    for mtu in [0u16, 1, 11] {
        match started(1, &payload(50)).on_message(NotifyMessage::WriteReady { mtu }) {
            WriteOutcome::Abort(error) => {
                assert_eq!(error, TransferError::Protocol(Violation::MtuTooSmall))
            }
            other => panic!("{:?}", other),
        }
    }
}

#[test]
fn an_acknowledgement_out_of_order_ends_the_send() {
    for next_start in [0u32, 7, 9, 50, u32::MAX] {
        let (transfer, _) = sending(1, &payload(50), 20);
        assert_eq!(transfer.sent(), 8);
        match transfer.on_message(NotifyMessage::WriteReceive { next_start }) {
            WriteOutcome::Abort(error) => {
                assert_eq!(error, TransferError::Protocol(Violation::OutOfOrder))
            }
            other => panic!("{:?}", other),
        }
    }
}

#[test]
fn finishing_before_the_last_chunk_ends_the_send() {
    let (transfer, _) = sending(1, &payload(50), 20);
    match transfer.on_message(NotifyMessage::WriteFinish) {
        WriteOutcome::Abort(error) => {
            assert_eq!(error, TransferError::Protocol(Violation::PrematureFinish))
        }
        other => panic!("{:?}", other),
    }
}

#[test]
fn between_chunks_any_other_message_ends_the_send() {
    let others = [
        NotifyMessage::DataUpdate,
        NotifyMessage::Unknown,
        NotifyMessage::WriteReady { mtu: 100 },
        NotifyMessage::ReadReady(MetaData { id: 1, total_size: 50 }),
        NotifyMessage::ReadReady(MetaData { id: 2, total_size: 50 }),
    ];
    for message in others {
        let (transfer, _) = sending(1, &payload(50), 20);
        match transfer.on_message(message) {
            WriteOutcome::Abort(error) => {
                assert_eq!(error, TransferError::Protocol(Violation::UnexpectedMessage))
            }
            other => panic!("{:?}", other),
        }
    }
}

#[test]
fn notifications_of_other_endpoints_pass_by() {
    let (transfer, _) = sending(1, &payload(50), 20);
    let transfer = match transfer.on_notification(ENDPOINT + 1, &[2]) {
        WriteOutcome::Wait(transfer) => transfer,
        other => panic!("{:?}", other),
    };
    assert_eq!(transfer.sent(), 8);
    match transfer.on_notification(ENDPOINT, &[2]) {
        WriteOutcome::Abort(error) => {
            assert_eq!(error, TransferError::Protocol(Violation::PrematureFinish))
        }
        other => panic!("{:?}", other),
    }
}

#[test]
fn a_send_driven_by_raw_notifications() {
    let data = payload(30);
    let transfer = started(0x55, &data);
    let (transfer, first) = match transfer.on_notification(ENDPOINT, &[0, 32, 0]) {
        WriteOutcome::Send(transfer, frame) => (transfer, frame),
        other => panic!("{:?}", other),
    };
    let mut expected = ChunkMetaData { id: 0x55, start: 0, chunk_size: 20 }.bytes();
    expected.extend_from_slice(&data[..20]);
    assert_eq!(first, expected);
    let (transfer, second) = match transfer.on_notification(ENDPOINT, &[1, 20, 0, 0, 0]) {
        WriteOutcome::Send(transfer, frame) => (transfer, frame),
        other => panic!("{:?}", other),
    };
    let mut expected = ChunkMetaData { id: 0x55, start: 20, chunk_size: 10 }.bytes();
    expected.extend_from_slice(&data[20..]);
    assert_eq!(second, expected);
    assert!(matches!(transfer.on_notification(ENDPOINT, &[2]), WriteOutcome::Done));
}

#[test]
fn a_closed_stream_is_exhaustion() {
    assert_eq!(started(1, &payload(5)).on_closed(), TransferError::Exhausted);
    let (transfer, _) = sending(1, &payload(50), 20);
    assert_eq!(transfer.on_closed(), TransferError::Exhausted);
}

#[test]
fn errors_by_kind() {
    assert_eq!(TransferError::Peer(b"x".to_vec()).kind(), ErrorKind::Protocol);
    for violation in [
        Violation::ChunkIdMismatch,
        Violation::UnexpectedMessage,
        Violation::OutOfOrder,
        Violation::MalformedChunk,
        Violation::ChunkOverrun,
        Violation::PrematureFinish,
        Violation::MtuTooSmall,
    ] {
        assert_eq!(TransferError::Protocol(violation).kind(), ErrorKind::Protocol);
    }
    assert_eq!(TransferError::Exhausted.kind(), ErrorKind::Exhaustion);
    assert_eq!(TransferError::Serialization("eof".to_string()).kind(), ErrorKind::Serialization);
    assert_eq!(TransferError::Oversize.kind(), ErrorKind::Oversize);
}

#[test]
fn violations_describe_themselves() {
    assert_eq!(Violation::ChunkIdMismatch.message(), "chunk id not match");
    assert_eq!(Violation::UnexpectedMessage.message(), "unexpected message");
    assert_eq!(Violation::OutOfOrder.message(), "offset out of order");
    assert_eq!(Violation::MalformedChunk.message(), "malformed chunk");
    assert_eq!(Violation::ChunkOverrun.message(), "chunk past the end");
    assert_eq!(Violation::PrematureFinish.message(), "finished before the end");
    assert_eq!(Violation::MtuTooSmall.message(), "mtu too small");
}
