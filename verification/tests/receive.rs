use ble_transfer::error::{TransferError, Violation};
use ble_transfer::payload::{decode, decoded, encode, encoded};
use ble_transfer::transmission::meta::{ChunkMetaData, MetaData};
use ble_transfer::transmission::msg::NotifyMessage;
use ble_transfer::transmission::read::{ReadOutcome, ReadRequest, ReadTransfer, ReadyOutcome};
use ble_transfer::transmission::write::{WriteOutcome, WriteTransfer};
use ble_transfer::transmission::{DataFromBytes, Transmission};

const ENDPOINT: u128 = 0xf144af69_9642_97e1_d712_9448d1b450a1;

fn sample(len: usize) -> Vec<u8> {
    (0..len).map(|i| (i * 7 % 256) as u8).collect()
}

fn announced(id: u32, total_size: u32) -> ReadTransfer {
    let (request, _) = ReadRequest::start(ENDPOINT);
    match request.on_message(NotifyMessage::ReadReady(MetaData { id, total_size })) {
        ReadyOutcome::Read(transfer) => transfer,
        other => panic!("{:?}", other),
    }
}

fn chunk(id: u32, start: u32, bytes: &[u8]) -> Vec<u8> {
    let mut frame = ChunkMetaData { id, start, chunk_size: bytes.len() as u32 }.bytes();
    frame.extend_from_slice(bytes);
    frame
}

fn violation(outcome: ReadOutcome) -> Violation {
    match outcome {
        ReadOutcome::Abort(TransferError::Protocol(violation)) => violation,
        other => panic!("{:?}", other),
    }
}

/// Plays the peripheral that takes every chunk, and returns the frames the
/// send wrote.
fn frames_of_a_send(id: u32, data: &[u8], mtu: u16) -> Vec<Vec<u8>> {
    let (transfer, _) = WriteTransfer::start(ENDPOINT, id, data.to_vec()).unwrap();
    let mut frames = Vec::new();
    let mut outcome = transfer.on_message(NotifyMessage::WriteReady { mtu });
    loop {
        match outcome {
            WriteOutcome::Send(transfer, frame) => {
                frames.push(frame);
                let held = transfer.sent();
                outcome = if held < transfer.total_size() {
                    transfer.on_message(NotifyMessage::WriteReceive { next_start: held })
                } else {
                    transfer.on_message(NotifyMessage::WriteFinish)
                };
            }
            WriteOutcome::Done => return frames,
            other => panic!("{:?}", other),
        }
    }
}

/// Hands `frames` to a receive, one per read, and returns the payload.
fn receive(id: u32, total_size: u32, frames: &[Vec<u8>]) -> Vec<u8> {
    let mut transfer = announced(id, total_size);
    for (at, frame) in frames.iter().enumerate() {
        match transfer.on_chunk(frame) {
            ReadOutcome::More(next, _) => transfer = next,
            ReadOutcome::Done(payload, _) => {
                assert_eq!(at + 1, frames.len());
                return payload;
            }
            other => panic!("{:?}", other),
        }
    }
    panic!("the receive did not complete");
}

#[test]
fn start_asks_for_the_payload() {
    let (request, frame) = ReadRequest::start(ENDPOINT);
    assert_eq!(request.endpoint, ENDPOINT);
    assert_eq!(frame, vec![1]);
    let (request, frame) = Transmission::new(ENDPOINT).begin_read();
    assert_eq!(request.endpoint, ENDPOINT);
    assert_eq!(frame, vec![1]);
}

#[test]
fn a_stream_that_closes_at_once_is_exhaustion() {
    let (request, _) = ReadRequest::start(ENDPOINT);
    assert_eq!(request.on_closed(), TransferError::Exhausted);
}

#[test]
fn before_the_announcement_other_messages_pass_by() {
    let (mut request, _) = ReadRequest::start(ENDPOINT);
    let passing = [
        NotifyMessage::DataUpdate,
        NotifyMessage::Unknown,
        NotifyMessage::WriteReady { mtu: 100 },
        NotifyMessage::WriteReceive { next_start: 3 },
        NotifyMessage::WriteFinish,
    ];
    for message in passing {
        request = match request.on_message(message) {
            ReadyOutcome::Wait(request) => request,
            other => panic!("{:?}", other),
        };
        assert_eq!(request.endpoint, ENDPOINT);
    }
    assert_eq!(request.on_closed(), TransferError::Exhausted);
}

#[test]
fn an_error_before_the_announcement_ends_the_receive() {
    let (request, _) = ReadRequest::start(ENDPOINT);
    match request.on_message(NotifyMessage::Error(b"empty".to_vec())) {
        ReadyOutcome::Abort(error) => assert_eq!(error, TransferError::Peer(b"empty".to_vec())),
        other => panic!("{:?}", other),
    }
}

#[test]
fn the_announcement_opens_the_transfer() {
    let (request, _) = ReadRequest::start(ENDPOINT);
    let transfer = match request.on_notification(ENDPOINT, &[3, 7, 0, 0, 0, 0xe8, 3, 0, 0]) {
        ReadyOutcome::Read(transfer) => transfer,
        other => panic!("{:?}", other),
    };
    assert_eq!(transfer.id(), 7);
    assert_eq!(transfer.total_size(), 1000);
    assert_eq!(transfer.received(), 0);
}

#[test]
fn announcements_on_other_endpoints_pass_by() {
    let (request, _) = ReadRequest::start(ENDPOINT);
    assert!(matches!(
        request.on_notification(ENDPOINT - 1, &[3, 7, 0, 0, 0, 0xe8, 3, 0, 0]),
        ReadyOutcome::Wait(_)
    ));
    assert!(matches!(request.on_notification(ENDPOINT - 1, &[5, 1]), ReadyOutcome::Wait(_)));
}

#[test]
fn chunks_are_acknowledged_and_joined() {
    let data = sample(25);
    let transfer = announced(9, 25);
    let transfer = match transfer.on_chunk(&chunk(9, 0, &data[..10])) {
        ReadOutcome::More(transfer, frame) => {
            assert_eq!(frame, vec![2, 10, 0, 0, 0]);
            transfer
        }
        other => panic!("{:?}", other),
    };
    assert_eq!(transfer.received(), 10);
    let transfer = match transfer.on_chunk(&chunk(9, 10, &data[10..24])) {
        ReadOutcome::More(transfer, frame) => {
            assert_eq!(frame, vec![2, 24, 0, 0, 0]);
            transfer
        }
        other => panic!("{:?}", other),
    };
    match transfer.on_chunk(&chunk(9, 24, &data[24..])) {
        ReadOutcome::Done(received, frame) => {
            assert_eq!(frame, vec![3]);
            assert_eq!(received, data);
        }
        other => panic!("{:?}", other),
    }
}

#[test]
fn an_empty_payload_completes_with_an_empty_chunk() {
    match announced(1, 0).on_chunk(&chunk(1, 0, &[])) {
        ReadOutcome::Done(received, frame) => {
            assert!(received.is_empty());
            assert_eq!(frame, vec![3]);
        }
        other => panic!("{:?}", other),
    }
}

#[test]
fn a_chunk_of_another_transfer_ends_the_receive() {
    let data = sample(20);
    assert_eq!(
        violation(announced(9, 20).on_chunk(&chunk(10, 0, &data))),
        Violation::ChunkIdMismatch
    );
    let transfer = match announced(9, 20).on_chunk(&chunk(9, 0, &data[..5])) {
        ReadOutcome::More(transfer, _) => transfer,
        other => panic!("{:?}", other),
    };
    assert_eq!(violation(transfer.on_chunk(&chunk(8, 5, &data[5..]))), Violation::ChunkIdMismatch);
}

#[test]
fn a_foreign_chunk_is_rejected_whatever_else_is_wrong_with_it() {
    assert_eq!(
        violation(announced(9, 20).on_chunk(&chunk(10, 3, &sample(40)))),
        Violation::ChunkIdMismatch
    );
}

#[test]
fn a_chunk_out_of_order_ends_the_receive() {
    let data = sample(20);
    assert_eq!(violation(announced(9, 20).on_chunk(&chunk(9, 1, &data[1..]))), Violation::OutOfOrder);
    let transfer = match announced(9, 20).on_chunk(&chunk(9, 0, &data[..5])) {
        ReadOutcome::More(transfer, _) => transfer,
        other => panic!("{:?}", other),
    };
    assert_eq!(violation(transfer.on_chunk(&chunk(9, 0, &data[..5]))), Violation::OutOfOrder);
}

#[test]
fn a_chunk_too_short_for_its_header_ends_the_receive() {
    assert_eq!(violation(announced(9, 20).on_chunk(&[])), Violation::MalformedChunk);
    assert_eq!(violation(announced(9, 20).on_chunk(&[9, 0, 0, 0, 0, 0, 0, 0, 1, 0, 0])), Violation::MalformedChunk);
}

#[test]
fn a_chunk_whose_length_disagrees_with_its_header_ends_the_receive() {
    let mut frame = ChunkMetaData { id: 9, start: 0, chunk_size: 4 }.bytes();
    frame.extend_from_slice(&[1, 2, 3]);
    assert_eq!(violation(announced(9, 20).on_chunk(&frame)), Violation::MalformedChunk);
    frame.extend_from_slice(&[4, 5]);
    assert_eq!(violation(announced(9, 20).on_chunk(&frame)), Violation::MalformedChunk);
}

#[test]
fn a_chunk_past_the_announced_end_ends_the_receive() {
    assert_eq!(violation(announced(9, 20).on_chunk(&chunk(9, 0, &sample(21)))), Violation::ChunkOverrun);
    assert_eq!(violation(announced(9, 0).on_chunk(&chunk(9, 0, &[1]))), Violation::ChunkOverrun);
}

#[test]
fn what_a_send_writes_a_receive_reads_back() {
    for (len, mtu) in [(0usize, 12u16), (1, 13), (1000, 200), (188, 200), (189, 200), (5000, 23)] {
        let data = sample(len);
        let frames = frames_of_a_send(0xabcd, &data, mtu);
        assert_eq!(receive(0xabcd, len as u32, &frames), data);
    }
}

#[test]
fn a_value_survives_the_round_trip() {
    let text = br#"{"name":"dusk","leds":[{"r":255,"g":128,"b":0},{"r":0,"g":0,"b":0}],"loop":true,"speed":1.5,"next":null}"#;
    let value = decode(text).unwrap();
    let data = encode(&value).unwrap();
    let frames = frames_of_a_send(1, &data, 40);
    assert!(frames.len() > 1);
    let received = receive(1, data.len() as u32, &frames);
    assert_eq!(decode(&received).unwrap(), value);
}

#[test]
fn decode_reads_json() {
    let value = decode(br#"{"a":[1,2,{"b":"c"}]}"#).unwrap();
    assert_eq!(value["a"][0].as_i64(), Some(1));
    assert_eq!(value["a"][2]["b"].as_str(), Some("c"));
    assert_eq!(decode(b" 12 ").unwrap().as_u64(), Some(12));
}

#[test]
fn decode_reports_what_is_no_json() {
    for text in [&b"{\"a\":"[..], b"", b"nul", b"[1,2] x", &[0xff, 0xfe]] {
        match decode(text) {
            Err(TransferError::Serialization(reason)) => assert!(!reason.is_empty()),
            other => panic!("{:?}", other),
        }
    }
}

#[test]
fn encode_writes_json() {
    let value = serde_json::Value::Array(vec![
        serde_json::Value::Bool(true),
        serde_json::Value::Null,
        serde_json::Value::String("a\"b".to_string()),
        serde_json::Value::from(17u32),
    ]);
    assert_eq!(encode(&value).unwrap(), br#"[true,null,"a\"b",17]"#.to_vec());
}

#[test]
fn encoded_and_decoded_keep_success_and_name_failure() {
    assert_eq!(encoded(Ok(vec![1, 2, 3])), Ok(vec![1, 2, 3]));
    let failure = serde_json::from_slice::<serde_json::Value>(b"[").unwrap_err();
    let text = failure.to_string();
    assert_eq!(encoded(Err(failure)), Err(TransferError::Serialization(text)));
    assert_eq!(decoded(Ok(serde_json::Value::Bool(false))), Ok(serde_json::Value::Bool(false)));
    let failure = serde_json::from_slice::<serde_json::Value>(b"tru").unwrap_err();
    let text = failure.to_string();
    assert_eq!(decoded(Err(failure)), Err(TransferError::Serialization(text)));
}
