//! Stream reassembly: chunking, waiting, resynchronization, per-frame drops.

use matching_gateway::protocol::{
    ExecutionMessage, MessageHeader, MessageType, OrderAckMessage, OrderType, Side,
};
use matching_gateway::reassembler::{IncomingMessage, Reassembler};

fn ack_frame(client_order_id: u64) -> Vec<u8> {
    let mut frame: Vec<u8> = Vec::new();
    MessageHeader::new(MessageType::OrderAck, 48).encode(&mut frame);
    let body = OrderAckMessage {
        client_order_id,
        exchange_order_id: 9000 + client_order_id,
        user_id: 7,
        timestamp: 1,
    }
    .encode();
    frame.extend_from_slice(body.as_slice());
    frame
}

fn execution_frame(client_order_id: u64) -> Vec<u8> {
    let mut frame: Vec<u8> = Vec::new();
    MessageHeader::new(MessageType::Execution, 104).encode(&mut frame);
    let body = ExecutionMessage {
        symbol: b"AAPL".to_vec(),
        client_order_id,
        exchange_order_id: 1,
        execution_id: 2,
        user_id: 7,
        side: Side::Buy,
        fill_price: 15050,
        fill_quantity: 100,
        leaves_quantity: 0,
        timestamp: 3,
    }
    .encode();
    frame.extend_from_slice(body.as_slice());
    frame
}

fn heartbeat_frame() -> Vec<u8> {
    let mut frame: Vec<u8> = Vec::new();
    MessageHeader::new(MessageType::Heartbeat, 16).encode(&mut frame);
    frame
}

fn ack_id(ev: &IncomingMessage) -> u64 {
    match ev {
        IncomingMessage::OrderAck(m) => m.client_order_id,
        _ => panic!("expected an OrderAck"),
    }
}

#[test]
fn whole_stream_decodes_in_order() {
    let mut stream: Vec<u8> = Vec::new();
    stream.extend_from_slice(ack_frame(1).as_slice());
    stream.extend_from_slice(heartbeat_frame().as_slice());
    stream.extend_from_slice(execution_frame(1).as_slice());
    stream.extend_from_slice(ack_frame(2).as_slice());

    let mut r = Reassembler::new();
    let events = r.feed(stream.as_slice());
    assert_eq!(events.len(), 3); // the heartbeat is skipped
    assert!(matches!(events[0], IncomingMessage::OrderAck(ref m) if m.client_order_id == 1));
    assert!(matches!(events[1], IncomingMessage::Execution(ref m) if m.client_order_id == 1));
    assert!(matches!(events[2], IncomingMessage::OrderAck(ref m) if m.client_order_id == 2));
    assert_eq!(r.buffered(), 0);
}

#[test]
fn byte_at_a_time_equals_whole() {
    let mut stream: Vec<u8> = Vec::new();
    stream.extend_from_slice(ack_frame(1).as_slice());
    stream.extend_from_slice(execution_frame(1).as_slice());
    stream.extend_from_slice(heartbeat_frame().as_slice());
    stream.extend_from_slice(ack_frame(2).as_slice());

    let mut whole = Reassembler::new();
    let expected: Vec<u64> = whole
        .feed(stream.as_slice())
        .iter()
        .map(|ev| match ev {
            IncomingMessage::OrderAck(m) => m.client_order_id,
            IncomingMessage::OrderReject(m) => m.client_order_id,
            IncomingMessage::Execution(m) => m.client_order_id,
        })
        .collect();

    let mut trickle = Reassembler::new();
    let mut got: Vec<u64> = Vec::new();
    for byte in stream.iter() {
        let one = [*byte];
        for ev in trickle.feed(&one) {
            got.push(match ev {
                IncomingMessage::OrderAck(m) => m.client_order_id,
                IncomingMessage::OrderReject(m) => m.client_order_id,
                IncomingMessage::Execution(m) => m.client_order_id,
            });
        }
    }
    assert_eq!(got, expected);
    assert_eq!(trickle.buffered(), 0);
}

#[test]
fn declared_length_beyond_buffer_waits() {
    let frame = ack_frame(1);
    let mut r = Reassembler::new();
    // The full header arrives, declaring 48 bytes, but nothing more yet.
    let events = r.feed(&frame.as_slice()[..16]);
    assert!(events.is_empty());
    assert_eq!(r.buffered(), 16); // exactly those bytes are left intact
    // Half the body: still waiting, still nothing consumed.
    let events = r.feed(&frame.as_slice()[16..30]);
    assert!(events.is_empty());
    assert_eq!(r.buffered(), 30);
    // The rest completes the frame.
    let events = r.feed(&frame.as_slice()[30..]);
    assert_eq!(events.len(), 1);
    assert_eq!(ack_id(&events[0]), 1);
    assert_eq!(r.buffered(), 0);
}

#[test]
fn unknown_kind_discards_buffer_and_resyncs() {
    let mut bad: Vec<u8> = vec![0u8; 24];
    bad[0] = 1;
    bad[1] = 0x99; // no such kind
    let mut r = Reassembler::new();
    let events = r.feed(bad.as_slice());
    assert!(events.is_empty());
    assert_eq!(r.buffered(), 0); // the whole accumulator is gone
    // Decoding resumes cleanly on the next well-formed bytes.
    let events = r.feed(ack_frame(3).as_slice());
    assert_eq!(events.len(), 1);
    assert_eq!(ack_id(&events[0]), 3);
    assert_eq!(r.buffered(), 0);
}

#[test]
fn length_shorter_than_header_discards_buffer() {
    let mut bad: Vec<u8> = Vec::new();
    MessageHeader::new(MessageType::OrderAck, 5).encode(&mut bad); // length < 16
    bad.extend_from_slice(&[0u8; 8]);
    let mut r = Reassembler::new();
    let events = r.feed(bad.as_slice());
    assert!(events.is_empty());
    assert_eq!(r.buffered(), 0);
    let events = r.feed(ack_frame(4).as_slice());
    assert_eq!(events.len(), 1);
    assert_eq!(ack_id(&events[0]), 4);
}

#[test]
fn short_body_drops_single_frame_only() {
    // A recognized kind whose declared frame is too short for its body:
    // that frame alone is dropped, and decoding continues past it.
    let mut stream: Vec<u8> = Vec::new();
    MessageHeader::new(MessageType::OrderAck, 20).encode(&mut stream); // body of 4 < 32
    stream.extend_from_slice(&[9u8; 4]);
    stream.extend_from_slice(ack_frame(5).as_slice());
    let mut r = Reassembler::new();
    let events = r.feed(stream.as_slice());
    assert_eq!(events.len(), 1);
    assert_eq!(ack_id(&events[0]), 5);
    assert_eq!(r.buffered(), 0);
}

#[test]
fn unhandled_kinds_are_skipped() {
    let mut stream: Vec<u8> = Vec::new();
    stream.extend_from_slice(heartbeat_frame().as_slice());
    let mut logon: Vec<u8> = Vec::new();
    MessageHeader::new(MessageType::Logon, 24).encode(&mut logon);
    logon.extend_from_slice(&[0u8; 8]);
    stream.extend_from_slice(logon.as_slice());
    stream.extend_from_slice(ack_frame(6).as_slice());
    let mut r = Reassembler::new();
    let events = r.feed(stream.as_slice());
    assert_eq!(events.len(), 1);
    assert_eq!(ack_id(&events[0]), 6);
}

#[test]
fn trailing_partial_frame_is_kept() {
    let mut stream: Vec<u8> = Vec::new();
    stream.extend_from_slice(ack_frame(7).as_slice());
    stream.extend_from_slice(&execution_frame(7).as_slice()[..40]); // incomplete
    let mut r = Reassembler::new();
    let events = r.feed(stream.as_slice());
    assert_eq!(events.len(), 1);
    assert_eq!(ack_id(&events[0]), 7);
    assert_eq!(r.buffered(), 40);
}
