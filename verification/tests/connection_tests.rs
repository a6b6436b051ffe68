//! Per-connection order-id allocation and event delivery order.

use matching_gateway::connection::MatchingConnection;
use matching_gateway::pool::MatchingClient;
use matching_gateway::protocol::{MessageHeader, MessageType, OrderAckMessage, OrderType, Side};
use matching_gateway::reassembler::IncomingMessage;

fn ack_frame(client_order_id: u64) -> Vec<u8> {
    let mut frame: Vec<u8> = Vec::new();
    MessageHeader::new(MessageType::OrderAck, 48).encode(&mut frame);
    let body = OrderAckMessage {
        client_order_id,
        exchange_order_id: 77,
        user_id: 7,
        timestamp: 1,
    }
    .encode();
    frame.extend_from_slice(body.as_slice());
    frame
}

#[test]
fn ids_count_up_from_one() {
    let mut c = MatchingConnection::new();
    assert_eq!(c.last_order_id(), 0);
    let (id1, frame1) =
        c.submit_order_at(b"AAPL".to_vec(), 7, Side::Buy, OrderType::Limit, 15050, 100, 5);
    assert_eq!(id1, 1);
    assert_eq!(frame1.len(), 88);
    let (id2, frame2) =
        c.submit_order_at(b"AAPL".to_vec(), 7, Side::Buy, OrderType::Limit, 15050, 100, 6);
    assert_eq!(id2, 2);
    assert_eq!(frame2.len(), 88);
    assert_eq!(c.last_order_id(), 2);
}

#[test]
fn submit_with_clock_builds_fixed_frame() {
    let mut c = MatchingConnection::new();
    let (id, frame) = c.submit_order(b"AAPL".to_vec(), 7, Side::Buy, OrderType::Limit, 15050, 100);
    assert_eq!(id, 1);
    assert_eq!(frame.len(), 88);
    assert_eq!(frame[1], 0x01); // NewOrder tag
    let mut symbol_field = [0u8; 16];
    symbol_field[..4].copy_from_slice(b"AAPL");
    assert_eq!(&frame[16..32], &symbol_field);
    assert_eq!(frame[39], 1); // id 1, big-endian low byte
    assert_eq!(frame[48], 0x01); // Buy
    assert_eq!(frame[49], 0x01); // Limit
}

#[test]
fn cancel_builds_fixed_frame() {
    let c = MatchingConnection::new();
    let frame = c.cancel_order_at(b"AAPL".to_vec(), 3, 7, 9);
    assert_eq!(frame.len(), 56);
    assert_eq!(frame[1], 0x02); // CancelOrder tag
    assert_eq!(frame[39], 3); // client_order_id low byte
    assert_eq!(frame[47], 7); // user_id low byte
    assert_eq!(frame[55], 9); // timestamp low byte
    assert_eq!(c.last_order_id(), 0); // cancelling allocates no id

    let frame2 = c.cancel_order(b"AAPL".to_vec(), 3, 7);
    assert_eq!(frame2.len(), 56);
    assert_eq!(frame2[1], 0x02);
}

#[test]
fn single_connection_pool_scenario() {
    // A pool of size 1: one 88-byte NewOrder frame per submission, id 1 then
    // id 2, and the ack for id 1 delivered on that connection's queue
    // strictly before anything tagged id 2.
    let pool_outcomes = vec![true];
    let mut pool = MatchingClient::new(&pool_outcomes).unwrap();
    assert_eq!(pool.connection_count(), 1);

    let (slot1, id1, frame1) = pool
        .submit_order_at(0, b"AAPL".to_vec(), 7, Side::Buy, OrderType::Limit, 15050, 100, 11)
        .unwrap();
    assert_eq!(slot1, 0);
    assert_eq!(id1, 1);
    assert_eq!(frame1.len(), 88);

    let (slot2, id2, _frame2) = pool
        .submit_order_at(1, b"AAPL".to_vec(), 7, Side::Buy, OrderType::Limit, 15050, 100, 12)
        .unwrap();
    assert_eq!(slot2, 0); // only one live connection to land on
    assert_eq!(id2, 2);

    // The peer answers in request order: ack for 1, then ack for 2.
    let mut inbound: Vec<u8> = Vec::new();
    inbound.extend_from_slice(ack_frame(1).as_slice());
    inbound.extend_from_slice(ack_frame(2).as_slice());
    let events = pool.on_bytes(0, inbound.as_slice());
    assert_eq!(events.len(), 2);
    assert!(matches!(events[0], IncomingMessage::OrderAck(ref m) if m.client_order_id == 1));
    assert!(matches!(events[1], IncomingMessage::OrderAck(ref m) if m.client_order_id == 2));
}
