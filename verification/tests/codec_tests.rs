//! Encoding and decoding of every message kind against the fixed layouts.

use matching_gateway::protocol::{
    CancelOrderMessage, ExecutionMessage, MessageHeader, MessageType, NewOrderMessage,
    OrderAckMessage, OrderRejectMessage, OrderType, ProtocolError, Side, PROTOCOL_VERSION,
};

fn be64(b: &[u8]) -> u64 {
    let mut x: u64 = 0;
    for i in 0..8 {
        x = (x << 8) | (b[i] as u64);
    }
    x
}

#[test]
fn header_encode_layout() {
    let h = MessageHeader::new(MessageType::OrderAck, 48);
    assert_eq!(h.version, PROTOCOL_VERSION);
    assert_eq!(h.reserved, 0);
    assert_eq!(h.sequence, 0);
    let mut buf: Vec<u8> = Vec::new();
    h.encode(&mut buf);
    assert_eq!(buf.len(), 16);
    assert_eq!(buf[0], 1); // version
    assert_eq!(buf[1], 0x10); // OrderAck tag
    assert_eq!(&buf[2..4], &[0, 0]); // reserved
    assert_eq!(&buf[4..8], &[0, 0, 0, 48]); // length, big-endian
    assert_eq!(&buf[8..16], &[0; 8]); // sequence
}

#[test]
fn header_roundtrip() {
    let h = MessageHeader {
        version: 3,
        msg_type: MessageType::Execution,
        reserved: 0x0102,
        length: 0xDEADBEEF,
        sequence: 0x1122334455667788,
    };
    let mut buf: Vec<u8> = Vec::new();
    h.encode(&mut buf);
    let d = MessageHeader::decode(buf.as_slice()).unwrap();
    assert_eq!(d.version, 3);
    assert_eq!(d.msg_type, MessageType::Execution);
    assert_eq!(d.reserved, 0x0102);
    assert_eq!(d.length, 0xDEADBEEF);
    assert_eq!(d.sequence, 0x1122334455667788);
}

#[test]
fn header_truncated() {
    let buf = vec![1u8; 15];
    assert_eq!(
        MessageHeader::decode(buf.as_slice()),
        Err(ProtocolError::HeaderTruncated)
    );
}

#[test]
fn header_unknown_kind() {
    let mut buf = vec![0u8; 16];
    buf[0] = 1;
    buf[1] = 0x99;
    assert_eq!(
        MessageHeader::decode(buf.as_slice()),
        Err(ProtocolError::UnknownMessageKind)
    );
}

#[test]
fn message_type_tags_roundtrip() {
    let kinds = [
        (MessageType::NewOrder, 0x01u8),
        (MessageType::CancelOrder, 0x02),
        (MessageType::ReplaceOrder, 0x03),
        (MessageType::OrderAck, 0x10),
        (MessageType::OrderReject, 0x11),
        (MessageType::OrderCancelled, 0x12),
        (MessageType::OrderReplaced, 0x13),
        (MessageType::Execution, 0x20),
        (MessageType::Trade, 0x30),
        (MessageType::Quote, 0x31),
        (MessageType::Heartbeat, 0xF0),
        (MessageType::Logon, 0xF1),
        (MessageType::Logout, 0xF2),
    ];
    for (kind, tag) in kinds {
        assert_eq!(kind.as_u8(), tag);
        assert_eq!(MessageType::from_u8(tag), Ok(kind));
    }
    assert_eq!(
        MessageType::from_u8(0x99),
        Err(ProtocolError::UnknownMessageKind)
    );
    assert_eq!(Side::Buy.as_u8(), 0x01);
    assert_eq!(Side::Sell.as_u8(), 0x02);
    assert_eq!(OrderType::Limit.as_u8(), 0x01);
    assert_eq!(OrderType::Market.as_u8(), 0x02);
}

#[test]
fn new_order_layout() {
    let m = NewOrderMessage::new_at(
        b"AAPL".to_vec(),
        1,
        7,
        Side::Buy,
        OrderType::Limit,
        15050,
        100,
        123,
    );
    let buf = m.encode();
    assert_eq!(buf.len(), 88);
    assert_eq!(buf[0], 1); // version
    assert_eq!(buf[1], 0x01); // NewOrder tag
    assert_eq!(&buf[4..8], &[0, 0, 0, 88]); // whole-frame length
    let mut symbol_field = [0u8; 16];
    symbol_field[..4].copy_from_slice(b"AAPL");
    assert_eq!(&buf[16..32], &symbol_field);
    assert_eq!(be64(&buf[32..40]), 1); // client_order_id
    assert_eq!(be64(&buf[40..48]), 7); // user_id
    assert_eq!(buf[48], 0x01); // Buy
    assert_eq!(buf[49], 0x01); // Limit
    assert_eq!(&buf[50..52], &[0, 0]); // reserved
    assert_eq!(be64(&buf[52..60]), 15050); // price in cents
    assert_eq!(be64(&buf[60..68]), 100); // quantity
    assert_eq!(be64(&buf[68..76]), 123); // timestamp
    assert_eq!(&buf[76..88], &[0u8; 12]); // reserved tail
}

#[test]
fn new_order_roundtrip() {
    let m = NewOrderMessage::new_at(
        b"MSFT".to_vec(),
        42,
        9,
        Side::Sell,
        OrderType::Market,
        31337,
        250,
        0xCAFEBABE,
    );
    let buf = m.encode();
    let d = NewOrderMessage::decode(buf.as_slice()).unwrap();
    assert_eq!(d.header.msg_type, MessageType::NewOrder);
    assert_eq!(d.header.length, 88);
    assert_eq!(d.symbol, b"MSFT".to_vec());
    assert_eq!(d.client_order_id, 42);
    assert_eq!(d.user_id, 9);
    assert_eq!(d.side, Side::Sell);
    assert_eq!(d.order_type, OrderType::Market);
    assert_eq!(d.price, 31337);
    assert_eq!(d.quantity, 250);
    assert_eq!(d.timestamp, 0xCAFEBABE);
}

#[test]
fn new_order_truncated() {
    let m = NewOrderMessage::new_at(b"A".to_vec(), 1, 1, Side::Buy, OrderType::Limit, 1, 1, 1);
    let buf = m.encode();
    let r = NewOrderMessage::decode(&buf.as_slice()[..87]);
    assert!(matches!(r, Err(ProtocolError::BodyTruncated)));
}

#[test]
fn cancel_order_roundtrip() {
    let m = CancelOrderMessage::new_at(b"GOOG".to_vec(), 5, 11, 777);
    let buf = m.encode();
    assert_eq!(buf.len(), 56);
    assert_eq!(buf[1], 0x02); // CancelOrder tag
    assert_eq!(&buf[4..8], &[0, 0, 0, 56]);
    let d = CancelOrderMessage::decode(buf.as_slice()).unwrap();
    assert_eq!(d.symbol, b"GOOG".to_vec());
    assert_eq!(d.client_order_id, 5);
    assert_eq!(d.user_id, 11);
    assert_eq!(d.timestamp, 777);
}

#[test]
fn cancel_order_truncated() {
    let m = CancelOrderMessage::new_at(b"GOOG".to_vec(), 5, 11, 777);
    let buf = m.encode();
    let r = CancelOrderMessage::decode(&buf.as_slice()[..55]);
    assert!(matches!(r, Err(ProtocolError::BodyTruncated)));
}

#[test]
fn order_ack_roundtrip() {
    let m = OrderAckMessage {
        client_order_id: 1,
        exchange_order_id: 0x00FF00FF00FF00FF,
        user_id: 7,
        timestamp: 99,
    };
    let buf = m.encode();
    assert_eq!(buf.len(), 32);
    assert_eq!(OrderAckMessage::decode(buf.as_slice()), Ok(m));
}

#[test]
fn order_ack_truncated() {
    let buf = vec![0u8; 31];
    assert_eq!(
        OrderAckMessage::decode(buf.as_slice()),
        Err(ProtocolError::BodyTruncated)
    );
}

#[test]
fn order_reject_roundtrip() {
    let m = OrderRejectMessage {
        client_order_id: 12,
        user_id: 7,
        reason: 3,
        text: b"risk limit exceeded".to_vec(),
        timestamp: 456,
    };
    let buf = m.encode();
    assert_eq!(buf.len(), 96);
    let d = OrderRejectMessage::decode(buf.as_slice()).unwrap();
    assert_eq!(d.client_order_id, 12);
    assert_eq!(d.user_id, 7);
    assert_eq!(d.reason, 3);
    assert_eq!(d.text, b"risk limit exceeded".to_vec());
    assert_eq!(d.timestamp, 456);
}

#[test]
fn order_reject_truncated() {
    let buf = vec![0u8; 95];
    assert!(matches!(
        OrderRejectMessage::decode(buf.as_slice()),
        Err(ProtocolError::BodyTruncated)
    ));
}

#[test]
fn execution_roundtrip() {
    let m = ExecutionMessage {
        symbol: b"TSLA".to_vec(),
        client_order_id: 2,
        exchange_order_id: 1001,
        execution_id: 5005,
        user_id: 7,
        side: Side::Sell,
        fill_price: 15000,
        fill_quantity: 40,
        leaves_quantity: 60,
        timestamp: 789,
    };
    let buf = m.encode();
    assert_eq!(buf.len(), 88);
    assert_eq!(buf[48], 0x02); // Sell tag
    let d = ExecutionMessage::decode(buf.as_slice()).unwrap();
    assert_eq!(d.symbol, b"TSLA".to_vec());
    assert_eq!(d.client_order_id, 2);
    assert_eq!(d.exchange_order_id, 1001);
    assert_eq!(d.execution_id, 5005);
    assert_eq!(d.user_id, 7);
    assert_eq!(d.side, Side::Sell);
    assert_eq!(d.fill_price, 15000);
    assert_eq!(d.fill_quantity, 40);
    assert_eq!(d.leaves_quantity, 60);
    assert_eq!(d.timestamp, 789);
}

#[test]
fn execution_truncated() {
    let buf = vec![0u8; 87];
    assert!(matches!(
        ExecutionMessage::decode(buf.as_slice()),
        Err(ProtocolError::BodyTruncated)
    ));
}

#[test]
fn execution_nonbuy_byte_reads_as_sell() {
    let m = ExecutionMessage {
        symbol: b"X".to_vec(),
        client_order_id: 1,
        exchange_order_id: 1,
        execution_id: 1,
        user_id: 1,
        side: Side::Buy,
        fill_price: 1,
        fill_quantity: 1,
        leaves_quantity: 0,
        timestamp: 1,
    };
    let mut buf = m.encode();
    buf[48] = 0x7E; // neither Buy nor Sell on the wire
    let d = ExecutionMessage::decode(buf.as_slice()).unwrap();
    assert_eq!(d.side, Side::Sell);
}

#[test]
fn symbol_roundtrip_fifteen_chars() {
    let sym = b"ABCDEFGHIJKLMNO"; // 15 characters
    let m = NewOrderMessage::new_at(sym.to_vec(), 1, 1, Side::Buy, OrderType::Limit, 1, 1, 1);
    let buf = m.encode();
    let mut field = [0u8; 16];
    field[..15].copy_from_slice(sym);
    assert_eq!(&buf[16..32], &field); // fixed 16-byte field, one NUL of padding
    let d = NewOrderMessage::decode(buf.as_slice()).unwrap();
    assert_eq!(d.symbol, sym.to_vec());
}

#[test]
fn symbol_roundtrip_twenty_chars_truncates() {
    let sym = b"ABCDEFGHIJKLMNOPQRST"; // 20 characters
    let m = NewOrderMessage::new_at(sym.to_vec(), 1, 1, Side::Buy, OrderType::Limit, 1, 1, 1);
    let buf = m.encode();
    assert_eq!(buf.len(), 88); // still the fixed frame
    assert_eq!(&buf[16..31], &sym[..15]);
    assert_eq!(buf[31], 0);
    let d = NewOrderMessage::decode(buf.as_slice()).unwrap();
    assert_eq!(d.symbol, b"ABCDEFGHIJKLMNO".to_vec()); // first 15, no trailing NULs
}

#[test]
fn reject_text_full_field() {
    let text = vec![b'x'; 64];
    let m = OrderRejectMessage {
        client_order_id: 1,
        user_id: 1,
        reason: 1,
        text: text.clone(),
        timestamp: 1,
    };
    let d = OrderRejectMessage::decode(m.encode().as_slice()).unwrap();
    assert_eq!(d.text, text);
}
