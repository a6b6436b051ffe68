//! Wire codec for the gateway protocol: fixed-layout binary messages, all
//! multi-byte fields in network byte order.
//!
//! Every frame starts with a 16-byte header `{version, kind, reserved,
//! length, sequence}` where `length` counts the entire frame, header
//! included. Each message kind has a fixed layout; encoding never produces
//! variable-length output. The spec functions `header_bytes`,
//! `new_order_bytes`, ... give the exact bytes of each layout, and the spec
//! functions `parse_header`, `parse_new_order`, ... the exact reading of
//! them; encoders and decoders are proved against these.

use vstd::prelude::*;

use crate::endian::{
    push_u16_be, push_u32_be, push_u64_be, read_u16_be, read_u32_be, read_u64_be, u16_be_bytes,
    u16_of_be, u32_be_bytes, u32_of_be, u64_be_bytes, u64_of_be,
};

verus! {

/// Protocol version written into every outbound header.
pub const PROTOCOL_VERSION: u8 = 1;

/// Why a buffer failed to decode.
#[derive(Clone, Copy, Debug, PartialEq, Eq, Structural)]
pub enum ProtocolError {
    /// Fewer than 16 bytes where a header was expected.
    HeaderTruncated,
    /// The kind byte names no known message kind.
    UnknownMessageKind,
    /// Fewer bytes than the kind's fixed layout needs.
    BodyTruncated,
}

/// Message kinds of the wire protocol. The numeric tags written by
/// [`MessageType::as_u8`] are a wire contract shared with the peer.
#[derive(Clone, Copy, Debug, PartialEq, Eq, Structural)]
pub enum MessageType {
    NewOrder,
    CancelOrder,
    ReplaceOrder,
    OrderAck,
    OrderReject,
    OrderCancelled,
    OrderReplaced,
    Execution,
    Trade,
    Quote,
    Heartbeat,
    Logon,
    Logout,
}

impl MessageType {
    /// The tag byte of this kind on the wire.
    pub open spec fn code(self) -> u8 {
        match self {
            MessageType::NewOrder => 0x01,
            MessageType::CancelOrder => 0x02,
            MessageType::ReplaceOrder => 0x03,
            MessageType::OrderAck => 0x10,
            MessageType::OrderReject => 0x11,
            MessageType::OrderCancelled => 0x12,
            MessageType::OrderReplaced => 0x13,
            MessageType::Execution => 0x20,
            MessageType::Trade => 0x30,
            MessageType::Quote => 0x31,
            MessageType::Heartbeat => 0xF0,
            MessageType::Logon => 0xF1,
            MessageType::Logout => 0xF2,
        }
    }

    /// The kind a tag byte names, if any.
    pub open spec fn spec_from_u8(b: u8) -> Option<MessageType> {
        if b == 0x01 {
            Some(MessageType::NewOrder)
        } else if b == 0x02 {
            Some(MessageType::CancelOrder)
        } else if b == 0x03 {
            Some(MessageType::ReplaceOrder)
        } else if b == 0x10 {
            Some(MessageType::OrderAck)
        } else if b == 0x11 {
            Some(MessageType::OrderReject)
        } else if b == 0x12 {
            Some(MessageType::OrderCancelled)
        } else if b == 0x13 {
            Some(MessageType::OrderReplaced)
        } else if b == 0x20 {
            Some(MessageType::Execution)
        } else if b == 0x30 {
            Some(MessageType::Trade)
        } else if b == 0x31 {
            Some(MessageType::Quote)
        } else if b == 0xF0 {
            Some(MessageType::Heartbeat)
        } else if b == 0xF1 {
            Some(MessageType::Logon)
        } else if b == 0xF2 {
            Some(MessageType::Logout)
        } else {
            None
        }
    }

    pub fn as_u8(self) -> (r: u8)
        ensures
            r == self.code(),
    {
        match self {
            MessageType::NewOrder => 0x01,
            MessageType::CancelOrder => 0x02,
            MessageType::ReplaceOrder => 0x03,
            MessageType::OrderAck => 0x10,
            MessageType::OrderReject => 0x11,
            MessageType::OrderCancelled => 0x12,
            MessageType::OrderReplaced => 0x13,
            MessageType::Execution => 0x20,
            MessageType::Trade => 0x30,
            MessageType::Quote => 0x31,
            MessageType::Heartbeat => 0xF0,
            MessageType::Logon => 0xF1,
            MessageType::Logout => 0xF2,
        }
    }

    /// Reading a tag byte: fails with [`ProtocolError::UnknownMessageKind`]
    /// exactly on the bytes that name no kind.
    pub fn from_u8(b: u8) -> (r: Result<MessageType, ProtocolError>)
        ensures
            match MessageType::spec_from_u8(b) {
                Some(t) => r == Ok::<MessageType, ProtocolError>(t),
                None => r == Err::<MessageType, ProtocolError>(ProtocolError::UnknownMessageKind),
            },
    {
        if b == 0x01 {
            Ok(MessageType::NewOrder)
        } else if b == 0x02 {
            Ok(MessageType::CancelOrder)
        } else if b == 0x03 {
            Ok(MessageType::ReplaceOrder)
        } else if b == 0x10 {
            Ok(MessageType::OrderAck)
        } else if b == 0x11 {
            Ok(MessageType::OrderReject)
        } else if b == 0x12 {
            Ok(MessageType::OrderCancelled)
        } else if b == 0x13 {
            Ok(MessageType::OrderReplaced)
        } else if b == 0x20 {
            Ok(MessageType::Execution)
        } else if b == 0x30 {
            Ok(MessageType::Trade)
        } else if b == 0x31 {
            Ok(MessageType::Quote)
        } else if b == 0xF0 {
            Ok(MessageType::Heartbeat)
        } else if b == 0xF1 {
            Ok(MessageType::Logon)
        } else if b == 0xF2 {
            Ok(MessageType::Logout)
        } else {
            Err(ProtocolError::UnknownMessageKind)
        }
    }
}

/// Whether a tag byte names a known message kind.
pub open spec fn kind_known(b: u8) -> bool {
    MessageType::spec_from_u8(b) is Some
}

/// The tag bytes are read back as the kinds they were written for.
pub proof fn lemma_kind_code_roundtrip(t: MessageType)
    ensures
        MessageType::spec_from_u8(t.code()) == Some(t),
{
}

/// Side of an order. Tag bytes: Buy = 0x01, Sell = 0x02.
#[derive(Clone, Copy, Debug, PartialEq, Eq, Structural)]
pub enum Side {
    Buy,
    Sell,
}

impl Side {
    /// The tag byte of this side on the wire.
    pub open spec fn code(self) -> u8 {
        match self {
            Side::Buy => 0x01,
            Side::Sell => 0x02,
        }
    }

    pub fn as_u8(self) -> (r: u8)
        ensures
            r == self.code(),
    {
        match self {
            Side::Buy => 0x01,
            Side::Sell => 0x02,
        }
    }
}

/// Order type. Tag bytes: Limit = 0x01, Market = 0x02.
#[derive(Clone, Copy, Debug, PartialEq, Eq, Structural)]
pub enum OrderType {
    Limit,
    Market,
}

impl OrderType {
    /// The tag byte of this order type on the wire.
    pub open spec fn code(self) -> u8 {
        match self {
            OrderType::Limit => 0x01,
            OrderType::Market => 0x02,
        }
    }

    pub fn as_u8(self) -> (r: u8)
        ensures
            r == self.code(),
    {
        match self {
            OrderType::Limit => 0x01,
            OrderType::Market => 0x02,
        }
    }
}

/// The 16-byte message header: version(1) + kind(1) + reserved(2) +
/// length(4, whole frame including this header) + sequence(8).
#[derive(Clone, Copy, Debug, PartialEq, Eq, Structural)]
pub struct MessageHeader {
    pub version: u8,
    pub msg_type: MessageType,
    pub reserved: u16,
    pub length: u32,
    pub sequence: u64,
}

/// The 16 bytes of a header on the wire.
pub open spec fn header_bytes(h: MessageHeader) -> Seq<u8> {
    seq![h.version, h.msg_type.code()] + u16_be_bytes(h.reserved) + u32_be_bytes(h.length)
        + u64_be_bytes(h.sequence)
}

/// The header read from the first 16 bytes of `s`.
pub open spec fn parse_header(s: Seq<u8>) -> MessageHeader
    recommends
        s.len() >= 16,
        kind_known(s[1]),
{
    MessageHeader {
        version: s[0],
        msg_type: MessageType::spec_from_u8(s[1]).unwrap_or(MessageType::Heartbeat),
        reserved: u16_of_be(s.subrange(2, 4)),
        length: u32_of_be(s.subrange(4, 8)),
        sequence: u64_of_be(s.subrange(8, 16)),
    }
}

/// Whether the first 16 bytes of `s` decode as a header.
pub open spec fn header_ok(s: Seq<u8>) -> bool {
    s.len() >= 16 && kind_known(s[1])
}

impl MessageHeader {
    /// A fresh outbound header: current protocol version, zero sequence.
    pub fn new(msg_type: MessageType, length: u32) -> (r: MessageHeader)
        ensures
            r == (MessageHeader {
                version: PROTOCOL_VERSION,
                msg_type,
                reserved: 0,
                length,
                sequence: 0,
            }),
    {
        MessageHeader { version: PROTOCOL_VERSION, msg_type, reserved: 0, length, sequence: 0 }
    }

    /// Appends exactly the 16 header bytes to `buf`.
    pub fn encode(&self, buf: &mut Vec<u8>)
        ensures
            final(buf)@ == old(buf)@ + header_bytes(*self),
    {
        buf.push(self.version);
        buf.push(self.msg_type.as_u8());
        push_u16_be(buf, self.reserved);
        push_u32_be(buf, self.length);
        push_u64_be(buf, self.sequence);
        proof {
            assert(buf@ =~= old(buf)@ + header_bytes(*self));
        }
    }

    /// Reads a header from the front of `buf` without consuming anything.
    /// Fails with `HeaderTruncated` on fewer than 16 bytes and with
    /// `UnknownMessageKind` on an unrecognized kind byte; succeeds otherwise.
    pub fn decode(buf: &[u8]) -> (r: Result<MessageHeader, ProtocolError>)
        ensures
            buf@.len() < 16 ==> r == Err::<MessageHeader, ProtocolError>(
                ProtocolError::HeaderTruncated,
            ),
            buf@.len() >= 16 && !kind_known(buf@[1]) ==> r == Err::<MessageHeader, ProtocolError>(
                ProtocolError::UnknownMessageKind,
            ),
            header_ok(buf@) ==> r == Ok::<MessageHeader, ProtocolError>(parse_header(buf@)),
    {
        if buf.len() < 16 {
            return Err(ProtocolError::HeaderTruncated);
        }
        let version = buf[0];
        let msg_type = match MessageType::from_u8(buf[1]) {
            Ok(t) => t,
            Err(e) => {
                return Err(e);
            },
        };
        let reserved = read_u16_be(buf, 2);
        let length = read_u32_be(buf, 4);
        let sequence = read_u64_be(buf, 8);
        Ok(MessageHeader { version, msg_type, reserved, length, sequence })
    }
}

/// `n` zero bytes.
pub open spec fn zeros(n: nat) -> Seq<u8> {
    Seq::new(n, |i: int| 0u8)
}

/// `s` with every trailing NUL byte removed.
pub open spec fn trim_trailing_nuls(s: Seq<u8>) -> Seq<u8>
    decreases s.len(),
{
    if s.len() > 0 && s[s.len() - 1] == 0 {
        trim_trailing_nuls(s.drop_last())
    } else {
        s
    }
}

/// Trailing zeros appended to a sequence that does not end in one are
/// exactly what trimming removes.
pub proof fn lemma_trim_append_zeros(s: Seq<u8>, k: nat)
    requires
        s.len() > 0 ==> s[s.len() - 1] != 0,
    ensures
        trim_trailing_nuls(s + zeros(k)) == s,
    decreases k,
{
    if k == 0 {
        assert(s + zeros(0) =~= s);
    } else {
        let t = s + zeros(k);
        assert(t[t.len() - 1] == 0);
        assert(t.drop_last() =~= s + zeros((k - 1) as nat));
        lemma_trim_append_zeros(s, (k - 1) as nat);
    }
}

/// The 16-byte symbol field: at most the first 15 bytes of the symbol,
/// NUL-padded to 16. A longer symbol is truncated.
pub open spec fn symbol_field(sym: Seq<u8>) -> Seq<u8> {
    let n: int = if sym.len() < 15 { sym.len() as int } else { 15 };
    sym.take(n) + zeros((16 - n) as nat)
}

/// The 64-byte reject-text field: at most the first 64 bytes of the text,
/// NUL-padded to 64.
pub open spec fn text_field(text: Seq<u8>) -> Seq<u8> {
    let n: int = if text.len() < 64 { text.len() as int } else { 64 };
    text.take(n) + zeros((64 - n) as nat)
}

/// A padded field reads back as the symbol it was written from, as long as
/// the symbol fits and does not itself end in a NUL.
pub proof fn lemma_trim_symbol_field(sym: Seq<u8>)
    requires
        sym.len() <= 15,
        sym.len() > 0 ==> sym[sym.len() - 1] != 0,
    ensures
        trim_trailing_nuls(symbol_field(sym)) == sym,
{
    assert(sym.take(sym.len() as int) =~= sym);
    lemma_trim_append_zeros(sym, (16 - sym.len()) as nat);
}

/// A symbol longer than the field reads back as its first 15 bytes, with no
/// trailing NULs, as long as its 15th byte is not itself a NUL.
pub proof fn lemma_symbol_field_truncates(sym: Seq<u8>)
    requires
        sym.len() >= 15,
        sym[14] != 0,
    ensures
        trim_trailing_nuls(symbol_field(sym)) == sym.take(15),
{
    assert(symbol_field(sym) =~= sym.take(15) + zeros(1));
    lemma_trim_append_zeros(sym.take(15), 1);
}

/// A padded text field reads back as the text it was written from, as long
/// as the text fits and does not itself end in a NUL.
pub proof fn lemma_trim_text_field(text: Seq<u8>)
    requires
        text.len() <= 64,
        text.len() > 0 ==> text[text.len() - 1] != 0,
    ensures
        trim_trailing_nuls(text_field(text)) == text,
{
    assert(text.take(text.len() as int) =~= text);
    lemma_trim_append_zeros(text, (64 - text.len()) as nat);
}

fn push_zeros(v: &mut Vec<u8>, n: usize)
    ensures
        final(v)@ == old(v)@ + zeros(n as nat),
{
    let mut i: usize = 0;
    while i < n
        invariant
            i <= n,
            v@ == old(v)@ + zeros(i as nat),
        decreases n - i,
    {
        v.push(0u8);
        proof {
            assert(v@ =~= old(v)@ + zeros((i + 1) as nat));
        }
        i += 1;
    }
}

/// Appends `field_len` bytes: the first `keep` bytes of `sym` (or all of
/// `sym` if shorter), NUL-padded.
fn push_padded(v: &mut Vec<u8>, sym: &[u8], keep: usize, field_len: usize)
    requires
        keep <= field_len,
    ensures
        final(v)@ == old(v)@ + ({
            let n: int = if sym@.len() < keep { sym@.len() as int } else { keep as int };
            sym@.take(n) + zeros((field_len - n) as nat)
        }),
{
    let n: usize = if sym.len() < keep {
        sym.len()
    } else {
        keep
    };
    let mut i: usize = 0;
    while i < n
        invariant
            i <= n,
            n <= sym@.len(),
            n <= keep,
            v@ == old(v)@ + sym@.take(i as int),
        decreases n - i,
    {
        v.push(sym[i]);
        proof {
            assert(v@ =~= old(v)@ + sym@.take(i + 1));
        }
        i += 1;
    }
    push_zeros(v, field_len - n);
    proof {
        assert(v@ =~= old(v)@ + ({
            let m: int = if sym@.len() < keep { sym@.len() as int } else { keep as int };
            sym@.take(m) + zeros((field_len - m) as nat)
        }));
    }
}

/// The bytes `b[start..end]` with trailing NULs removed, as a fresh vector.
fn take_trimmed(b: &[u8], start: usize, end: usize) -> (r: Vec<u8>)
    requires
        start <= end <= b@.len(),
    ensures
        r@ == trim_trailing_nuls(b@.subrange(start as int, end as int)),
{
    let mut e: usize = end;
    while e > start && b[e - 1] == 0
        invariant
            start <= e <= end <= b@.len(),
            trim_trailing_nuls(b@.subrange(start as int, end as int)) == trim_trailing_nuls(
                b@.subrange(start as int, e as int),
            ),
        decreases e,
    {
        proof {
            let cur = b@.subrange(start as int, e as int);
            assert(cur[cur.len() - 1] == b@[e - 1]);
            assert(cur.drop_last() =~= b@.subrange(start as int, e as int - 1));
        }
        e = e - 1;
    }
    proof {
        let cur = b@.subrange(start as int, e as int);
        if cur.len() > 0 {
            assert(cur[cur.len() - 1] == b@[e - 1]);
        }
        assert(trim_trailing_nuls(cur) == cur);
    }
    vstd::slice::slice_to_vec(vstd::slice::slice_subrange(b, start, e))
}

/// Encoding a header and reading it back gives the header itself.
pub proof fn lemma_header_roundtrip(h: MessageHeader)
    ensures
        header_bytes(h).len() == 16,
        header_ok(header_bytes(h)),
        parse_header(header_bytes(h)) == h,
{
    let s = header_bytes(h);
    lemma_kind_code_roundtrip(h.msg_type);
    crate::endian::lemma_u16_be_roundtrip(h.reserved);
    crate::endian::lemma_u32_be_roundtrip(h.length);
    crate::endian::lemma_u64_be_roundtrip(h.sequence);
    assert(s.subrange(2, 4) =~= u16_be_bytes(h.reserved));
    assert(s.subrange(4, 8) =~= u32_be_bytes(h.length));
    assert(s.subrange(8, 16) =~= u64_be_bytes(h.sequence));
}

} // verus!

use crate::clock::now_nanos;

verus! {

/// A new-order command. On the wire it is an 88-byte frame: header(16) +
/// symbol(16, NUL-padded) + client_order_id(8) + user_id(8) + side(1) +
/// order_type(1) + reserved(2) + price(8, integer cents) + quantity(8) +
/// timestamp(8, ns since epoch) + reserved tail padding the frame to the
/// declared 88-byte length.
#[derive(Debug)]
pub struct NewOrderMessage {
    pub header: MessageHeader,
    pub symbol: Vec<u8>,
    pub client_order_id: u64,
    pub user_id: u64,
    pub side: Side,
    pub order_type: OrderType,
    pub price: u64,
    pub quantity: u64,
    pub timestamp: u64,
}

/// Mathematical model of a [`NewOrderMessage`].
pub struct NewOrderFrame {
    pub header: MessageHeader,
    pub symbol: Seq<u8>,
    pub client_order_id: u64,
    pub user_id: u64,
    pub side: Side,
    pub order_type: OrderType,
    pub price: u64,
    pub quantity: u64,
    pub timestamp: u64,
}

impl View for NewOrderMessage {
    type V = NewOrderFrame;

    open spec fn view(&self) -> NewOrderFrame {
        NewOrderFrame {
            header: self.header,
            symbol: self.symbol@,
            client_order_id: self.client_order_id,
            user_id: self.user_id,
            side: self.side,
            order_type: self.order_type,
            price: self.price,
            quantity: self.quantity,
            timestamp: self.timestamp,
        }
    }
}

/// The 88 bytes of a new-order frame.
pub open spec fn new_order_bytes(m: NewOrderFrame) -> Seq<u8> {
    header_bytes(m.header) + symbol_field(m.symbol) + u64_be_bytes(m.client_order_id)
        + u64_be_bytes(m.user_id) + seq![m.side.code(), m.order_type.code()] + u16_be_bytes(0)
        + u64_be_bytes(m.price) + u64_be_bytes(m.quantity) + u64_be_bytes(m.timestamp) + zeros(12)
}

/// The new-order frame read from the first 88 bytes of `s`. A side byte
/// other than 0x01 reads as Sell, an order-type byte other than 0x01 as
/// Market; the symbol comes back with trailing NULs removed.
pub open spec fn parse_new_order(s: Seq<u8>) -> NewOrderFrame
    recommends
        s.len() >= 88,
        kind_known(s[1]),
{
    NewOrderFrame {
        header: parse_header(s),
        symbol: trim_trailing_nuls(s.subrange(16, 32)),
        client_order_id: u64_of_be(s.subrange(32, 40)),
        user_id: u64_of_be(s.subrange(40, 48)),
        side: if s[48] == 0x01 {
            Side::Buy
        } else {
            Side::Sell
        },
        order_type: if s[49] == 0x01 {
            OrderType::Limit
        } else {
            OrderType::Market
        },
        price: u64_of_be(s.subrange(52, 60)),
        quantity: u64_of_be(s.subrange(60, 68)),
        timestamp: u64_of_be(s.subrange(68, 76)),
    }
}

impl NewOrderMessage {
    /// A new-order message with the given timestamp. The header declares the
    /// fixed 88-byte frame length and carries a zero wire sequence.
    pub fn new_at(
        symbol: Vec<u8>,
        client_order_id: u64,
        user_id: u64,
        side: Side,
        order_type: OrderType,
        price: u64,
        quantity: u64,
        timestamp: u64,
    ) -> (r: NewOrderMessage)
        ensures
            r@ == (NewOrderFrame {
                header: MessageHeader {
                    version: PROTOCOL_VERSION,
                    msg_type: MessageType::NewOrder,
                    reserved: 0,
                    length: 88,
                    sequence: 0,
                },
                symbol: symbol@,
                client_order_id,
                user_id,
                side,
                order_type,
                price,
                quantity,
                timestamp,
            }),
    {
        NewOrderMessage {
            header: MessageHeader::new(MessageType::NewOrder, 88),
            symbol,
            client_order_id,
            user_id,
            side,
            order_type,
            price,
            quantity,
            timestamp,
        }
    }

    /// As [`NewOrderMessage::new_at`], stamped with the current clock.
    pub fn new(
        symbol: Vec<u8>,
        client_order_id: u64,
        user_id: u64,
        side: Side,
        order_type: OrderType,
        price: u64,
        quantity: u64,
    ) -> (r: NewOrderMessage)
        ensures
            r@.header == (MessageHeader {
                version: PROTOCOL_VERSION,
                msg_type: MessageType::NewOrder,
                reserved: 0,
                length: 88,
                sequence: 0,
            }),
            r@.symbol == symbol@,
            r@.client_order_id == client_order_id,
            r@.user_id == user_id,
            r@.side == side,
            r@.order_type == order_type,
            r@.price == price,
            r@.quantity == quantity,
    {
        let ts = now_nanos();
        NewOrderMessage::new_at(symbol, client_order_id, user_id, side, order_type, price,
            quantity, ts)
    }

    /// Exactly the fixed 88-byte layout of this message.
    pub fn encode(&self) -> (r: Vec<u8>)
        ensures
            r@ == new_order_bytes(self@),
            r@.len() == 88,
    {
        let mut buf: Vec<u8> = Vec::new();
        self.header.encode(&mut buf);
        push_padded(&mut buf, self.symbol.as_slice(), 15, 16);
        push_u64_be(&mut buf, self.client_order_id);
        push_u64_be(&mut buf, self.user_id);
        buf.push(self.side.as_u8());
        buf.push(self.order_type.as_u8());
        push_u16_be(&mut buf, 0);
        push_u64_be(&mut buf, self.price);
        push_u64_be(&mut buf, self.quantity);
        push_u64_be(&mut buf, self.timestamp);
        push_zeros(&mut buf, 12);
        proof {
            assert(buf@ =~= new_order_bytes(self@));
        }
        buf
    }

    /// Reads a full new-order frame. Fails with `BodyTruncated` on fewer
    /// than 88 bytes and with `UnknownMessageKind` on an unrecognized kind
    /// byte; succeeds otherwise.
    pub fn decode(b: &[u8]) -> (r: Result<NewOrderMessage, ProtocolError>)
        ensures
            b@.len() < 88 ==> r == Err::<NewOrderMessage, ProtocolError>(
                ProtocolError::BodyTruncated,
            ),
            b@.len() >= 88 && !kind_known(b@[1]) ==> r == Err::<NewOrderMessage, ProtocolError>(
                ProtocolError::UnknownMessageKind,
            ),
            b@.len() >= 88 && kind_known(b@[1]) ==> (r matches Ok(m) && m@ == parse_new_order(
                b@,
            )),
    {
        if b.len() < 88 {
            return Err(ProtocolError::BodyTruncated);
        }
        let header = match MessageHeader::decode(b) {
            Ok(h) => h,
            Err(e) => {
                return Err(e);
            },
        };
        let symbol = take_trimmed(b, 16, 32);
        let client_order_id = read_u64_be(b, 32);
        let user_id = read_u64_be(b, 40);
        let side = if b[48] == 0x01 {
            Side::Buy
        } else {
            Side::Sell
        };
        let order_type = if b[49] == 0x01 {
            OrderType::Limit
        } else {
            OrderType::Market
        };
        let price = read_u64_be(b, 52);
        let quantity = read_u64_be(b, 60);
        let timestamp = read_u64_be(b, 68);
        Ok(NewOrderMessage {
            header,
            symbol,
            client_order_id,
            user_id,
            side,
            order_type,
            price,
            quantity,
            timestamp,
        })
    }
}

} // verus!

verus! {

/// A cancel-order command. On the wire it is a 56-byte frame: header(16) +
/// symbol(16, NUL-padded) + client_order_id(8) + user_id(8) + timestamp(8).
#[derive(Debug)]
pub struct CancelOrderMessage {
    pub header: MessageHeader,
    pub symbol: Vec<u8>,
    pub client_order_id: u64,
    pub user_id: u64,
    pub timestamp: u64,
}

/// Mathematical model of a [`CancelOrderMessage`].
pub struct CancelOrderFrame {
    pub header: MessageHeader,
    pub symbol: Seq<u8>,
    pub client_order_id: u64,
    pub user_id: u64,
    pub timestamp: u64,
}

impl View for CancelOrderMessage {
    type V = CancelOrderFrame;

    open spec fn view(&self) -> CancelOrderFrame {
        CancelOrderFrame {
            header: self.header,
            symbol: self.symbol@,
            client_order_id: self.client_order_id,
            user_id: self.user_id,
            timestamp: self.timestamp,
        }
    }
}

/// The 56 bytes of a cancel-order frame.
pub open spec fn cancel_order_bytes(m: CancelOrderFrame) -> Seq<u8> {
    header_bytes(m.header) + symbol_field(m.symbol) + u64_be_bytes(m.client_order_id)
        + u64_be_bytes(m.user_id) + u64_be_bytes(m.timestamp)
}

/// The cancel-order frame read from the first 56 bytes of `s`.
pub open spec fn parse_cancel_order(s: Seq<u8>) -> CancelOrderFrame
    recommends
        s.len() >= 56,
        kind_known(s[1]),
{
    CancelOrderFrame {
        header: parse_header(s),
        symbol: trim_trailing_nuls(s.subrange(16, 32)),
        client_order_id: u64_of_be(s.subrange(32, 40)),
        user_id: u64_of_be(s.subrange(40, 48)),
        timestamp: u64_of_be(s.subrange(48, 56)),
    }
}

impl CancelOrderMessage {
    /// A cancel-order message with the given timestamp. The header declares
    /// the fixed 56-byte frame length and carries a zero wire sequence.
    pub fn new_at(symbol: Vec<u8>, client_order_id: u64, user_id: u64, timestamp: u64) -> (r:
        CancelOrderMessage)
        ensures
            r@ == (CancelOrderFrame {
                header: MessageHeader {
                    version: PROTOCOL_VERSION,
                    msg_type: MessageType::CancelOrder,
                    reserved: 0,
                    length: 56,
                    sequence: 0,
                },
                symbol: symbol@,
                client_order_id,
                user_id,
                timestamp,
            }),
    {
        CancelOrderMessage {
            header: MessageHeader::new(MessageType::CancelOrder, 56),
            symbol,
            client_order_id,
            user_id,
            timestamp,
        }
    }

    /// As [`CancelOrderMessage::new_at`], stamped with the current clock.
    pub fn new(symbol: Vec<u8>, client_order_id: u64, user_id: u64) -> (r: CancelOrderMessage)
        ensures
            r@.header == (MessageHeader {
                version: PROTOCOL_VERSION,
                msg_type: MessageType::CancelOrder,
                reserved: 0,
                length: 56,
                sequence: 0,
            }),
            r@.symbol == symbol@,
            r@.client_order_id == client_order_id,
            r@.user_id == user_id,
    {
        let ts = now_nanos();
        CancelOrderMessage::new_at(symbol, client_order_id, user_id, ts)
    }

    /// Exactly the fixed 56-byte layout of this message.
    pub fn encode(&self) -> (r: Vec<u8>)
        ensures
            r@ == cancel_order_bytes(self@),
            r@.len() == 56,
    {
        let mut buf: Vec<u8> = Vec::new();
        self.header.encode(&mut buf);
        push_padded(&mut buf, self.symbol.as_slice(), 15, 16);
        push_u64_be(&mut buf, self.client_order_id);
        push_u64_be(&mut buf, self.user_id);
        push_u64_be(&mut buf, self.timestamp);
        proof {
            assert(buf@ =~= cancel_order_bytes(self@));
        }
        buf
    }

    /// Reads a full cancel-order frame. Fails with `BodyTruncated` on fewer
    /// than 56 bytes and with `UnknownMessageKind` on an unrecognized kind
    /// byte; succeeds otherwise.
    pub fn decode(b: &[u8]) -> (r: Result<CancelOrderMessage, ProtocolError>)
        ensures
            b@.len() < 56 ==> r == Err::<CancelOrderMessage, ProtocolError>(
                ProtocolError::BodyTruncated,
            ),
            b@.len() >= 56 && !kind_known(b@[1]) ==> r == Err::<CancelOrderMessage, ProtocolError>(
                ProtocolError::UnknownMessageKind,
            ),
            b@.len() >= 56 && kind_known(b@[1]) ==> (r matches Ok(m) && m@ == parse_cancel_order(
                b@,
            )),
    {
        if b.len() < 56 {
            return Err(ProtocolError::BodyTruncated);
        }
        let header = match MessageHeader::decode(b) {
            Ok(h) => h,
            Err(e) => {
                return Err(e);
            },
        };
        let symbol = take_trimmed(b, 16, 32);
        let client_order_id = read_u64_be(b, 32);
        let user_id = read_u64_be(b, 40);
        let timestamp = read_u64_be(b, 48);
        Ok(CancelOrderMessage { header, symbol, client_order_id, user_id, timestamp })
    }
}

/// An order acknowledgement, decoded from a 32-byte body:
/// client_order_id(8) + exchange_order_id(8) + user_id(8) + timestamp(8).
#[derive(Clone, Copy, Debug, PartialEq, Eq, Structural)]
pub struct OrderAckMessage {
    pub client_order_id: u64,
    pub exchange_order_id: u64,
    pub user_id: u64,
    pub timestamp: u64,
}

/// The 32 bytes of an order-ack body.
pub open spec fn order_ack_bytes(m: OrderAckMessage) -> Seq<u8> {
    u64_be_bytes(m.client_order_id) + u64_be_bytes(m.exchange_order_id) + u64_be_bytes(m.user_id)
        + u64_be_bytes(m.timestamp)
}

/// The order ack read from the first 32 bytes of a body.
pub open spec fn parse_order_ack(s: Seq<u8>) -> OrderAckMessage
    recommends
        s.len() >= 32,
{
    OrderAckMessage {
        client_order_id: u64_of_be(s.subrange(0, 8)),
        exchange_order_id: u64_of_be(s.subrange(8, 16)),
        user_id: u64_of_be(s.subrange(16, 24)),
        timestamp: u64_of_be(s.subrange(24, 32)),
    }
}

impl OrderAckMessage {
    /// Exactly the fixed 32-byte body of this acknowledgement.
    pub fn encode(&self) -> (r: Vec<u8>)
        ensures
            r@ == order_ack_bytes(*self),
            r@.len() == 32,
    {
        let mut buf: Vec<u8> = Vec::new();
        push_u64_be(&mut buf, self.client_order_id);
        push_u64_be(&mut buf, self.exchange_order_id);
        push_u64_be(&mut buf, self.user_id);
        push_u64_be(&mut buf, self.timestamp);
        proof {
            assert(buf@ =~= order_ack_bytes(*self));
        }
        buf
    }

    /// Reads an order-ack body: fails with `BodyTruncated` exactly on fewer
    /// than 32 bytes.
    pub fn decode(b: &[u8]) -> (r: Result<OrderAckMessage, ProtocolError>)
        ensures
            b@.len() < 32 ==> r == Err::<OrderAckMessage, ProtocolError>(
                ProtocolError::BodyTruncated,
            ),
            b@.len() >= 32 ==> r == Ok::<OrderAckMessage, ProtocolError>(parse_order_ack(b@)),
    {
        if b.len() < 32 {
            return Err(ProtocolError::BodyTruncated);
        }
        Ok(OrderAckMessage {
            client_order_id: read_u64_be(b, 0),
            exchange_order_id: read_u64_be(b, 8),
            user_id: read_u64_be(b, 16),
            timestamp: read_u64_be(b, 24),
        })
    }
}

} // verus!

verus! {

/// An order rejection, decoded from a 96-byte body: client_order_id(8) +
/// user_id(8) + reason(1) + reserved(7) + text(64, NUL-trimmed) +
/// timestamp(8).
#[derive(Debug)]
pub struct OrderRejectMessage {
    pub client_order_id: u64,
    pub user_id: u64,
    pub reason: u8,
    pub text: Vec<u8>,
    pub timestamp: u64,
}

/// Mathematical model of an [`OrderRejectMessage`].
pub struct OrderRejectFrame {
    pub client_order_id: u64,
    pub user_id: u64,
    pub reason: u8,
    pub text: Seq<u8>,
    pub timestamp: u64,
}

impl View for OrderRejectMessage {
    type V = OrderRejectFrame;

    open spec fn view(&self) -> OrderRejectFrame {
        OrderRejectFrame {
            client_order_id: self.client_order_id,
            user_id: self.user_id,
            reason: self.reason,
            text: self.text@,
            timestamp: self.timestamp,
        }
    }
}

/// The 96 bytes of an order-reject body.
pub open spec fn order_reject_bytes(m: OrderRejectFrame) -> Seq<u8> {
    u64_be_bytes(m.client_order_id) + u64_be_bytes(m.user_id) + seq![m.reason] + zeros(7)
        + text_field(m.text) + u64_be_bytes(m.timestamp)
}

/// The order reject read from the first 96 bytes of a body; the text comes
/// back with trailing NULs removed.
pub open spec fn parse_order_reject(s: Seq<u8>) -> OrderRejectFrame
    recommends
        s.len() >= 96,
{
    OrderRejectFrame {
        client_order_id: u64_of_be(s.subrange(0, 8)),
        user_id: u64_of_be(s.subrange(8, 16)),
        reason: s[16],
        text: trim_trailing_nuls(s.subrange(24, 88)),
        timestamp: u64_of_be(s.subrange(88, 96)),
    }
}

impl OrderRejectMessage {
    /// Exactly the fixed 96-byte body of this rejection.
    pub fn encode(&self) -> (r: Vec<u8>)
        ensures
            r@ == order_reject_bytes(self@),
            r@.len() == 96,
    {
        let mut buf: Vec<u8> = Vec::new();
        push_u64_be(&mut buf, self.client_order_id);
        push_u64_be(&mut buf, self.user_id);
        buf.push(self.reason);
        push_zeros(&mut buf, 7);
        push_padded(&mut buf, self.text.as_slice(), 64, 64);
        push_u64_be(&mut buf, self.timestamp);
        proof {
            assert(buf@ =~= order_reject_bytes(self@));
        }
        buf
    }

    /// Reads an order-reject body: fails with `BodyTruncated` exactly on
    /// fewer than 96 bytes.
    pub fn decode(b: &[u8]) -> (r: Result<OrderRejectMessage, ProtocolError>)
        ensures
            b@.len() < 96 ==> r == Err::<OrderRejectMessage, ProtocolError>(
                ProtocolError::BodyTruncated,
            ),
            b@.len() >= 96 ==> (r matches Ok(m) && m@ == parse_order_reject(b@)),
    {
        if b.len() < 96 {
            return Err(ProtocolError::BodyTruncated);
        }
        let client_order_id = read_u64_be(b, 0);
        let user_id = read_u64_be(b, 8);
        let reason = b[16];
        let text = take_trimmed(b, 24, 88);
        let timestamp = read_u64_be(b, 88);
        Ok(OrderRejectMessage { client_order_id, user_id, reason, text, timestamp })
    }
}

/// An execution report, decoded from an 88-byte body: symbol(16) +
/// client_order_id(8) + exchange_order_id(8) + execution_id(8) + user_id(8)
/// + side(1) + reserved(7) + fill_price(8) + fill_quantity(8) +
/// leaves_quantity(8) + timestamp(8).
#[derive(Debug)]
pub struct ExecutionMessage {
    pub symbol: Vec<u8>,
    pub client_order_id: u64,
    pub exchange_order_id: u64,
    pub execution_id: u64,
    pub user_id: u64,
    pub side: Side,
    pub fill_price: u64,
    pub fill_quantity: u64,
    pub leaves_quantity: u64,
    pub timestamp: u64,
}

/// Mathematical model of an [`ExecutionMessage`].
pub struct ExecutionFrame {
    pub symbol: Seq<u8>,
    pub client_order_id: u64,
    pub exchange_order_id: u64,
    pub execution_id: u64,
    pub user_id: u64,
    pub side: Side,
    pub fill_price: u64,
    pub fill_quantity: u64,
    pub leaves_quantity: u64,
    pub timestamp: u64,
}

impl View for ExecutionMessage {
    type V = ExecutionFrame;

    open spec fn view(&self) -> ExecutionFrame {
        ExecutionFrame {
            symbol: self.symbol@,
            client_order_id: self.client_order_id,
            exchange_order_id: self.exchange_order_id,
            execution_id: self.execution_id,
            user_id: self.user_id,
            side: self.side,
            fill_price: self.fill_price,
            fill_quantity: self.fill_quantity,
            leaves_quantity: self.leaves_quantity,
            timestamp: self.timestamp,
        }
    }
}

/// The 88 bytes of an execution body.
pub open spec fn execution_bytes(m: ExecutionFrame) -> Seq<u8> {
    symbol_field(m.symbol) + u64_be_bytes(m.client_order_id) + u64_be_bytes(m.exchange_order_id)
        + u64_be_bytes(m.execution_id) + u64_be_bytes(m.user_id) + seq![m.side.code()] + zeros(7)
        + u64_be_bytes(m.fill_price) + u64_be_bytes(m.fill_quantity) + u64_be_bytes(
        m.leaves_quantity,
    ) + u64_be_bytes(m.timestamp)
}

/// The execution report read from the first 88 bytes of a body. A side byte
/// other than 0x01 reads as Sell; the symbol comes back with trailing NULs
/// removed.
pub open spec fn parse_execution(s: Seq<u8>) -> ExecutionFrame
    recommends
        s.len() >= 88,
{
    ExecutionFrame {
        symbol: trim_trailing_nuls(s.subrange(0, 16)),
        client_order_id: u64_of_be(s.subrange(16, 24)),
        exchange_order_id: u64_of_be(s.subrange(24, 32)),
        execution_id: u64_of_be(s.subrange(32, 40)),
        user_id: u64_of_be(s.subrange(40, 48)),
        side: if s[48] == 0x01 {
            Side::Buy
        } else {
            Side::Sell
        },
        fill_price: u64_of_be(s.subrange(56, 64)),
        fill_quantity: u64_of_be(s.subrange(64, 72)),
        leaves_quantity: u64_of_be(s.subrange(72, 80)),
        timestamp: u64_of_be(s.subrange(80, 88)),
    }
}

impl ExecutionMessage {
    /// Exactly the fixed 88-byte body of this report.
    pub fn encode(&self) -> (r: Vec<u8>)
        ensures
            r@ == execution_bytes(self@),
            r@.len() == 88,
    {
        let mut buf: Vec<u8> = Vec::new();
        push_padded(&mut buf, self.symbol.as_slice(), 15, 16);
        push_u64_be(&mut buf, self.client_order_id);
        push_u64_be(&mut buf, self.exchange_order_id);
        push_u64_be(&mut buf, self.execution_id);
        push_u64_be(&mut buf, self.user_id);
        buf.push(self.side.as_u8());
        push_zeros(&mut buf, 7);
        push_u64_be(&mut buf, self.fill_price);
        push_u64_be(&mut buf, self.fill_quantity);
        push_u64_be(&mut buf, self.leaves_quantity);
        push_u64_be(&mut buf, self.timestamp);
        proof {
            assert(buf@ =~= execution_bytes(self@));
        }
        buf
    }

    /// Reads an execution body: fails with `BodyTruncated` exactly on fewer
    /// than 88 bytes.
    pub fn decode(b: &[u8]) -> (r: Result<ExecutionMessage, ProtocolError>)
        ensures
            b@.len() < 88 ==> r == Err::<ExecutionMessage, ProtocolError>(
                ProtocolError::BodyTruncated,
            ),
            b@.len() >= 88 ==> (r matches Ok(m) && m@ == parse_execution(b@)),
    {
        if b.len() < 88 {
            return Err(ProtocolError::BodyTruncated);
        }
        let symbol = take_trimmed(b, 0, 16);
        let client_order_id = read_u64_be(b, 16);
        let exchange_order_id = read_u64_be(b, 24);
        let execution_id = read_u64_be(b, 32);
        let user_id = read_u64_be(b, 40);
        let side = if b[48] == 0x01 {
            Side::Buy
        } else {
            Side::Sell
        };
        let fill_price = read_u64_be(b, 56);
        let fill_quantity = read_u64_be(b, 64);
        let leaves_quantity = read_u64_be(b, 72);
        let timestamp = read_u64_be(b, 80);
        Ok(ExecutionMessage {
            symbol,
            client_order_id,
            exchange_order_id,
            execution_id,
            user_id,
            side,
            fill_price,
            fill_quantity,
            leaves_quantity,
            timestamp,
        })
    }
}

} // verus!

verus! {

/// A symbol that survives the 16-byte field unchanged: at most 15 bytes and
/// no trailing NUL of its own.
pub open spec fn symbol_fits(sym: Seq<u8>) -> bool {
    sym.len() <= 15 && (sym.len() > 0 ==> sym[sym.len() - 1] != 0)
}

/// A reject text that survives the 64-byte field unchanged: at most 64 bytes
/// and no trailing NUL of its own.
pub open spec fn text_fits(text: Seq<u8>) -> bool {
    text.len() <= 64 && (text.len() > 0 ==> text[text.len() - 1] != 0)
}

/// Parsing a header looks only at the first 16 bytes.
pub proof fn lemma_parse_header_prefix(s: Seq<u8>, t: Seq<u8>)
    requires
        s.len() >= 16,
        t.len() >= 16,
        s.subrange(0, 16) == t.subrange(0, 16),
    ensures
        parse_header(s) == parse_header(t),
        header_ok(s) == header_ok(t),
{
    assert(s[0] == s.subrange(0, 16)[0]);
    assert(t[0] == t.subrange(0, 16)[0]);
    assert(s[1] == s.subrange(0, 16)[1]);
    assert(t[1] == t.subrange(0, 16)[1]);
    assert(s.subrange(2, 4) =~= s.subrange(0, 16).subrange(2, 4));
    assert(t.subrange(2, 4) =~= t.subrange(0, 16).subrange(2, 4));
    assert(s.subrange(4, 8) =~= s.subrange(0, 16).subrange(4, 8));
    assert(t.subrange(4, 8) =~= t.subrange(0, 16).subrange(4, 8));
    assert(s.subrange(8, 16) =~= s.subrange(0, 16).subrange(8, 16));
    assert(t.subrange(8, 16) =~= t.subrange(0, 16).subrange(8, 16));
}

/// Round trip for new-order frames: decoding what was encoded gives the
/// message back, field for field, whenever the symbol fits its field.
#[verifier::rlimit(50)]
pub proof fn lemma_new_order_roundtrip(m: NewOrderFrame)
    requires
        symbol_fits(m.symbol),
    ensures
        new_order_bytes(m).len() == 88,
        header_ok(new_order_bytes(m)),
        parse_new_order(new_order_bytes(m)) == m,
{
    let nb = new_order_bytes(m);
    assert(header_bytes(m.header).len() == 16);
    assert(symbol_field(m.symbol).len() == 16);
    assert(nb.len() == 88);
    lemma_header_roundtrip(m.header);
    assert(nb.subrange(0, 16) =~= header_bytes(m.header));
    assert(header_bytes(m.header).subrange(0, 16) =~= header_bytes(m.header));
    lemma_parse_header_prefix(nb, header_bytes(m.header));
    assert(nb.subrange(16, 32) =~= symbol_field(m.symbol));
    lemma_trim_symbol_field(m.symbol);
    assert(nb.subrange(32, 40) =~= u64_be_bytes(m.client_order_id));
    crate::endian::lemma_u64_be_roundtrip(m.client_order_id);
    assert(nb.subrange(40, 48) =~= u64_be_bytes(m.user_id));
    crate::endian::lemma_u64_be_roundtrip(m.user_id);
    assert(nb[48] == m.side.code());
    assert(nb[49] == m.order_type.code());
    assert(nb.subrange(52, 60) =~= u64_be_bytes(m.price));
    crate::endian::lemma_u64_be_roundtrip(m.price);
    assert(nb.subrange(60, 68) =~= u64_be_bytes(m.quantity));
    crate::endian::lemma_u64_be_roundtrip(m.quantity);
    assert(nb.subrange(68, 76) =~= u64_be_bytes(m.timestamp));
    crate::endian::lemma_u64_be_roundtrip(m.timestamp);
}

/// Round trip for cancel-order frames.
pub proof fn lemma_cancel_order_roundtrip(m: CancelOrderFrame)
    requires
        symbol_fits(m.symbol),
    ensures
        cancel_order_bytes(m).len() == 56,
        header_ok(cancel_order_bytes(m)),
        parse_cancel_order(cancel_order_bytes(m)) == m,
{
    let nb = cancel_order_bytes(m);
    assert(header_bytes(m.header).len() == 16);
    assert(symbol_field(m.symbol).len() == 16);
    assert(nb.len() == 56);
    lemma_header_roundtrip(m.header);
    assert(nb.subrange(0, 16) =~= header_bytes(m.header));
    assert(header_bytes(m.header).subrange(0, 16) =~= header_bytes(m.header));
    lemma_parse_header_prefix(nb, header_bytes(m.header));
    assert(nb.subrange(16, 32) =~= symbol_field(m.symbol));
    lemma_trim_symbol_field(m.symbol);
    assert(nb.subrange(32, 40) =~= u64_be_bytes(m.client_order_id));
    crate::endian::lemma_u64_be_roundtrip(m.client_order_id);
    assert(nb.subrange(40, 48) =~= u64_be_bytes(m.user_id));
    crate::endian::lemma_u64_be_roundtrip(m.user_id);
    assert(nb.subrange(48, 56) =~= u64_be_bytes(m.timestamp));
    crate::endian::lemma_u64_be_roundtrip(m.timestamp);
}

/// Round trip for order-ack bodies.
pub proof fn lemma_order_ack_roundtrip(m: OrderAckMessage)
    ensures
        order_ack_bytes(m).len() == 32,
        parse_order_ack(order_ack_bytes(m)) == m,
{
    let nb = order_ack_bytes(m);
    assert(nb.len() == 32);
    assert(nb.subrange(0, 8) =~= u64_be_bytes(m.client_order_id));
    crate::endian::lemma_u64_be_roundtrip(m.client_order_id);
    assert(nb.subrange(8, 16) =~= u64_be_bytes(m.exchange_order_id));
    crate::endian::lemma_u64_be_roundtrip(m.exchange_order_id);
    assert(nb.subrange(16, 24) =~= u64_be_bytes(m.user_id));
    crate::endian::lemma_u64_be_roundtrip(m.user_id);
    assert(nb.subrange(24, 32) =~= u64_be_bytes(m.timestamp));
    crate::endian::lemma_u64_be_roundtrip(m.timestamp);
}

/// Round trip for order-reject bodies: holds whenever the text fits its
/// field.
pub proof fn lemma_order_reject_roundtrip(m: OrderRejectFrame)
    requires
        text_fits(m.text),
    ensures
        order_reject_bytes(m).len() == 96,
        parse_order_reject(order_reject_bytes(m)) == m,
{
    let nb = order_reject_bytes(m);
    assert(text_field(m.text).len() == 64);
    assert(nb.len() == 96);
    assert(nb.subrange(0, 8) =~= u64_be_bytes(m.client_order_id));
    crate::endian::lemma_u64_be_roundtrip(m.client_order_id);
    assert(nb.subrange(8, 16) =~= u64_be_bytes(m.user_id));
    crate::endian::lemma_u64_be_roundtrip(m.user_id);
    assert(nb[16] == m.reason);
    assert(nb.subrange(24, 88) =~= text_field(m.text));
    lemma_trim_text_field(m.text);
    assert(nb.subrange(88, 96) =~= u64_be_bytes(m.timestamp));
    crate::endian::lemma_u64_be_roundtrip(m.timestamp);
}

/// Round trip for execution bodies: holds whenever the symbol fits its
/// field.
#[verifier::rlimit(50)]
pub proof fn lemma_execution_roundtrip(m: ExecutionFrame)
    requires
        symbol_fits(m.symbol),
    ensures
        execution_bytes(m).len() == 88,
        parse_execution(execution_bytes(m)) == m,
{
    let nb = execution_bytes(m);
    assert(symbol_field(m.symbol).len() == 16);
    assert(nb.len() == 88);
    assert(nb.subrange(0, 16) =~= symbol_field(m.symbol));
    lemma_trim_symbol_field(m.symbol);
    assert(nb.subrange(16, 24) =~= u64_be_bytes(m.client_order_id));
    crate::endian::lemma_u64_be_roundtrip(m.client_order_id);
    assert(nb.subrange(24, 32) =~= u64_be_bytes(m.exchange_order_id));
    crate::endian::lemma_u64_be_roundtrip(m.exchange_order_id);
    assert(nb.subrange(32, 40) =~= u64_be_bytes(m.execution_id));
    crate::endian::lemma_u64_be_roundtrip(m.execution_id);
    assert(nb.subrange(40, 48) =~= u64_be_bytes(m.user_id));
    crate::endian::lemma_u64_be_roundtrip(m.user_id);
    assert(nb[48] == m.side.code());
    assert(nb.subrange(56, 64) =~= u64_be_bytes(m.fill_price));
    crate::endian::lemma_u64_be_roundtrip(m.fill_price);
    assert(nb.subrange(64, 72) =~= u64_be_bytes(m.fill_quantity));
    crate::endian::lemma_u64_be_roundtrip(m.fill_quantity);
    assert(nb.subrange(72, 80) =~= u64_be_bytes(m.leaves_quantity));
    crate::endian::lemma_u64_be_roundtrip(m.leaves_quantity);
    assert(nb.subrange(80, 88) =~= u64_be_bytes(m.timestamp));
    crate::endian::lemma_u64_be_roundtrip(m.timestamp);
}

} // verus!
