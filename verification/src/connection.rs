//! Protocol state of one persistent gateway connection: the strictly
//! increasing client-order-id counter and the frame reassembler its socket
//! reads drive.
//!
//! The socket itself lives with the caller: submitting builds and encodes
//! the outbound frame and returns the bytes for one atomic write, fire and
//! forget — delivery and acknowledgement correlation stay with the caller,
//! via the events [`MatchingConnection::on_bytes`] decodes from whatever the
//! socket read loop receives. Client order ids count up from 1 and are
//! unique only per connection, never across a pool.

use vstd::prelude::*;

use crate::clock::now_nanos;
use crate::protocol::{
    cancel_order_bytes, new_order_bytes, CancelOrderFrame, CancelOrderMessage, MessageHeader,
    MessageType, NewOrderFrame, NewOrderMessage, OrderType, Side, PROTOCOL_VERSION,
};
use crate::reassembler::{drain, views_of, IncomingMessage, Reassembler};

verus! {

/// The new-order frame a submission with these values builds: a fresh header
/// declaring the fixed 88-byte length, a zero wire sequence, and the fields
/// as given.
pub open spec fn order_frame(
    symbol: Seq<u8>,
    client_order_id: u64,
    user_id: u64,
    side: Side,
    order_type: OrderType,
    price: u64,
    quantity: u64,
    timestamp: u64,
) -> NewOrderFrame {
    NewOrderFrame {
        header: MessageHeader {
            version: PROTOCOL_VERSION,
            msg_type: MessageType::NewOrder,
            reserved: 0,
            length: 88,
            sequence: 0,
        },
        symbol,
        client_order_id,
        user_id,
        side,
        order_type,
        price,
        quantity,
        timestamp,
    }
}

/// The cancel-order frame a cancellation with these values builds.
pub open spec fn cancel_frame(
    symbol: Seq<u8>,
    client_order_id: u64,
    user_id: u64,
    timestamp: u64,
) -> CancelOrderFrame {
    CancelOrderFrame {
        header: MessageHeader {
            version: PROTOCOL_VERSION,
            msg_type: MessageType::CancelOrder,
            reserved: 0,
            length: 56,
            sequence: 0,
        },
        symbol,
        client_order_id,
        user_id,
        timestamp,
    }
}

/// One gateway connection's protocol state. The counter and the reassembler
/// live and die with the connection.
pub struct MatchingConnection {
    sequence: u64,
    reasm: Reassembler,
}

/// Mathematical model of a connection: the last client order id allocated
/// and the bytes its reassembler is holding back.
pub struct ConnectionView {
    pub sequence: u64,
    pub buffered: Seq<u8>,
}

impl View for MatchingConnection {
    type V = ConnectionView;

    closed spec fn view(&self) -> ConnectionView {
        ConnectionView { sequence: self.sequence, buffered: self.reasm@ }
    }
}

impl MatchingConnection {
    /// A fresh connection state: counter at zero — the first submission gets
    /// id 1 — and an empty accumulator.
    pub fn new() -> (r: MatchingConnection)
        ensures
            r@.sequence == 0,
            r@.buffered == Seq::<u8>::empty(),
    {
        MatchingConnection { sequence: 0, reasm: Reassembler::new() }
    }

    /// The last client order id this connection allocated; 0 before the
    /// first submission.
    pub fn last_order_id(&self) -> (r: u64)
        ensures
            r == self@.sequence,
    {
        self.sequence
    }

    /// How many bytes this connection's reassembler is holding back.
    pub fn buffered(&self) -> (r: usize)
        ensures
            r == self@.buffered.len(),
    {
        self.reasm.buffered()
    }

    /// Allocates the next client order id: strictly increasing, starting at
    /// 1.
    fn next_sequence(&mut self) -> (r: u64)
        requires
            old(self)@.sequence < u64::MAX,
        ensures
            r == old(self)@.sequence + 1,
            final(self)@.sequence == r,
            final(self)@.buffered == old(self)@.buffered,
    {
        self.sequence = self.sequence + 1;
        self.sequence
    }

    /// Submits a new order with the given timestamp: allocates the next
    /// client order id, builds and encodes the 88-byte new-order frame, and
    /// returns the id with the bytes for one atomic socket write. Fire and
    /// forget: no acknowledgement is awaited here.
    pub fn submit_order_at(
        &mut self,
        symbol: Vec<u8>,
        user_id: u64,
        side: Side,
        order_type: OrderType,
        price: u64,
        quantity: u64,
        timestamp: u64,
    ) -> (r: (u64, Vec<u8>))
        requires
            old(self)@.sequence < u64::MAX,
        ensures
            r.0 == old(self)@.sequence + 1,
            final(self)@.sequence == r.0,
            final(self)@.buffered == old(self)@.buffered,
            r.1@ == new_order_bytes(
                order_frame(symbol@, r.0, user_id, side, order_type, price, quantity, timestamp),
            ),
            r.1@.len() == 88,
    {
        let id = self.next_sequence();
        let msg = NewOrderMessage::new_at(symbol, id, user_id, side, order_type, price, quantity,
            timestamp);
        let bytes = msg.encode();
        (id, bytes)
    }

    /// As [`MatchingConnection::submit_order_at`], stamped with the current
    /// clock.
    pub fn submit_order(
        &mut self,
        symbol: Vec<u8>,
        user_id: u64,
        side: Side,
        order_type: OrderType,
        price: u64,
        quantity: u64,
    ) -> (r: (u64, Vec<u8>))
        requires
            old(self)@.sequence < u64::MAX,
        ensures
            r.0 == old(self)@.sequence + 1,
            final(self)@.sequence == r.0,
            final(self)@.buffered == old(self)@.buffered,
            exists|ts: u64|
                r.1@ == new_order_bytes(
                    #[trigger] order_frame(
                        symbol@,
                        r.0,
                        user_id,
                        side,
                        order_type,
                        price,
                        quantity,
                        ts,
                    ),
                ),
            r.1@.len() == 88,
    {
        let ghost sym = symbol@;
        let ts = now_nanos();
        let r = self.submit_order_at(symbol, user_id, side, order_type, price, quantity, ts);
        proof {
            assert(r.1@ == new_order_bytes(
                order_frame(sym, r.0, user_id, side, order_type, price, quantity, ts),
            ));
        }
        r
    }

    /// Encodes the 56-byte cancel-order frame for the given order, with the
    /// given timestamp, and returns the bytes for one atomic socket write.
    /// Same fire-and-forget send discipline as submission; the counter is
    /// untouched.
    pub fn cancel_order_at(
        &self,
        symbol: Vec<u8>,
        client_order_id: u64,
        user_id: u64,
        timestamp: u64,
    ) -> (r: Vec<u8>)
        ensures
            r@ == cancel_order_bytes(cancel_frame(symbol@, client_order_id, user_id, timestamp)),
            r@.len() == 56,
    {
        let msg = CancelOrderMessage::new_at(symbol, client_order_id, user_id, timestamp);
        msg.encode()
    }

    /// As [`MatchingConnection::cancel_order_at`], stamped with the current
    /// clock.
    pub fn cancel_order(&self, symbol: Vec<u8>, client_order_id: u64, user_id: u64) -> (r: Vec<
        u8,
    >)
        ensures
            exists|ts: u64|
                r@ == cancel_order_bytes(
                    #[trigger] cancel_frame(symbol@, client_order_id, user_id, ts),
                ),
            r@.len() == 56,
    {
        let ghost sym = symbol@;
        let ts = now_nanos();
        let r = self.cancel_order_at(symbol, client_order_id, user_id, ts);
        proof {
            assert(r@ == cancel_order_bytes(cancel_frame(sym, client_order_id, user_id, ts)));
        }
        r
    }

    /// Feeds bytes read from this connection's socket to its reassembler and
    /// returns the inbound events now complete, in stream order, for this
    /// connection's event queue.
    pub fn on_bytes(&mut self, data: &[u8]) -> (events: Vec<IncomingMessage>)
        ensures
            views_of(events@) == drain(old(self)@.buffered + data@).0,
            final(self)@.buffered == drain(old(self)@.buffered + data@).1,
            final(self)@.sequence == old(self)@.sequence,
    {
        self.reasm.feed(data)
    }
}

} // verus!
