//! The connection pool: a fixed set of live connections, established once at
//! startup, with pseudo-round-robin routing of outbound commands.
//!
//! Construction takes the outcome of each sequential connection attempt; a
//! failed or timed-out attempt is skipped, not retried, and construction
//! fails only when zero attempts succeeded. Membership never changes
//! afterwards. Routing derives a slot from a monotonic time value modulo the
//! live-connection count — a pseudo-round-robin, not a fair rotation under
//! coarse timer resolution. The pool never merges event streams: ids are
//! unique only per connection, so callers correlate by (slot,
//! client_order_id).

use vstd::prelude::*;

use crate::clock::now_nanos;
use crate::connection::{cancel_frame, order_frame, ConnectionView, MatchingConnection};
use crate::protocol::{cancel_order_bytes, new_order_bytes, OrderType, ProtocolError, Side};
use crate::reassembler::{drain, views_of, IncomingMessage};

verus! {

/// Every failure the gateway transport reports.
#[derive(Clone, Copy, Debug, PartialEq, Eq, Structural)]
pub enum GatewayError {
    /// A connection attempt did not finish within its timeout.
    ConnectTimeout,
    /// A connection attempt failed; also pool construction when every
    /// attempt did.
    ConnectFailed,
    /// A read or write on an established socket failed.
    IoError,
    /// A frame failed to decode.
    Protocol(ProtocolError),
    /// A routed call found no live connection.
    PoolExhausted,
}

/// How many of the attempts succeeded.
pub open spec fn count_true(s: Seq<bool>) -> int
    decreases s.len(),
{
    if s.len() == 0 {
        0
    } else {
        count_true(s.drop_last()) + if s.last() {
            1int
        } else {
            0int
        }
    }
}

/// The pool: the connections that came up at startup, in attempt order.
pub struct MatchingClient {
    connections: Vec<MatchingConnection>,
}

impl View for MatchingClient {
    type V = Seq<ConnectionView>;

    closed spec fn view(&self) -> Seq<ConnectionView> {
        self.connections@.map_values(|c: MatchingConnection| c@)
    }
}

impl MatchingClient {
    /// Builds the pool from the outcome of each sequential startup
    /// connection attempt: every successful attempt contributes one fresh
    /// live connection, in attempt order. Fails — with `ConnectFailed` —
    /// exactly when zero attempts succeeded; partial success is accepted
    /// silently.
    pub fn new(connect_ok: &Vec<bool>) -> (r: Result<MatchingClient, GatewayError>)
        ensures
            (exists|i: int| 0 <= i < connect_ok@.len() && connect_ok@[i]) <==> r is Ok,
            r matches Ok(p) ==> p@.len() == count_true(connect_ok@) && forall|i: int|
                0 <= i < p@.len() ==> (#[trigger] p@[i]).sequence == 0 && p@[i].buffered
                    == Seq::<u8>::empty(),
            r is Err ==> r == Err::<MatchingClient, GatewayError>(GatewayError::ConnectFailed),
    {
        let mut connections: Vec<MatchingConnection> = Vec::new();
        let mut i: usize = 0;
        while i < connect_ok.len()
            invariant
                i <= connect_ok@.len(),
                connections@.len() == count_true(connect_ok@.take(i as int)),
                forall|j: int|
                    0 <= j < connections@.len() ==> (#[trigger] connections@[j])@.sequence == 0
                        && connections@[j]@.buffered == Seq::<u8>::empty(),
                (exists|j: int| 0 <= j < i && connect_ok@[j]) <==> connections@.len() > 0,
            decreases connect_ok@.len() - i,
        {
            if connect_ok[i] {
                connections.push(MatchingConnection::new());
            }
            proof {
                assert(connect_ok@.take(i + 1).drop_last() =~= connect_ok@.take(i as int));
                assert(connect_ok@.take(i + 1).last() == connect_ok@[i as int]);
            }
            i += 1;
        }
        proof {
            assert(connect_ok@.take(connect_ok@.len() as int) =~= connect_ok@);
        }
        if connections.len() == 0 {
            Err(GatewayError::ConnectFailed)
        } else {
            let p = MatchingClient { connections };
            proof {
                assert(p@.len() == p.connections@.len());
                assert(forall|j: int|
                    0 <= j < p@.len() ==> #[trigger] p@[j] == p.connections@[j]@);
            }
            Ok(p)
        }
    }

    /// How many connections are live; fixed after construction.
    pub fn connection_count(&self) -> (r: usize)
        ensures
            r == self@.len(),
    {
        self.connections.len()
    }

    /// The last client order id connection `slot` allocated.
    pub fn last_order_id(&self, slot: usize) -> (r: u64)
        requires
            slot < self@.len(),
        ensures
            r == self@[slot as int].sequence,
    {
        self.connections[slot].last_order_id()
    }

    /// The slot a call made at clock value `now` routes to: the monotonic
    /// time modulo the live-connection count.
    pub open spec fn route_index(now: u64, count: int) -> int
        recommends
            count > 0,
    {
        now as int % count
    }

    /// Routes a new order at clock value `now`: picks the slot, allocates
    /// that connection's next client order id, and returns the slot, the id
    /// and the 88-byte frame for one write on that slot's socket. Every
    /// other connection is untouched. Fails — with `PoolExhausted` — exactly
    /// when no connection is live.
    pub fn submit_order_at(
        &mut self,
        now: u64,
        symbol: Vec<u8>,
        user_id: u64,
        side: Side,
        order_type: OrderType,
        price: u64,
        quantity: u64,
        timestamp: u64,
    ) -> (r: Result<(usize, u64, Vec<u8>), GatewayError>)
        requires
            forall|i: int|
                0 <= i < old(self)@.len() ==> (#[trigger] old(self)@[i]).sequence < u64::MAX,
        ensures
            old(self)@.len() == 0 ==> r == Err::<(usize, u64, Vec<u8>), GatewayError>(
                GatewayError::PoolExhausted,
            ) && final(self)@ == old(self)@,
            old(self)@.len() > 0 ==> (r matches Ok(t) && {
                &&& t.0 as int == MatchingClient::route_index(now, old(self)@.len() as int)
                &&& t.1 == old(self)@[t.0 as int].sequence + 1
                &&& t.2@ == new_order_bytes(
                    order_frame(
                        symbol@,
                        t.1,
                        user_id,
                        side,
                        order_type,
                        price,
                        quantity,
                        timestamp,
                    ),
                )
                &&& final(self)@ == old(self)@.update(
                    t.0 as int,
                    ConnectionView {
                        sequence: t.1,
                        buffered: old(self)@[t.0 as int].buffered,
                    },
                )
            }),
    {
        let n = self.connections.len();
        if n == 0 {
            proof {
                assert(self@ =~= old(self)@);
            }
            return Err(GatewayError::PoolExhausted);
        }
        let slot = (now % (n as u64)) as usize;
        let conn = vstd::std_specs::vec::vec_index_mut(&mut self.connections, slot);
        let (id, frame) = conn.submit_order_at(symbol, user_id, side, order_type, price, quantity,
            timestamp);
        proof {
            assert(self@ =~= old(self)@.update(
                slot as int,
                ConnectionView { sequence: id, buffered: old(self)@[slot as int].buffered },
            ));
        }
        Ok((slot, id, frame))
    }

    /// As [`MatchingClient::submit_order_at`], routed and stamped with the
    /// current clock: the slot is some live one, the id is that slot's next.
    pub fn submit_order(
        &mut self,
        symbol: Vec<u8>,
        user_id: u64,
        side: Side,
        order_type: OrderType,
        price: u64,
        quantity: u64,
    ) -> (r: Result<(usize, u64, Vec<u8>), GatewayError>)
        requires
            forall|i: int|
                0 <= i < old(self)@.len() ==> (#[trigger] old(self)@[i]).sequence < u64::MAX,
        ensures
            old(self)@.len() == 0 ==> r == Err::<(usize, u64, Vec<u8>), GatewayError>(
                GatewayError::PoolExhausted,
            ) && final(self)@ == old(self)@,
            old(self)@.len() > 0 ==> (r matches Ok(t) && {
                &&& (t.0 as int) < old(self)@.len()
                &&& t.1 == old(self)@[t.0 as int].sequence + 1
                &&& (exists|ts: u64|
                    t.2@ == new_order_bytes(
                        #[trigger] order_frame(
                            symbol@,
                            t.1,
                            user_id,
                            side,
                            order_type,
                            price,
                            quantity,
                            ts,
                        ),
                    ))
                &&& final(self)@ == old(self)@.update(
                    t.0 as int,
                    ConnectionView {
                        sequence: t.1,
                        buffered: old(self)@[t.0 as int].buffered,
                    },
                )
            }),
    {
        let ghost sym = symbol@;
        let now = now_nanos();
        let ts = now_nanos();
        let r = self.submit_order_at(now, symbol, user_id, side, order_type, price, quantity, ts);
        proof {
            if old(self)@.len() > 0 {
                match &r {
                    Ok(t) => {
                        assert(t.2@ == new_order_bytes(
                            order_frame(sym, t.1, user_id, side, order_type, price, quantity, ts),
                        ));
                    },
                    Err(_) => {},
                }
            }
        }
        r
    }

    /// Routes a cancellation at clock value `now`: returns the slot and the
    /// 56-byte frame for one write on that slot's socket. No connection
    /// state changes. Fails — with `PoolExhausted` — exactly when no
    /// connection is live.
    pub fn cancel_order_at(
        &self,
        now: u64,
        symbol: Vec<u8>,
        client_order_id: u64,
        user_id: u64,
        timestamp: u64,
    ) -> (r: Result<(usize, Vec<u8>), GatewayError>)
        ensures
            self@.len() == 0 ==> r == Err::<(usize, Vec<u8>), GatewayError>(
                GatewayError::PoolExhausted,
            ),
            self@.len() > 0 ==> (r matches Ok(t) && {
                &&& t.0 as int == MatchingClient::route_index(now, self@.len() as int)
                &&& t.1@ == cancel_order_bytes(
                    cancel_frame(symbol@, client_order_id, user_id, timestamp),
                )
            }),
    {
        let n = self.connections.len();
        if n == 0 {
            return Err(GatewayError::PoolExhausted);
        }
        let slot = (now % (n as u64)) as usize;
        let frame = self.connections[slot].cancel_order_at(symbol, client_order_id, user_id,
            timestamp);
        Ok((slot, frame))
    }

    /// As [`MatchingClient::cancel_order_at`], routed and stamped with the
    /// current clock.
    pub fn cancel_order(&self, symbol: Vec<u8>, client_order_id: u64, user_id: u64) -> (r: Result<
        (usize, Vec<u8>),
        GatewayError,
    >)
        ensures
            self@.len() == 0 ==> r == Err::<(usize, Vec<u8>), GatewayError>(
                GatewayError::PoolExhausted,
            ),
            self@.len() > 0 ==> (r matches Ok(t) && {
                &&& (t.0 as int) < self@.len()
                &&& (exists|ts: u64|
                    t.1@ == cancel_order_bytes(
                        #[trigger] cancel_frame(symbol@, client_order_id, user_id, ts),
                    ))
            }),
    {
        let ghost sym = symbol@;
        let now = now_nanos();
        let ts = now_nanos();
        let r = self.cancel_order_at(now, symbol, client_order_id, user_id, ts);
        proof {
            if self@.len() > 0 {
                match &r {
                    Ok(t) => {
                        assert(t.1@ == cancel_order_bytes(
                            cancel_frame(sym, client_order_id, user_id, ts),
                        ));
                    },
                    Err(_) => {},
                }
            }
        }
        r
    }

    /// Feeds bytes read from connection `slot`'s socket to that connection's
    /// reassembler and returns its decoded events, in stream order. Other
    /// connections are untouched; the pool never merges event streams across
    /// connections.
    pub fn on_bytes(&mut self, slot: usize, data: &[u8]) -> (events: Vec<IncomingMessage>)
        requires
            slot < old(self)@.len(),
        ensures
            views_of(events@) == drain(old(self)@[slot as int].buffered + data@).0,
            final(self)@ == old(self)@.update(
                slot as int,
                ConnectionView {
                    sequence: old(self)@[slot as int].sequence,
                    buffered: drain(old(self)@[slot as int].buffered + data@).1,
                },
            ),
    {
        let conn = vstd::std_specs::vec::vec_index_mut(&mut self.connections, slot);
        let events = conn.on_bytes(data);
        proof {
            assert(self@ =~= old(self)@.update(
                slot as int,
                ConnectionView {
                    sequence: old(self)@[slot as int].sequence,
                    buffered: drain(old(self)@[slot as int].buffered + data@).1,
                },
            ));
        }
        events
    }
}

} // verus!
