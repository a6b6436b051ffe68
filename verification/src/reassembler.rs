//! Frame reassembly: turning an arbitrarily chunked byte stream back into
//! the sequence of frames the peer sent.
//!
//! A [`Reassembler`] owns a growable accumulator fed by socket reads. While
//! the accumulator holds at least 16 bytes it peeks the header without
//! consuming anything; if the declared frame `length` exceeds what is
//! buffered it waits, consuming nothing; otherwise it removes exactly
//! `length` bytes as one frame and decodes the body by kind. A corrupt
//! header (unrecognized kind byte, or a declared length shorter than a
//! header) discards the whole accumulator — a deliberately crude
//! resynchronization on whatever the peer sends next, which callers must
//! treat as potential data loss. A recognized frame whose body is shorter
//! than its kind's layout is dropped alone; kinds with no handler
//! (heartbeats, trades, quotes, ...) are skipped once fully framed.
//!
//! The whole algorithm is the spec function [`drain`]; [`Reassembler::feed`]
//! is proved to emit exactly `drain`'s events and keep exactly its leftover.

use vstd::prelude::*;

use crate::protocol::{
    kind_known, parse_execution, parse_header, parse_order_ack, parse_order_reject,
    ExecutionFrame, ExecutionMessage, MessageType, OrderAckMessage, OrderRejectFrame,
    OrderRejectMessage,
};

verus! {

/// A decoded inbound message, as the read loop hands it to the consumer.
#[derive(Debug)]
pub enum IncomingMessage {
    OrderAck(OrderAckMessage),
    OrderReject(OrderRejectMessage),
    Execution(ExecutionMessage),
}

/// Mathematical model of an [`IncomingMessage`].
pub enum IncomingEvent {
    OrderAck(OrderAckMessage),
    OrderReject(OrderRejectFrame),
    Execution(ExecutionFrame),
}

impl View for IncomingMessage {
    type V = IncomingEvent;

    open spec fn view(&self) -> IncomingEvent {
        match self {
            IncomingMessage::OrderAck(m) => IncomingEvent::OrderAck(*m),
            IncomingMessage::OrderReject(m) => IncomingEvent::OrderReject(m@),
            IncomingMessage::Execution(m) => IncomingEvent::Execution(m@),
        }
    }
}

/// The views of a sequence of inbound messages, in order.
pub open spec fn views_of(ms: Seq<IncomingMessage>) -> Seq<IncomingEvent> {
    ms.map_values(|m: IncomingMessage| m@)
}

proof fn lemma_views_of_empty()
    ensures
        views_of(Seq::<IncomingMessage>::empty()) == Seq::<IncomingEvent>::empty(),
{
    assert(views_of(Seq::<IncomingMessage>::empty()) =~= Seq::<IncomingEvent>::empty());
}

proof fn lemma_views_of_push(ms: Seq<IncomingMessage>, m: IncomingMessage)
    ensures
        views_of(ms.push(m)) == views_of(ms) + seq![m@],
{
    assert(views_of(ms.push(m)) =~~= views_of(ms) + seq![m@]);
}

/// The event a complete frame of the given kind produces from its body (the
/// bytes after the 16-byte header): acks, rejects and executions decode; a
/// body shorter than its kind's fixed layout is dropped; every other kind is
/// skipped.
pub open spec fn frame_event(kind: MessageType, body: Seq<u8>) -> Option<IncomingEvent> {
    match kind {
        MessageType::OrderAck => if body.len() >= 32 {
            Some(IncomingEvent::OrderAck(parse_order_ack(body)))
        } else {
            None
        },
        MessageType::OrderReject => if body.len() >= 96 {
            Some(IncomingEvent::OrderReject(parse_order_reject(body)))
        } else {
            None
        },
        MessageType::Execution => if body.len() >= 88 {
            Some(IncomingEvent::Execution(parse_execution(body)))
        } else {
            None
        },
        _ => None,
    }
}

/// The reassembly algorithm on a whole buffer: the events every complete
/// leading frame produces, and the bytes left waiting for more input. A
/// corrupt header leaves nothing at all.
pub open spec fn drain(s: Seq<u8>) -> (Seq<IncomingEvent>, Seq<u8>)
    decreases s.len(),
{
    if s.len() < 16 {
        (seq![], s)
    } else if !kind_known(s[1]) || parse_header(s).length < 16 {
        (seq![], Seq::<u8>::empty())
    } else if s.len() < parse_header(s).length as int {
        (seq![], s)
    } else {
        let flen = parse_header(s).length as int;
        let rest = drain(s.skip(flen));
        match frame_event(parse_header(s).msg_type, s.subrange(16, flen)) {
            Some(e) => (seq![e] + rest.0, rest.1),
            None => rest,
        }
    }
}

/// Too few bytes for a header: nothing is emitted, everything is kept.
pub proof fn lemma_drain_short(s: Seq<u8>)
    requires
        s.len() < 16,
    ensures
        drain(s).0 == Seq::<IncomingEvent>::empty(),
        drain(s).1 == s,
{
    assert(drain(s).0 =~= Seq::<IncomingEvent>::empty());
}

/// A buffer whose declared frame length exceeds the bytes available yields
/// no frame and leaves exactly those bytes intact for the next read.
pub proof fn lemma_drain_waiting(s: Seq<u8>)
    requires
        s.len() >= 16,
        kind_known(s[1]),
        parse_header(s).length >= 16,
        s.len() < parse_header(s).length as int,
    ensures
        drain(s).0 == Seq::<IncomingEvent>::empty(),
        drain(s).1 == s,
{
    assert(drain(s).0 =~= Seq::<IncomingEvent>::empty());
}

/// A corrupt header — an unrecognized kind byte, or a declared length too
/// short to cover the header itself — discards the whole accumulator:
/// nothing is emitted and nothing is kept, so decoding resumes cleanly on
/// whatever well-formed bytes arrive afterwards.
pub proof fn lemma_drain_discard(s: Seq<u8>, next: Seq<u8>)
    requires
        s.len() >= 16,
        !kind_known(s[1]) || parse_header(s).length < 16,
    ensures
        drain(s).0 == Seq::<IncomingEvent>::empty(),
        drain(s).1 == Seq::<u8>::empty(),
        drain(drain(s).1 + next) == drain(next),
{
    assert(drain(s).0 =~= Seq::<IncomingEvent>::empty());
    assert(drain(s).1 + next =~= next);
}

/// One complete leading frame: its event (if its kind produces one) followed
/// by whatever the bytes after it produce.
pub proof fn lemma_drain_step(s: Seq<u8>)
    requires
        s.len() >= 16,
        kind_known(s[1]),
        parse_header(s).length >= 16,
        s.len() >= parse_header(s).length as int,
    ensures
        ({
            let flen = parse_header(s).length as int;
            let rest = drain(s.skip(flen));
            match frame_event(parse_header(s).msg_type, s.subrange(16, flen)) {
                Some(e) => drain(s).0 == seq![e] + rest.0 && drain(s).1 == rest.1,
                None => drain(s).0 == rest.0 && drain(s).1 == rest.1,
            }
        }),
{
}

/// A frame reassembler: one per connection, fed by that connection's socket
/// reads.
pub struct Reassembler {
    buf: Vec<u8>,
}

impl View for Reassembler {
    type V = Seq<u8>;

    /// The bytes currently accumulated and not yet consumed.
    closed spec fn view(&self) -> Seq<u8> {
        self.buf@
    }
}

impl Reassembler {
    /// An empty accumulator.
    pub fn new() -> (r: Reassembler)
        ensures
            r@ == Seq::<u8>::empty(),
    {
        Reassembler { buf: Vec::new() }
    }

    /// How many bytes are buffered, waiting for a complete frame.
    pub fn buffered(&self) -> (r: usize)
        ensures
            r == self@.len(),
    {
        self.buf.len()
    }

    /// Appends one read's worth of bytes and emits every frame that is now
    /// complete, in stream order: exactly the events of [`drain`] on the
    /// buffered bytes followed by `data`, keeping exactly `drain`'s
    /// leftover.
    pub fn feed(&mut self, data: &[u8]) -> (events: Vec<IncomingMessage>)
        ensures
            views_of(events@) == drain(old(self)@ + data@).0,
            final(self)@ == drain(old(self)@ + data@).1,
    {
        let ghost s = self.buf@ + data@;
        let mut more = vstd::slice::slice_to_vec(data);
        self.buf.append(&mut more);
        assert(self.buf@ == s);
        let mut events: Vec<IncomingMessage> = Vec::new();
        proof {
            lemma_views_of_empty();
        }
        loop
            invariant
                views_of(events@) + drain(self.buf@).0 == drain(s).0,
                drain(self.buf@).1 == drain(s).1,
            ensures
                views_of(events@) == drain(s).0,
                self.buf@ == drain(s).1,
            decreases self.buf@.len(),
        {
            if self.buf.len() < 16 {
                proof {
                    lemma_drain_short(self.buf@);
                    assert(views_of(events@) =~~= views_of(events@) + drain(self.buf@).0);
                }
                break;
            }
            let ghost b0 = self.buf@;
            let kind = match MessageType::from_u8(self.buf[1]) {
                Ok(k) => k,
                Err(_) => {
                    proof {
                        lemma_drain_discard(b0, Seq::<u8>::empty());
                        assert(views_of(events@) =~~= views_of(events@) + drain(b0).0);
                    }
                    self.buf.clear();
                    proof {
                        lemma_drain_short(self.buf@);
                    }
                    break;
                },
            };
            assert(kind == parse_header(b0).msg_type);
            let flen32 = read_len(&self.buf);
            assert(flen32 == parse_header(b0).length);
            if flen32 < 16 {
                proof {
                    lemma_drain_discard(b0, Seq::<u8>::empty());
                    assert(views_of(events@) =~~= views_of(events@) + drain(b0).0);
                }
                self.buf.clear();
                proof {
                    lemma_drain_short(self.buf@);
                }
                break;
            }
            let flen = flen32 as usize;
            if self.buf.len() < flen {
                proof {
                    lemma_drain_waiting(b0);
                    assert(views_of(events@) =~~= views_of(events@) + drain(self.buf@).0);
                }
                break;
            }
            let body = vstd::slice::slice_subrange(self.buf.as_slice(), 16, flen);
            assert(body@ == b0.subrange(16, flen as int));
            let ev: Option<IncomingMessage> = match kind {
                MessageType::OrderAck => match OrderAckMessage::decode(body) {
                    Ok(m) => Some(IncomingMessage::OrderAck(m)),
                    Err(_) => None,
                },
                MessageType::OrderReject => match OrderRejectMessage::decode(body) {
                    Ok(m) => Some(IncomingMessage::OrderReject(m)),
                    Err(_) => None,
                },
                MessageType::Execution => match ExecutionMessage::decode(body) {
                    Ok(m) => Some(IncomingMessage::Execution(m)),
                    Err(_) => None,
                },
                _ => None,
            };
            proof {
                let fe = frame_event(parse_header(b0).msg_type, b0.subrange(16, flen as int));
                match &ev {
                    Some(m) => {
                        assert(fe == Some(m@));
                    },
                    None => {
                        assert(fe is None);
                    },
                }
            }
            let tail = self.buf.split_off(flen);
            self.buf = tail;
            proof {
                assert(self.buf@ =~= b0.skip(flen as int));
                lemma_drain_step(b0);
            }
            let ghost pre_events = events@;
            match ev {
                Some(m) => {
                    events.push(m);
                    proof {
                        lemma_views_of_push(pre_events, m);
                        assert(views_of(events@) + drain(self.buf@).0 =~~= views_of(pre_events)
                            + drain(b0).0);
                    }
                },
                None => {},
            }
        }
        events
    }
}

/// Reads the `length` field of the header at the front of `buf`.
fn read_len(buf: &Vec<u8>) -> (r: u32)
    requires
        buf@.len() >= 16,
    ensures
        r == parse_header(buf@).length,
{
    crate::endian::read_u32_be(buf.as_slice(), 4)
}

} // verus!

use crate::protocol::lemma_parse_header_prefix;

verus! {

/// A well-formed stream: draining it never meets a corrupt header — neither
/// in what is buffered now nor after any number of complete frames.
pub open spec fn no_discard(s: Seq<u8>) -> bool
    decreases s.len(),
{
    if s.len() < 16 {
        true
    } else if !kind_known(s[1]) || parse_header(s).length < 16 {
        false
    } else if s.len() < parse_header(s).length as int {
        true
    } else {
        no_discard(s.skip(parse_header(s).length as int))
    }
}

/// A prefix of a well-formed stream is well formed.
pub proof fn lemma_no_discard_prefix(a: Seq<u8>, b: Seq<u8>)
    requires
        no_discard(a + b),
    ensures
        no_discard(a),
    decreases a.len(),
{
    let t = a + b;
    if a.len() < 16 {
    } else {
        assert(t[1] == a[1]);
        assert(t.subrange(0, 16) =~= a.subrange(0, 16));
        lemma_parse_header_prefix(t, a);
        let flen = parse_header(a).length as int;
        if a.len() < flen {
        } else {
            assert(t.skip(flen) =~= a.skip(flen) + b);
            lemma_no_discard_prefix(a.skip(flen), b);
        }
    }
}

/// Draining in two sittings equals draining at once: what `a` alone yields,
/// followed by what its leftover plus `b` yields, is exactly what `a + b`
/// yields — as long as the whole stream is well formed.
pub proof fn lemma_drain_append(a: Seq<u8>, b: Seq<u8>)
    requires
        no_discard(a + b),
    ensures
        drain(a + b).0 == drain(a).0 + drain(drain(a).1 + b).0,
        drain(a + b).1 == drain(drain(a).1 + b).1,
    decreases a.len(),
{
    let t = a + b;
    if a.len() < 16 {
        lemma_drain_short(a);
        assert(drain(a).1 + b =~= t);
        assert(drain(a).0 + drain(t).0 =~~= drain(t).0);
    } else {
        assert(t[1] == a[1]);
        assert(t.subrange(0, 16) =~= a.subrange(0, 16));
        lemma_parse_header_prefix(t, a);
        assert(kind_known(a[1]) && parse_header(a).length >= 16);
        let flen = parse_header(a).length as int;
        if a.len() < flen {
            lemma_drain_waiting(a);
            assert(drain(a).1 + b =~= t);
            assert(drain(a).0 + drain(t).0 =~~= drain(t).0);
        } else {
            assert(t.subrange(16, flen) =~= a.subrange(16, flen));
            assert(t.skip(flen) =~= a.skip(flen) + b);
            assert(no_discard(a.skip(flen) + b));
            lemma_drain_append(a.skip(flen), b);
            lemma_drain_step(a);
            lemma_drain_step(t);
            let fe = frame_event(parse_header(a).msg_type, a.subrange(16, flen));
            match fe {
                Some(e) => {
                    assert(drain(t).0 =~~= drain(a).0 + drain(drain(a).1 + b).0);
                },
                None => {
                    assert(drain(t).0 =~~= drain(a).0 + drain(drain(a).1 + b).0);
                },
            }
        }
    }
}

/// All the chunks of a stream, joined back together.
pub open spec fn concat_chunks(chunks: Seq<Seq<u8>>) -> Seq<u8>
    decreases chunks.len(),
{
    if chunks.len() == 0 {
        seq![]
    } else {
        concat_chunks(chunks.drop_last()) + chunks.last()
    }
}

/// Feeding the chunks one at a time through a reassembler that starts empty:
/// every event emitted over all the feeds, in order, and the bytes left
/// buffered at the end.
pub open spec fn feed_all(chunks: Seq<Seq<u8>>) -> (Seq<IncomingEvent>, Seq<u8>)
    decreases chunks.len(),
{
    if chunks.len() == 0 {
        (seq![], seq![])
    } else {
        let prev = feed_all(chunks.drop_last());
        let d = drain(prev.1 + chunks.last());
        (prev.0 + d.0, d.1)
    }
}

/// A well-formed byte stream fed in arbitrary chunks — one byte at a time if
/// need be — decodes the identical ordered sequence of frames as the same
/// stream fed whole, and leaves the identical bytes buffered. (Well-formed
/// matters: a corrupt header discards whatever happens to be buffered with
/// it, so there chunking does change how much is lost.)
pub proof fn lemma_chunking_irrelevant(chunks: Seq<Seq<u8>>)
    requires
        no_discard(concat_chunks(chunks)),
    ensures
        feed_all(chunks).0 == drain(concat_chunks(chunks)).0,
        feed_all(chunks).1 == drain(concat_chunks(chunks)).1,
    decreases chunks.len(),
{
    if chunks.len() == 0 {
        assert(concat_chunks(chunks) =~= Seq::<u8>::empty());
        lemma_drain_short(concat_chunks(chunks));
    } else {
        let pre = chunks.drop_last();
        let c = chunks.last();
        assert(concat_chunks(chunks) == concat_chunks(pre) + c);
        lemma_no_discard_prefix(concat_chunks(pre), c);
        lemma_chunking_irrelevant(pre);
        lemma_drain_append(concat_chunks(pre), c);
        assert(feed_all(chunks).0 =~~= drain(concat_chunks(chunks)).0);
    }
}

} // verus!
