//! The websocket relay's handshake: before each queued message the server
//! sends the message's sequence number as four little-endian bytes, and the
//! message goes out only when the client echoes that number back.
use vstd::prelude::*;

verus! {

/// The `u32` that four bytes spell in little-endian order.
pub open spec fn le_u32(b: Seq<u8>) -> int
    recommends
        b.len() >= 4,
{
    b[0] + 256 * b[1] + 65536 * b[2] + 16777216 * b[3]
}

/// The four little-endian bytes of `x`.
pub open spec fn u32_le_bytes(x: u32) -> Seq<u8> {
    seq![
        (x % 256) as u8,
        ((x / 256) % 256) as u8,
        ((x / 65536) % 256) as u8,
        (x / 16777216) as u8,
    ]
}

/// Reading back the bytes of a number gives the number.
pub proof fn lemma_le_roundtrip(x: u32)
    ensures
        le_u32(u32_le_bytes(x)) == x,
{
    let b = u32_le_bytes(x);
    assert(b[0] == x % 256);
    assert(b[1] == (x / 256) % 256);
    assert(b[2] == (x / 65536) % 256);
    assert(b[3] == x / 16777216);
    assert((x % 256) + 256 * ((x / 256) % 256) + 65536 * ((x / 65536) % 256) + 16777216 * (x
        / 16777216) == x) by (nonlinear_arith);
}

/// Four bytes spell `x` exactly when they are the bytes of `x`.
pub proof fn lemma_le_unique(b: Seq<u8>, x: u32)
    requires
        b.len() == 4,
    ensures
        (le_u32(b) == x) <==> (b =~= u32_le_bytes(x)),
{
    lemma_le_roundtrip(x);
    if le_u32(b) == x {
        let b0 = b[0];
        let b1 = b[1];
        let b2 = b[2];
        let b3 = b[3];
        assert(b0 == x % 256 && b1 == (x / 256) % 256 && b2 == (x / 65536) % 256 && b3 == x
            / 16777216) by (nonlinear_arith)
            requires
                b0 + 256 * b1 + 65536 * b2 + 16777216 * b3 == x,
                0 <= b0 < 256,
                0 <= b1 < 256,
                0 <= b2 < 256,
                0 <= b3 < 256,
        ;
    }
}

/// The little-endian bytes of `x`, as `u32::to_le_bytes` lays them out.
pub fn u32_to_le_bytes(x: u32) -> (b: Vec<u8>)
    ensures
        b@ == u32_le_bytes(x),
{
    let mut b: Vec<u8> = Vec::new();
    b.push((x % 256) as u8);
    b.push(((x / 256) % 256) as u8);
    b.push(((x / 65536) % 256) as u8);
    b.push((x / 16777216) as u8);
    assert(b@ =~= u32_le_bytes(x));
    b
}

/// `bytes::Buf::get_u32_le` on a byte slice: the `u32` that the first four
/// bytes spell in little-endian order. It panics on fewer than four bytes,
/// which `requires` leaves out.
#[verifier::external_body]
fn buf_get_u32_le(data: &[u8]) -> (v: u32)
    requires
        data@.len() >= 4,
    ensures
        v == le_u32(data@),
{
    let mut buf: &[u8] = data;
    bytes::Buf::get_u32_le(&mut buf)
}

/// What the relay does with the message it is holding, once the client has
/// answered the sequence-number probe.
#[derive(Clone, Copy, Debug, PartialEq, Eq, Structural)]
pub enum ReplyDecision {
    /// The client echoed the number: send the message.
    Deliver,
    /// The client did not: put the message back on the queue and close.
    Requeue,
}

/// The state of one websocket connection: how many messages it has begun,
/// and whether it still relays (a refused probe ends it).
pub struct RelaySession {
    counter: u32,
    open: bool,
}

/// The model of a connection: the number of its last message, and whether
/// it is still open.
pub struct SessionView {
    pub counter: u32,
    pub open: bool,
}

impl View for RelaySession {
    type V = SessionView;

    closed spec fn view(&self) -> SessionView {
        SessionView { counter: self.counter, open: self.open }
    }
}

/// Whether `reply` echoes the probe of message number `counter`.
pub open spec fn acknowledges(counter: u32, reply: Seq<u8>) -> bool {
    le_u32(reply) == counter
}

/// What a connection does with the message of number `counter` on the
/// client's answer (`None` where reading it failed).
pub open spec fn decide(counter: u32, reply: Option<Seq<u8>>) -> ReplyDecision {
    match reply {
        Some(r) => if acknowledges(counter, r) {
            ReplyDecision::Deliver
        } else {
            ReplyDecision::Requeue
        },
        None => ReplyDecision::Requeue,
    }
}

impl RelaySession {
    /// A fresh connection, before its first message.
    pub fn new() -> (s: RelaySession)
        ensures
            s@.counter == 0,
            s@.open,
    {
        RelaySession { counter: 0, open: true }
    }

    /// Whether the connection still relays messages.
    pub fn is_open(&self) -> (open: bool)
        ensures
            open == self@.open,
    {
        self.open
    }

    /// The number of the message this connection began last.
    pub fn counter(&self) -> (c: u32)
        ensures
            c == self@.counter,
    {
        self.counter
    }

    /// Whether another message can be numbered without overflowing.
    pub fn can_begin(&self) -> (ok: bool)
        ensures
            ok == (self@.counter < u32::MAX),
    {
        self.counter < u32::MAX
    }

    /// Numbers the next message and returns the probe to send for it.
    pub fn begin_message(&mut self) -> (probe: Vec<u8>)
        requires
            old(self)@.open,
            old(self)@.counter < u32::MAX,
        ensures
            final(self)@.open,
            final(self)@.counter == old(self)@.counter + 1,
            probe@ == u32_le_bytes(final(self)@.counter),
    {
        self.counter = self.counter + 1;
        u32_to_le_bytes(self.counter)
    }

    /// Decides from the client's answer (`None` where reading it failed)
    /// whether the held message goes out; a refusal closes the connection.
    pub fn on_reply(&mut self, reply: Option<&[u8]>) -> (d: ReplyDecision)
        requires
            old(self)@.open,
            reply matches Some(r) ==> r@.len() >= 4,
        ensures
            final(self)@.counter == old(self)@.counter,
            final(self)@.open == (d == ReplyDecision::Deliver),
            d == decide(
                old(self)@.counter,
                match reply {
                    Some(r) => Some(r@),
                    None => None,
                },
            ),
    {
        let d = match reply {
            Some(r) => {
                if buf_get_u32_le(r) == self.counter {
                    ReplyDecision::Deliver
                } else {
                    ReplyDecision::Requeue
                }
            },
            None => ReplyDecision::Requeue,
        };
        if d == ReplyDecision::Requeue {
            self.open = false;
        }
        d
    }
}

/// A whole run of one connection: starting after message number `counter`,
/// it takes `msgs` from the queue one at a time, numbers each
/// (`begin_message`), and reads `replies[i]` as the answer to the probe of
/// `msgs[i]` (`on_reply`). It returns the messages sent as text, in order,
/// and the message put back on the queue, if the run ended on a refusal.
pub open spec fn relay_outcome<M>(counter: u32, msgs: Seq<M>, replies: Seq<Option<Seq<u8>>>) -> (
    Seq<M>,
    Option<M>,
)
    decreases msgs.len(),
{
    if msgs.len() == 0 || replies.len() == 0 {
        (Seq::empty(), None)
    } else {
        let next = (counter + 1) as u32;
        if decide(next, replies[0]) == ReplyDecision::Deliver {
            let (sent, back) = relay_outcome(next, msgs.drop_first(), replies.drop_first());
            (seq![msgs[0]] + sent, back)
        } else {
            (Seq::empty(), Some(msgs[0]))
        }
    }
}

/// Over a whole run of a connection, every message taken from the queue is
/// either sent once or put back once, never both, and the sent ones go out
/// in the order they were taken: the sent messages are the first `k` taken,
/// each of whose probes the client echoed, and where the run ends on a
/// refusal, the message put back is the next one, the `k+1`-th, whose probe
/// the client did not echo; no message after it is taken.
pub proof fn law_relay_run<M>(counter: u32, msgs: Seq<M>, replies: Seq<Option<Seq<u8>>>)
    requires
        counter + msgs.len() <= u32::MAX,
        replies.len() >= msgs.len(),
    ensures
        ({
            let (sent, back) = relay_outcome(counter, msgs, replies);
            let k = sent.len() as int;
            &&& k <= msgs.len()
            &&& sent =~= msgs.take(k)
            &&& forall|i: int|
                0 <= i < k ==> decide((counter + i + 1) as u32, #[trigger] replies[i])
                    == ReplyDecision::Deliver
            &&& match back {
                Some(m) => k < msgs.len() && m == msgs[k] && decide(
                    (counter + k + 1) as u32,
                    replies[k],
                ) == ReplyDecision::Requeue,
                None => k == msgs.len(),
            }
        }),
    decreases msgs.len(),
{
    if msgs.len() > 0 {
        let next = (counter + 1) as u32;
        if decide(next, replies[0]) == ReplyDecision::Deliver {
            let tail = msgs.drop_first();
            let rtail = replies.drop_first();
            law_relay_run(next, tail, rtail);
            let (sent, back) = relay_outcome(next, tail, rtail);
            let k = sent.len() as int;
            assert(seq![msgs[0]] + tail.take(k) =~= msgs.take(k + 1));
            assert forall|i: int| 0 <= i < k + 1 implies decide(
                (counter + i + 1) as u32,
                #[trigger] replies[i],
            ) == ReplyDecision::Deliver by {
                if i > 0 {
                    assert(replies[i] == rtail[i - 1]);
                    assert(decide((next + (i - 1) + 1) as u32, rtail[i - 1])
                        == ReplyDecision::Deliver);
                }
            }
            match back {
                Some(m) => {
                    assert(m == msgs[k + 1]);
                    assert(replies[k + 1] == rtail[k]);
                },
                None => {},
            }
        }
    }
}

/// A client that echoes the probe it was sent gets the message, and one
/// that answers four other bytes does not.
pub proof fn law_echo_delivers(counter: u32, reply: Seq<u8>)
    requires
        reply.len() >= 4,
    ensures
        acknowledges(counter, u32_le_bytes(counter)),
        acknowledges(counter, reply) <==> reply.take(4) =~= u32_le_bytes(counter),
{
    lemma_le_roundtrip(counter);
    let head = reply.take(4);
    lemma_le_unique(head, counter);
    assert(le_u32(head) == le_u32(reply));
}

/// The relay's answer to a reply, in terms of the reply's bytes alone: a
/// reply delivers exactly when its first four bytes, read least significant
/// first, spell the message's number; a failed read never delivers. In
/// particular, an exact echo of the probe `begin_message` sent, the four
/// bytes `c % 256, c / 256 % 256, c / 65536 % 256, c / 16777216`, always
/// delivers, whatever the number.
pub proof fn law_reply_decision(c: u32, r: Seq<u8>)
    ensures
        decide(c, None) == ReplyDecision::Requeue,
        r.len() >= 4 ==> (decide(c, Some(r)) == ReplyDecision::Deliver <==> r[0] + 256 * r[1]
            + 65536 * r[2] + 16777216 * r[3] == c),
        decide(
            c,
            Some(
                seq![
                    (c % 256) as u8,
                    ((c / 256) % 256) as u8,
                    ((c / 65536) % 256) as u8,
                    (c / 16777216) as u8,
                ],
            ),
        ) == ReplyDecision::Deliver,
        u32_le_bytes(c) =~= seq![
            (c % 256) as u8,
            ((c / 256) % 256) as u8,
            ((c / 65536) % 256) as u8,
            (c / 16777216) as u8,
        ],
{
    lemma_le_roundtrip(c);
    assert(u32_le_bytes(c) =~= seq![
        (c % 256) as u8,
        ((c / 256) % 256) as u8,
        ((c / 65536) % 256) as u8,
        (c / 16777216) as u8,
    ]);
}

} // verus!
