//! The state of one session: its identity, its sequence counter, its key, the
//! requests that wait for a response, and the queue of outbound packets.
use vstd::prelude::*;
use futures::channel::mpsc::{UnboundedReceiver, UnboundedSender};
use futures::channel::oneshot::Receiver;
use crate::buffer::bytes_view;
use crate::error::ClientError;
use crate::frame::{Frame, FramingError, parse_frame};
use crate::packet::Packet;
use crate::pending::PendingRequestTable;
use crate::tea::{Tea, decrypt_fails, decrypt_spec};

verus! {

#[verifier::external_type_specification]
#[verifier::external_body]
#[verifier::reject_recursive_types(T)]
pub struct ExQueueSender<T>(UnboundedSender<T>);

#[verifier::external_type_specification]
#[verifier::external_body]
#[verifier::reject_recursive_types(T)]
pub struct ExQueueReceiver<T>(UnboundedReceiver<T>);

/// The packets handed to the queue through this sender, in the order they
/// were handed over.
pub uninterp spec fn queued(tx: UnboundedSender<Packet>) -> Seq<Packet>;

/// Relies on `mpsc::unbounded`: the two ends of a new outbound queue, into
/// which nothing has been handed yet.
#[verifier::external_body]
fn outbound_channel() -> (r: (UnboundedSender<Packet>, UnboundedReceiver<Packet>))
    ensures
        queued(r.0) == Seq::<Packet>::empty(),
{
    futures::channel::mpsc::unbounded()
}

/// Relies on `UnboundedSender::unbounded_send`: whether the packet was queued
/// behind the ones before it; it is not once the queue is closed or its
/// receiving end is gone.
#[verifier::external_body]
fn outbound_send(tx: &mut UnboundedSender<Packet>, p: Packet) -> (r: bool)
    ensures
        r ==> queued(*final(tx)) == queued(*old(tx)).push(p),
        !r ==> queued(*final(tx)) == queued(*old(tx)),
{
    tx.unbounded_send(p).is_ok()
}

/// Relies on `UnboundedSender::close_channel`: the queue takes no more packets.
#[verifier::external_body]
fn outbound_close(tx: &UnboundedSender<Packet>) {
    tx.close_channel()
}

/// The counter value `k` increments after `start`, modulo 2^16.
pub open spec fn seq_after(start: u16, k: nat) -> u16 {
    ((start + k) % 0x10000) as u16
}

/// Whether an inbound frame for `seq`, whose body decrypts when `decrypts`,
/// fulfills a waiting request.
pub open spec fn receive_fulfills(pending: Set<u32>, seq: u32, decrypts: bool) -> bool {
    decrypts && pending.contains(seq)
}

/// The waiting requests after an inbound frame for `seq` is handled.
pub open spec fn pending_after_receive(pending: Set<u32>, seq: u32, decrypts: bool) -> Set<u32> {
    if receive_fulfills(pending, seq, decrypts) {
        pending.remove(seq)
    } else {
        pending
    }
}

/// Inbound data that answered no waiting request: a push from the server.
#[non_exhaustive]
pub enum ClientEvent {
    ServerPush { seq: u32, command: Vec<u8>, payload: bytes::Bytes },
}

/// What became of an inbound frame.
pub enum Delivery {
    /// Its payload went to the request waiting on this sequence number.
    Fulfilled(u32),
    /// No request waited on it: an event for the handler.
    Event(ClientEvent),
    /// Its body did not decrypt; it was dropped.
    Discarded,
}

/// How the wait of a request for its response ended.
pub enum WaitOutcome {
    /// The slot was fulfilled with this payload.
    Received(bytes::Bytes),
    /// The slot was released without a payload.
    Released,
    /// The caller's deadline passed first.
    TimedOut,
}

/// What the reader does after offering the bytes it has buffered.
pub enum ReadStep {
    /// The bytes end inside a frame: read more.
    NeedMore,
    /// A frame of `consumed` bytes was read and handled.
    Frame { consumed: usize, delivery: Delivery },
    /// The bytes were malformed: the session is closed.
    Closed,
}

/// The session core. Callers that share it across tasks hold it under one lock.
pub struct RequestClient {
    uin: u64,
    seq: u16,
    key: Tea,
    closed: bool,
    pending: PendingRequestTable,
    outbound: UnboundedSender<Packet>,
    writer_queue: Option<UnboundedReceiver<Packet>>,
}

impl RequestClient {
    /// The established identity, `0` while there is none.
    pub closed spec fn identity_view(&self) -> u64 {
        self.uin
    }

    /// The value that the next call of `next_seq` returns.
    pub closed spec fn seq_view(&self) -> u16 {
        self.seq
    }

    /// The session key, as four words.
    pub closed spec fn key_view(&self) -> Seq<u32> {
        self.key@
    }

    /// Whether the session is closed.
    pub closed spec fn closed_view(&self) -> bool {
        self.closed
    }

    /// The sequence numbers of the requests that wait for a response.
    pub closed spec fn pending_view(&self) -> Set<u32> {
        self.pending@
    }

    /// The packets queued for the writer, in order.
    pub closed spec fn outbound_view(&self) -> Seq<Packet> {
        queued(self.outbound)
    }

    /// The payloads handed to waiting requests, with their sequence numbers.
    pub closed spec fn handed_view(&self) -> Seq<(u32, Seq<u8>)> {
        self.pending.handed()
    }

    /// Whether the receiving end of the outbound queue is still here to take.
    pub closed spec fn writer_queue_view(&self) -> bool {
        self.writer_queue is Some
    }

    /// A running session with no identity, counter `0`, the all-zero key and
    /// no waiting request.
    pub fn new() -> (r: Self)
        ensures
            r.identity_view() == 0,
            r.seq_view() == 0,
            r.key_view() == seq![0u32, 0u32, 0u32, 0u32],
            !r.closed_view(),
            r.pending_view() == Set::<u32>::empty(),
            r.writer_queue_view(),
            r.outbound_view() == Seq::<Packet>::empty(),
            r.handed_view() == Seq::<(u32, Seq<u8>)>::empty(),
    {
        let (tx, rx) = outbound_channel();
        let r = RequestClient {
            uin: 0,
            seq: 0,
            key: Tea::from_key([0u32, 0u32, 0u32, 0u32]),
            closed: false,
            pending: PendingRequestTable::new(),
            outbound: tx,
            writer_queue: Some(rx),
        };
        assert(r.key@ =~= seq![0u32, 0u32, 0u32, 0u32]);
        r
    }

    /// Returns the counter and advances it by one, wrapping after 65535.
    pub fn next_seq(&mut self) -> (r: u16)
        ensures
            r == old(self).seq_view(),
            final(self).seq_view() == seq_after(old(self).seq_view(), 1),
            final(self).identity_view() == old(self).identity_view(),
            final(self).outbound_view() == old(self).outbound_view(),
            final(self).handed_view() == old(self).handed_view(),
            final(self).key_view() == old(self).key_view(),
            final(self).closed_view() == old(self).closed_view(),
            final(self).pending_view() == old(self).pending_view(),
            final(self).writer_queue_view() == old(self).writer_queue_view(),
    {
        let r = self.seq;
        self.seq = self.seq.wrapping_add(1);
        r
    }

    /// The established identity, or `NotInitialized` while there is none.
    pub fn uin(&self) -> (r: Result<u64, ClientError>)
        ensures
            r matches Ok(u) ==> self.identity_view() != 0 && u == self.identity_view(),
            r matches Err(e) ==> self.identity_view() == 0 && e is NotInitialized,
    {
        if self.uin == 0 {
            Err(ClientError::NotInitialized)
        } else {
            Ok(self.uin)
        }
    }

    /// Records the identity once authentication has established it; returns
    /// whether it was recorded, which happens only the first time and only
    /// for a nonzero value.
    pub fn set_uin(&mut self, uin: u64) -> (r: bool)
        ensures
            r == (old(self).identity_view() == 0 && uin != 0),
            final(self).identity_view() == if r {
                uin
            } else {
                old(self).identity_view()
            },
            final(self).seq_view() == old(self).seq_view(),
            final(self).key_view() == old(self).key_view(),
            final(self).closed_view() == old(self).closed_view(),
            final(self).pending_view() == old(self).pending_view(),
            final(self).writer_queue_view() == old(self).writer_queue_view(),
    {
        if self.uin == 0 && uin != 0 {
            self.uin = uin;
            true
        } else {
            false
        }
    }

    /// Installs the key negotiated for this session.
    pub fn set_session_key(&mut self, key: Tea)
        ensures
            final(self).key_view() == key@,
            final(self).identity_view() == old(self).identity_view(),
            final(self).outbound_view() == old(self).outbound_view(),
            final(self).handed_view() == old(self).handed_view(),
            final(self).seq_view() == old(self).seq_view(),
            final(self).closed_view() == old(self).closed_view(),
            final(self).pending_view() == old(self).pending_view(),
            final(self).writer_queue_view() == old(self).writer_queue_view(),
    {
        self.key = key;
    }

    /// The session key.
    pub fn session_key(&self) -> (r: &Tea)
        ensures
            r@ == self.key_view(),
    {
        &self.key
    }

    /// Whether the session is closed.
    pub fn is_closed(&self) -> (r: bool)
        ensures
            r == self.closed_view(),
    {
        self.closed
    }

    /// Whether a request with sequence number `seq` waits for its response.
    pub fn is_pending(&self, seq: u32) -> (r: bool)
        ensures
            r == self.pending_view().contains(seq),
    {
        self.pending.contains(seq)
    }

    /// Hands out the receiving end of the outbound queue, for the one writer;
    /// only the first call gets it.
    pub fn take_writer_queue(&mut self) -> (r: Option<UnboundedReceiver<Packet>>)
        ensures
            r is Some <==> old(self).writer_queue_view(),
            !final(self).writer_queue_view(),
            final(self).identity_view() == old(self).identity_view(),
            final(self).outbound_view() == old(self).outbound_view(),
            final(self).handed_view() == old(self).handed_view(),
            final(self).seq_view() == old(self).seq_view(),
            final(self).key_view() == old(self).key_view(),
            final(self).closed_view() == old(self).closed_view(),
            final(self).pending_view() == old(self).pending_view(),
    {
        self.writer_queue.take()
    }

    /// Queues `packet` for the writer. When `expect_reply` holds, first opens
    /// a slot under the packet's sequence number and returns the handle that
    /// awaits it. Fails with `SessionClosed` on a closed session or when the
    /// queue no longer takes packets, and with `SequenceInUse` while a request
    /// with the same sequence number still waits; a failed call leaves the
    /// waiting requests as they were.
    pub fn submit(&mut self, packet: Packet, expect_reply: bool) -> (r: Result<
        Option<Receiver<bytes::Bytes>>,
        ClientError,
    >)
        ensures
            old(self).closed_view() ==> (r matches Err(e) && e is SessionClosed),
            !old(self).closed_view() && expect_reply && old(self).pending_view().contains(packet.seq)
                ==> (r matches Err(e) && e is SequenceInUse),
            r matches Err(e) ==> e is SessionClosed || e is SequenceInUse,
            (r matches Err(e) && e is SequenceInUse) ==> !old(self).closed_view() && expect_reply
                && old(self).pending_view().contains(packet.seq),
            r is Err ==> final(self).pending_view() == old(self).pending_view(),
            r is Ok ==> final(self).outbound_view() == old(self).outbound_view().push(packet),
            r is Err ==> final(self).outbound_view() == old(self).outbound_view(),
            r matches Ok(slot) ==> {
                &&& !old(self).closed_view()
                &&& (slot is Some <==> expect_reply)
                &&& final(self).pending_view() == if expect_reply {
                    old(self).pending_view().insert(packet.seq)
                } else {
                    old(self).pending_view()
                }
            },
            final(self).identity_view() == old(self).identity_view(),
            final(self).handed_view() == old(self).handed_view(),
            final(self).seq_view() == old(self).seq_view(),
            final(self).key_view() == old(self).key_view(),
            final(self).closed_view() == old(self).closed_view(),
            final(self).writer_queue_view() == old(self).writer_queue_view(),
    {
        if self.closed {
            return Err(ClientError::SessionClosed);
        }
        let seq = packet.seq;
        let slot = if expect_reply {
            match self.pending.register(seq) {
                Some(rx) => Some(rx),
                None => {
                    return Err(ClientError::SequenceInUse);
                },
            }
        } else {
            None
        };
        if outbound_send(&mut self.outbound, packet) {
            Ok(slot)
        } else {
            if expect_reply {
                let _ = self.pending.release(seq);
                assert(self.pending@ =~= old(self).pending_view());
            }
            Err(ClientError::SessionClosed)
        }
    }

    /// Handles an inbound frame: decrypts its body with the session key, then
    /// fulfills the request waiting on its sequence number, or, when none
    /// waits, turns it into an event for the handler. A body that does not
    /// decrypt is dropped, and a waiting request then keeps waiting.
    pub fn on_frame_received(&mut self, frame: Frame) -> (r: Delivery)
        ensures
            final(self).pending_view() == pending_after_receive(
                old(self).pending_view(),
                frame.seq,
                !decrypt_fails(old(self).key_view(), frame.body@),
            ),
            receive_fulfills(
                old(self).pending_view(),
                frame.seq,
                !decrypt_fails(old(self).key_view(), frame.body@),
            ) <==> r is Fulfilled,
            r matches Delivery::Fulfilled(s) ==> s == frame.seq,
            final(self).handed_view() == if r is Fulfilled {
                old(self).handed_view().push(
                    (frame.seq, decrypt_spec(old(self).key_view(), frame.body@)),
                )
            } else {
                old(self).handed_view()
            },
            decrypt_fails(old(self).key_view(), frame.body@) <==> r is Discarded,
            r matches Delivery::Event(ClientEvent::ServerPush { seq, command, payload }) ==> {
                &&& seq == frame.seq
                &&& command@ == frame.command@
                &&& bytes_view(payload) == decrypt_spec(old(self).key_view(), frame.body@)
            },
            final(self).identity_view() == old(self).identity_view(),
            final(self).outbound_view() == old(self).outbound_view(),
            final(self).seq_view() == old(self).seq_view(),
            final(self).key_view() == old(self).key_view(),
            final(self).closed_view() == old(self).closed_view(),
            final(self).writer_queue_view() == old(self).writer_queue_view(),
    {
        let payload = match self.key.decrypt(frame.body.as_slice()) {
            Ok(p) => p,
            Err(_) => {
                return Delivery::Discarded;
            },
        };
        if self.pending.contains(frame.seq) {
            let _ = self.pending.fulfill(frame.seq, payload);
            Delivery::Fulfilled(frame.seq)
        } else {
            Delivery::Event(ClientEvent::ServerPush { seq: frame.seq, command: frame.command, payload })
        }
    }

    /// Withdraws the request waiting on `seq`, as a caller that stops waiting
    /// does; returns whether it was still waiting.
    pub fn cancel_request(&mut self, seq: u32) -> (r: bool)
        ensures
            r == old(self).pending_view().contains(seq),
            final(self).pending_view() == old(self).pending_view().remove(seq),
            final(self).identity_view() == old(self).identity_view(),
            final(self).outbound_view() == old(self).outbound_view(),
            final(self).handed_view() == old(self).handed_view(),
            final(self).seq_view() == old(self).seq_view(),
            final(self).key_view() == old(self).key_view(),
            final(self).closed_view() == old(self).closed_view(),
            final(self).writer_queue_view() == old(self).writer_queue_view(),
    {
        self.pending.release(seq)
    }

    /// Turns the end of a wait on `seq` into the caller's result: the payload,
    /// `ConnectionLost` when the slot was released, or `Timeout` when the
    /// deadline passed, in which case the request is withdrawn.
    pub fn finish_wait(&mut self, seq: u32, outcome: WaitOutcome) -> (r: Result<
        bytes::Bytes,
        ClientError,
    >)
        ensures
            outcome matches WaitOutcome::Received(p) ==> (r matches Ok(q) && q == p),
            outcome is Released ==> (r matches Err(e) && e is ConnectionLost),
            outcome is TimedOut ==> (r matches Err(e) && e is Timeout),
            final(self).pending_view() == if outcome is TimedOut {
                old(self).pending_view().remove(seq)
            } else {
                old(self).pending_view()
            },
            final(self).identity_view() == old(self).identity_view(),
            final(self).outbound_view() == old(self).outbound_view(),
            final(self).handed_view() == old(self).handed_view(),
            final(self).seq_view() == old(self).seq_view(),
            final(self).key_view() == old(self).key_view(),
            final(self).closed_view() == old(self).closed_view(),
            final(self).writer_queue_view() == old(self).writer_queue_view(),
    {
        match outcome {
            WaitOutcome::Received(p) => Ok(p),
            WaitOutcome::Released => Err(ClientError::ConnectionLost),
            WaitOutcome::TimedOut => {
                let _ = self.pending.release(seq);
                Err(ClientError::Timeout)
            },
        }
    }

    /// Closes the session: every waiting request is released, and the
    /// outbound queue takes no more packets.
    pub fn close(&mut self)
        ensures
            final(self).closed_view(),
            final(self).pending_view() == Set::<u32>::empty(),
            final(self).identity_view() == old(self).identity_view(),
            final(self).outbound_view() == old(self).outbound_view(),
            final(self).handed_view() == old(self).handed_view(),
            final(self).seq_view() == old(self).seq_view(),
            final(self).key_view() == old(self).key_view(),
            final(self).writer_queue_view() == old(self).writer_queue_view(),
    {
        self.closed = true;
        self.pending.release_all();
        outbound_close(&self.outbound);
    }

    /// Offers the reader's buffered bytes: handles the frame they begin with,
    /// asks for more when they end inside one, and closes the session when
    /// they cannot begin a frame.
    pub fn read_frame(&mut self, buf: &[u8]) -> (r: ReadStep)
        ensures
            (parse_frame(buf@) matches Err(e) && e is Incomplete) <==> r is NeedMore,
            (parse_frame(buf@) matches Err(e) && e is Malformed) <==> r is Closed,
            r is Closed ==> final(self).closed_view() && final(self).pending_view() == Set::<
                u32,
            >::empty(),
            r is NeedMore ==> final(self).pending_view() == old(self).pending_view()
                && final(self).closed_view() == old(self).closed_view(),
            r matches ReadStep::Frame { consumed, delivery } ==> {
                &&& parse_frame(buf@) matches Ok((f, n))
                &&& consumed == n
                &&& final(self).pending_view() == pending_after_receive(
                    old(self).pending_view(),
                    f.1,
                    !decrypt_fails(old(self).key_view(), f.3),
                )
                &&& final(self).closed_view() == old(self).closed_view()
                &&& (receive_fulfills(
                    old(self).pending_view(),
                    f.1,
                    !decrypt_fails(old(self).key_view(), f.3),
                ) <==> delivery is Fulfilled)
                &&& (decrypt_fails(old(self).key_view(), f.3) <==> delivery is Discarded)
                &&& (delivery matches Delivery::Fulfilled(s) ==> s == f.1)
                &&& final(self).handed_view() == if delivery is Fulfilled {
                    old(self).handed_view().push((f.1, decrypt_spec(old(self).key_view(), f.3)))
                } else {
                    old(self).handed_view()
                }
                &&& (delivery matches Delivery::Event(ClientEvent::ServerPush { seq, command, payload })
                    ==> seq == f.1 && command@ == f.2 && bytes_view(payload) == decrypt_spec(
                    old(self).key_view(),
                    f.3,
                ))
            },
            !(r is Frame) ==> final(self).handed_view() == old(self).handed_view(),
            final(self).identity_view() == old(self).identity_view(),
            final(self).outbound_view() == old(self).outbound_view(),
            final(self).seq_view() == old(self).seq_view(),
            final(self).key_view() == old(self).key_view(),
            final(self).writer_queue_view() == old(self).writer_queue_view(),
    {
        match Frame::decode(buf) {
            Ok((frame, consumed)) => {
                let delivery = self.on_frame_received(frame);
                ReadStep::Frame { consumed, delivery }
            },
            Err(FramingError::Incomplete) => ReadStep::NeedMore,
            Err(FramingError::Malformed) => {
                self.close();
                ReadStep::Closed
            },
        }
    }
}

impl Default for RequestClient {
    fn default() -> (r: Self)
        ensures
            r.identity_view() == 0,
            r.seq_view() == 0,
            !r.closed_view(),
            r.pending_view() == Set::<u32>::empty(),
            r.writer_queue_view(),
            r.outbound_view() == Seq::<Packet>::empty(),
            r.handed_view() == Seq::<(u32, Seq<u8>)>::empty(),
    {
        RequestClient::new()
    }
}

/// Each call of `next_seq` moves the counter one step further: after `k`
/// calls from `start`, one more call returns `seq_after(start, k)` and leaves
/// `seq_after(start, k + 1)`.
pub proof fn lemma_seq_step(start: u16, k: nat)
    ensures
        seq_after(seq_after(start, k), 1) == seq_after(start, k + 1),
        seq_after(start, 0) == start,
{
    let a = (start + k) % 0x10000;
    assert(((a + 1) % 0x10000) == ((start + k + 1) % 0x10000)) by (nonlinear_arith)
        requires
            a == (start + k) % 0x10000,
    ;
}

/// Of up to 65536 successive calls of `next_seq`, no two return the same
/// value: calls `i` and `j` from a counter at `start` return distinct values.
pub proof fn lemma_sequence_unique(start: u16, i: nat, j: nat)
    requires
        i < j < 0x10000,
    ensures
        seq_after(start, i) != seq_after(start, j),
{
    assert((start + i) % 0x10000 != (start + j) % 0x10000) by (nonlinear_arith)
        requires
            i < j < 0x10000,
    ;
}

/// A slot is fulfilled at most once: once a frame for `seq` has been handled,
/// a second one for the same `seq` fulfills nothing and leaves the waiting
/// requests as they were; and once the request was withdrawn, no frame
/// fulfills it.
pub proof fn lemma_fulfilled_at_most_once(
    pending: Set<u32>,
    seq: u32,
    first_decrypts: bool,
    second_decrypts: bool,
)
    ensures
        receive_fulfills(pending, seq, first_decrypts) ==> !receive_fulfills(
            pending_after_receive(pending, seq, first_decrypts),
            seq,
            second_decrypts,
        ),
        receive_fulfills(pending, seq, first_decrypts) ==> pending_after_receive(
            pending_after_receive(pending, seq, first_decrypts),
            seq,
            second_decrypts,
        ) == pending_after_receive(pending, seq, first_decrypts),
        !receive_fulfills(pending.remove(seq), seq, second_decrypts),
{
}

} // verus!
