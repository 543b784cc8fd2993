//! Outbound framing and request/response correlation.
//!
//! The messenger records every frame handed to the transport, in order, and
//! tracks the correlation ids of method calls still waiting for a response.
//! The surrounding runtime performs the actual writes and feeds transport
//! events (responses, write failures, closure) back in.

use vstd::prelude::*;
use vstd::string::*;

use crate::node::NodeError;

verus! {

/// The payload of one outbound frame.  Encoding payloads to wire bytes is
/// the transport layer's job; the core hands it structured values.
#[derive(Debug)]
pub enum Payload {
    /// Already-encoded bytes, passed through unchanged.
    Raw(Vec<u8>),
    /// A creation call: the generated child id, the caller-encoded
    /// constructor arguments, and — where the object declares them — its
    /// interest mask and a reference (by path) to its attached field.
    Creation { id: String, args: Vec<u8>, mask: Option<Vec<u8>>, field: Option<String> },
    /// A value addressed to one named sibling object.
    Addressed { target: String, data: Vec<u8> },
}

/// Whether `p` is the raw payload holding exactly `data`.
pub open spec fn is_raw(p: Payload, data: Seq<u8>) -> bool {
    match p {
        Payload::Raw(d) => d@ == data,
        _ => false,
    }
}

/// The view of an optional byte payload.
pub open spec fn opt_bytes_view(o: Option<Vec<u8>>) -> Option<Seq<u8>> {
    match o {
        Some(v) => Some(v@),
        None => None,
    }
}

/// The view of an optional string.
pub open spec fn opt_str_view(o: Option<String>) -> Option<Seq<char>> {
    match o {
        Some(s) => Some(s@),
        None => None,
    }
}

/// Whether `p` is the creation payload for child `id` with arguments
/// `args`, interest mask `mask` and field reference `field`.
pub open spec fn is_creation(
    p: Payload,
    id: Seq<char>,
    args: Seq<u8>,
    mask: Option<Seq<u8>>,
    field: Option<Seq<char>>,
) -> bool {
    match p {
        Payload::Creation { id: i, args: a, mask: m, field: f } => {
            &&& i@ == id
            &&& a@ == args
            &&& opt_bytes_view(m) == mask
            &&& opt_str_view(f) == field
        },
        _ => false,
    }
}

/// Whether `p` is the payload addressed at `target` holding `data`.
pub open spec fn is_addressed(p: Payload, target: Seq<char>, data: Seq<u8>) -> bool {
    match p {
        Payload::Addressed { target: t, data: d } => t@ == target && d@ == data,
        _ => false,
    }
}

/// One outbound frame: a fire-and-forget signal when `correlation` is
/// `None`, a method call expecting exactly one response when it is `Some`.
#[derive(Debug)]
pub struct Frame {
    pub path: String,
    pub method: String,
    pub payload: Payload,
    pub correlation: Option<u64>,
}

/// The outbound half of one connection.
pub struct Messenger {
    alive: bool,
    transport_ok: bool,
    outbox: Vec<Frame>,
    next_correlation: u64,
    pending: Vec<u64>,
}

impl Messenger {
    /// Whether the underlying transport handle has been released.
    pub closed spec fn is_alive(&self) -> bool {
        self.alive
    }

    /// Whether the transport has refused a write since the last connect.
    pub closed spec fn transport_writable(&self) -> bool {
        self.transport_ok
    }

    pub open spec fn can_send(&self) -> bool {
        self.is_alive() && self.transport_writable()
    }

    /// Every frame handed to the transport so far, oldest first.
    pub closed spec fn sent(&self) -> Seq<Frame> {
        self.outbox@
    }

    /// Correlation ids of method calls still awaiting their response.
    pub closed spec fn pending_calls(&self) -> Seq<u64> {
        self.pending@
    }

    pub open spec fn has_pending(&self, cid: u64) -> bool {
        self.pending_calls().contains(cid)
    }

    /// The next correlation id to be handed out; ids are never reused.
    pub closed spec fn next_cid(&self) -> u64 {
        self.next_correlation
    }

    pub open spec fn wf(&self) -> bool {
        &&& forall|i: int, j: int|
            0 <= i < j < self.pending_calls().len() ==> (#[trigger] self.pending_calls()[i])
                < (#[trigger] self.pending_calls()[j])
        &&& forall|i: int|
            0 <= i < self.pending_calls().len() ==> (#[trigger] self.pending_calls()[i])
                < self.next_cid()
    }

    /// A messenger whose correlation state matches a well-formed one is
    /// itself well-formed, whatever happened to its log and flags.
    proof fn lemma_wf_carries(a: &Messenger, b: &Messenger)
        requires
            a.wf(),
            b.pending_calls() == a.pending_calls(),
            a.next_cid() <= b.next_cid(),
        ensures
            b.wf(),
    {
        assert forall|i: int, j: int|
            0 <= i < j < b.pending_calls().len() implies (#[trigger] b.pending_calls()[i]) < (
        #[trigger] b.pending_calls()[j]) by {
            assert(a.pending_calls()[i] < a.pending_calls()[j]);
        }
        assert forall|i: int|
            0 <= i < b.pending_calls().len() implies (#[trigger] b.pending_calls()[i])
            < b.next_cid() by {
            assert(a.pending_calls()[i] < a.next_cid());
        }
    }

    /// The frame log grew by exactly the described frame.
    pub open spec fn sent_one(
        &self,
        prev: Messenger,
        path: Seq<char>,
        method: Seq<char>,
        payload: Payload,
        correlation: Option<u64>,
    ) -> bool {
        &&& self.sent().len() == prev.sent().len() + 1
        &&& self.sent().drop_last() == prev.sent()
        &&& self.sent().last().path@ == path
        &&& self.sent().last().method@ == method
        &&& self.sent().last().payload == payload
        &&& self.sent().last().correlation == correlation
    }

    /// Neither the connection flags nor the correlation state moved.
    pub open spec fn same_call_state(&self, prev: Messenger) -> bool {
        &&& self.is_alive() == prev.is_alive()
        &&& self.transport_writable() == prev.transport_writable()
        &&& self.pending_calls() == prev.pending_calls()
        &&& self.next_cid() == prev.next_cid()
    }

    pub fn new() -> (r: Messenger)
        ensures
            r.wf(),
            r.is_alive(),
            r.transport_writable(),
            r.sent() == Seq::<Frame>::empty(),
            r.pending_calls() == Seq::<u64>::empty(),
            r.next_cid() == 0,
    {
        Messenger {
            alive: true,
            transport_ok: true,
            outbox: Vec::new(),
            next_correlation: 0,
            pending: Vec::new(),
        }
    }

    /// Fire-and-forget: hand one signal frame to the transport.  Fails with
    /// `InvalidMessenger` once the transport handle is released and with
    /// `MessengerWrite` once the transport refuses writes; nothing is
    /// recorded in either case.
    pub fn send_remote_signal(&mut self, path: &str, method: &str, payload: Payload) -> (r: Result<
        (),
        NodeError,
    >)
        requires
            old(self).wf(),
        ensures
            final(self).wf(),
            final(self).same_call_state(*old(self)),
            r is Ok <==> old(self).can_send(),
            match r {
                Ok(()) => final(self).sent_one(
                    *old(self),
                    path@,
                    method@,
                    payload,
                    None::<u64>,
                ),
                Err(e) => {
                    &&& final(self).sent() == old(self).sent()
                    &&& (e == NodeError::InvalidMessenger <==> !old(self).is_alive())
                    &&& (e == NodeError::MessengerWrite <==> old(self).is_alive() && !old(
                        self,
                    ).transport_writable())
                },
            },
    {
        if !self.alive {
            return Err(NodeError::InvalidMessenger);
        }
        if !self.transport_ok {
            return Err(NodeError::MessengerWrite);
        }
        let frame = Frame {
            path: String::from_str(path),
            method: String::from_str(method),
            payload,
            correlation: None,
        };
        self.outbox.push(frame);
        proof {
            assert(self.outbox@.drop_last() =~= old(self).outbox@);
            Self::lemma_wf_carries(old(self), self);
        }
        Ok(())
    }

    /// Start a method call: allocate a fresh correlation id, hand the frame
    /// to the transport, and register the id as pending.  Returns the id the
    /// response will carry.
    pub fn execute_remote_method(
        &mut self,
        path: &str,
        method: &str,
        payload: Payload,
    ) -> (r: Result<u64, NodeError>)
        requires
            old(self).wf(),
            old(self).next_cid() < u64::MAX,
        ensures
            final(self).wf(),
            final(self).is_alive() == old(self).is_alive(),
            final(self).transport_writable() == old(self).transport_writable(),
            r is Ok <==> old(self).can_send(),
            match r {
                Ok(cid) => {
                    &&& cid == old(self).next_cid()
                    &&& final(self).next_cid() == old(self).next_cid() + 1
                    &&& final(self).pending_calls() == old(self).pending_calls().push(cid)
                    &&& final(self).sent_one(*old(self), path@, method@, payload, Some(cid))
                },
                Err(e) => {
                    &&& *final(self) == *old(self)
                    &&& (e == NodeError::InvalidMessenger <==> !old(self).is_alive())
                    &&& (e == NodeError::MessengerWrite <==> old(self).is_alive() && !old(
                        self,
                    ).transport_writable())
                },
            },
    {
        if !self.alive {
            return Err(NodeError::InvalidMessenger);
        }
        if !self.transport_ok {
            return Err(NodeError::MessengerWrite);
        }
        let cid = self.next_correlation;
        self.next_correlation = self.next_correlation + 1;
        let frame = Frame {
            path: String::from_str(path),
            method: String::from_str(method),
            payload,
            correlation: Some(cid),
        };
        self.outbox.push(frame);
        self.pending.push(cid);
        proof {
            assert(self.outbox@.drop_last() =~= old(self).outbox@);
            assert(self.pending_calls() == old(self).pending_calls().push(cid));
            assert forall|i: int, j: int|
                0 <= i < j < self.pending_calls().len() implies (#[trigger] self.pending_calls()[i])
                < (#[trigger] self.pending_calls()[j]) by {
                if j < self.pending_calls().len() - 1 {
                    assert(old(self).pending_calls()[i] < old(self).pending_calls()[j]);
                } else if i < self.pending_calls().len() - 1 {
                    assert(old(self).pending_calls()[i] < old(self).next_cid());
                }
            }
            assert forall|i: int|
                0 <= i < self.pending_calls().len() implies (#[trigger] self.pending_calls()[i])
                < self.next_cid() by {
                if i < self.pending_calls().len() - 1 {
                    assert(old(self).pending_calls()[i] < old(self).next_cid());
                }
            }
        }
        Ok(cid)
    }

    /// Resolve the pending call matching an inbound response frame.  Returns
    /// whether a call was waiting: a response whose id matches nothing (for
    /// example after the caller abandoned it) is discarded.
    pub fn handle_response(&mut self, cid: u64) -> (r: bool)
        requires
            old(self).wf(),
        ensures
            final(self).wf(),
            r == old(self).has_pending(cid),
            !r ==> *final(self) == *old(self),
            final(self).is_alive() == old(self).is_alive(),
            final(self).transport_writable() == old(self).transport_writable(),
            final(self).sent() == old(self).sent(),
            final(self).next_cid() == old(self).next_cid(),
            forall|c: u64|
                final(self).has_pending(c) <==> old(self).has_pending(c) && c != cid,
    {
        let found = self.remove_pending(cid);
        found
    }

    /// A caller that stopped waiting for its response: the pending entry is
    /// dropped, and the eventual response will be discarded.
    pub fn abandon_call(&mut self, cid: u64)
        requires
            old(self).wf(),
        ensures
            final(self).wf(),
            final(self).is_alive() == old(self).is_alive(),
            final(self).transport_writable() == old(self).transport_writable(),
            final(self).sent() == old(self).sent(),
            final(self).next_cid() == old(self).next_cid(),
            forall|c: u64|
                final(self).has_pending(c) <==> old(self).has_pending(c) && c != cid,
    {
        let _ = self.remove_pending(cid);
    }

    fn remove_pending(&mut self, cid: u64) -> (r: bool)
        requires
            old(self).wf(),
        ensures
            final(self).wf(),
            r == old(self).has_pending(cid),
            !r ==> *final(self) == *old(self),
            final(self).is_alive() == old(self).is_alive(),
            final(self).transport_writable() == old(self).transport_writable(),
            final(self).sent() == old(self).sent(),
            final(self).next_cid() == old(self).next_cid(),
            forall|c: u64|
                final(self).has_pending(c) <==> old(self).has_pending(c) && c != cid,
    {
        let n: usize = self.pending.len();
        let mut i: usize = 0;
        while i < n
            invariant
                i <= n,
                n == self.pending@.len(),
                *self == *old(self),
                old(self).wf(),
                forall|j: int| 0 <= j < i ==> self.pending@[j] != cid,
            decreases n - i,
        {
            if *vstd::std_specs::vec::vec_index(&self.pending, i) == cid {
                self.pending.remove(i);
                proof {
                    let p = old(self).pending_calls();
                    let q = self.pending_calls();
                    assert(q =~= p.remove(i as int));
                    assert(p.contains(cid));
                    assert forall|c: u64| q.contains(c) implies p.contains(c) && c != cid by {
                        let k = choose|k: int| 0 <= k < q.len() && q[k] == c;
                        if k < i {
                            assert(p[k] == c);
                        } else {
                            assert(p[k + 1] == c);
                            assert(p[i as int] < p[k + 1]);
                        }
                    }
                    assert forall|c: u64| p.contains(c) && c != cid implies q.contains(c) by {
                        let k = choose|k: int| 0 <= k < p.len() && p[k] == c;
                        if k < i {
                            assert(q[k] == c);
                        } else {
                            assert(k > i);
                            assert(q[k - 1] == c);
                        }
                    }
                    assert forall|a: int, b: int|
                        0 <= a < b < q.len() implies (#[trigger] q[a]) < (#[trigger] q[b]) by {
                        if b < i {
                            assert(p[a] < p[b]);
                        } else if a < i {
                            assert(p[a] < p[b + 1]);
                        } else {
                            assert(p[a + 1] < p[b + 1]);
                        }
                    }
                }
                return true;
            }
            i = i + 1;
        }
        proof {
            if old(self).pending@.contains(cid) {
                let k = choose|k: int|
                    0 <= k < old(self).pending@.len() && old(self).pending@[k] == cid;
                assert(self.pending@[k] != cid);
            }
        }
        false
    }

    /// The transport reported closure: the messenger becomes unusable and
    /// every pending call is abandoned.  Returns the correlation ids that
    /// were waiting, so their callers can be failed with `InvalidMessenger`.
    pub fn mark_closed(&mut self) -> (r: Vec<u64>)
        requires
            old(self).wf(),
        ensures
            final(self).wf(),
            !final(self).is_alive(),
            final(self).transport_writable() == old(self).transport_writable(),
            final(self).sent() == old(self).sent(),
            final(self).next_cid() == old(self).next_cid(),
            final(self).pending_calls() == Seq::<u64>::empty(),
            r@ == old(self).pending_calls(),
    {
        self.alive = false;
        let mut taken: Vec<u64> = Vec::new();
        core::mem::swap(&mut taken, &mut self.pending);
        taken
    }

    /// The transport reported a failed write: further sends fail with
    /// `MessengerWrite` until a new connection replaces this messenger.
    pub fn mark_write_failed(&mut self)
        requires
            old(self).wf(),
        ensures
            final(self).wf(),
            !final(self).transport_writable(),
            final(self).is_alive() == old(self).is_alive(),
            final(self).sent() == old(self).sent(),
            final(self).pending_calls() == old(self).pending_calls(),
            final(self).next_cid() == old(self).next_cid(),
    {
        self.transport_ok = false;
        proof {
            Self::lemma_wf_carries(old(self), self);
        }
    }

    /// Read access to the frame log, for the runtime that performs writes.
    pub fn frames(&self) -> (r: &Vec<Frame>)
        ensures
            r@ == self.sent(),
    {
        &self.outbox
    }

    /// The correlation id the next method call would use; lets a caller
    /// check headroom against the machine limit before calling.
    pub fn next_correlation_id(&self) -> (r: u64)
        ensures
            r == self.next_cid(),
    {
        self.next_correlation
    }

    /// Read access to the outstanding correlation ids.
    pub fn pending_ids(&self) -> (r: &Vec<u64>)
        ensures
            r@ == self.pending_calls(),
    {
        &self.pending
    }
}

} // verus!
