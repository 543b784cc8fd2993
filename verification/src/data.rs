//! Pulse senders and receivers: typed data channels built on the core.
//!
//! A sender declares an interest mask (a keyed map payload); receivers with
//! a matching mask become visible to it.  The server reports each with a
//! `newReceiver` signal naming the receiver's id; the sender mirrors it as
//! a proxy pair (receiver plus its query field) and can then transmit a
//! payload addressed at that id.

use vstd::prelude::*;
use vstd::string::*;

use crate::client::Client;
use crate::flex::{
    flex_check_map, flex_get_root_str, flex_map_in_bounds, flex_map_vectors_bounded,
    flex_new_receiver_uid, flex_pulse_fields, flex_root_is_map, flex_root_str, new_receiver_uid,
    pulse_data_fields,
};
use crate::handler::HandlerWrapper;
use crate::ids::generate_id;
use crate::messenger::{is_addressed, is_creation, Messenger, Payload};
use crate::node::{child_path, path_name, str_eq, Node, NodeError};
use crate::spatial::{NodeType, Spatial, UnknownField};

verus! {

/// User logic reacting to a pulse sender's events.
pub trait PulseSenderHandler {
    fn new_receiver(
        &mut self,
        receiver: &PulseReceiver,
        field: &UnknownField,
        info: NewReceiverInfo,
    );

    fn drop_receiver(&mut self, uid: &str);
}

/// User logic reacting to data arriving at a pulse receiver.
pub trait PulseReceiverHandler {
    fn data(&mut self, uid: &str, data: &Vec<u8>);
}

/// What the server reports of a newly visible receiver: its id (the name
/// segment under which its proxies live) and the raw payload bytes, whose
/// remaining fields this client reads only as bytes.
#[derive(Debug)]
pub struct NewReceiverInfo {
    pub uid: String,
    pub raw: Vec<u8>,
}

/// One datum delivered to a receiver: the transmitting sender's id and
/// the carried bytes, exactly as the payload's fields parse.
#[derive(Debug)]
pub struct ReceivedPulse {
    pub uid: String,
    pub data: Vec<u8>,
}

/// A receiver of transmitted payloads, keeping the data delivered to it,
/// newest last; the handler is invoked on the newest entry.
pub struct PulseReceiver {
    pub spatial: Spatial,
    pub received: Vec<ReceivedPulse>,
}

impl NodeType for PulseReceiver {
    fn node(&self) -> &Node {
        &self.spatial.node
    }
}

/// One receiver the server reported to a sender: the receiver proxy and its
/// query field proxy, keyed by the receiver's id.
pub struct ReceiverSlot {
    pub uid: String,
    pub receiver: PulseReceiver,
    pub field: UnknownField,
}

/// A sender of data pulses, mirroring the receivers visible to it.
pub struct PulseSender {
    pub spatial: Spatial,
    pub receivers: Vec<ReceiverSlot>,
}

impl NodeType for PulseSender {
    fn node(&self) -> &Node {
        &self.spatial.node
    }
}

impl PulseSender {
    pub open spec fn receiver_slots(&self) -> Seq<ReceiverSlot> {
        self.receivers@
    }

    /// Whether a receiver with id `uid` is currently mirrored.
    pub open spec fn has_receiver(&self, uid: Seq<char>) -> bool {
        exists|i: int|
            0 <= i < self.receiver_slots().len() && (#[trigger] self.receiver_slots()[i]).uid@
                == uid
    }

    /// At most one mirrored receiver per id.
    pub open spec fn wf(&self) -> bool {
        forall|i: int, j: int|
            0 <= i < j < self.receiver_slots().len() ==> (#[trigger] self.receiver_slots()[i]).uid@
                != (#[trigger] self.receiver_slots()[j]).uid@
    }

    fn find_receiver(&self, uid: &str) -> (r: Option<usize>)
        ensures
            match r {
                Some(i) => i < self.receiver_slots().len() && self.receiver_slots()[
                    i as int
                ].uid@ == uid@,
                None => !self.has_receiver(uid@),
            },
    {
        let n: usize = self.receivers.len();
        let mut i: usize = 0;
        while i < n
            invariant
                i <= n,
                n == self.receiver_slots().len(),
                forall|j: int| 0 <= j < i ==> (#[trigger] self.receiver_slots()[j]).uid@ != uid@,
            decreases n - i,
        {
            if str_eq(self.receivers[i].uid.as_str(), uid) {
                return Some(i);
            }
            i = i + 1;
        }
        None
    }

    /// Drop the mirrored receiver with id `uid`, if any.
    fn remove_receiver(&mut self, uid: &str)
        requires
            old(self).wf(),
        ensures
            final(self).wf(),
            final(self).spatial == old(self).spatial,
            !final(self).has_receiver(uid@),
            forall|u: Seq<char>|
                u != uid@ ==> ((#[trigger] final(self).has_receiver(u)) <==> old(
                    self,
                ).has_receiver(u)),
    {
        let found = self.find_receiver(uid);
        match found {
            Some(i) => {
                self.receivers.remove(i);
                proof {
                    let p = old(self).receiver_slots();
                    let q = self.receiver_slots();
                    assert(q =~= p.remove(i as int));
                    assert forall|a: int, b: int|
                        0 <= a < b < q.len() implies (#[trigger] q[a]).uid@ != (
                    #[trigger] q[b]).uid@ by {
                        let pa: int = if a < i { a } else { a + 1 };
                        let pb: int = if b < i { b } else { b + 1 };
                        assert(p[pa].uid@ != p[pb].uid@);
                    }
                    assert forall|k: int| 0 <= k < q.len() implies (#[trigger] q[k]).uid@
                        != uid@ by {
                        let pk: int = if k < i { k } else { k + 1 };
                        if pk < i {
                            assert(p[pk].uid@ != p[i as int].uid@);
                        } else if pk > i {
                            assert(p[i as int].uid@ != p[pk].uid@);
                        }
                    }
                    assert forall|u: Seq<char>| u != uid@ implies ((#[trigger] self.has_receiver(
                        u,
                    )) <==> old(self).has_receiver(u)) by {
                        if self.has_receiver(u) {
                            let k = choose|k: int| 0 <= k < q.len() && q[k].uid@ == u;
                            let pk: int = if k < i { k } else { k + 1 };
                            assert(p[pk].uid@ == u);
                        }
                        if old(self).has_receiver(u) {
                            let k = choose|k: int| 0 <= k < p.len() && p[k].uid@ == u;
                            assert(k != i);
                            let qk: int = if k < i { k } else { k - 1 };
                            assert(q[qk].uid@ == u);
                        }
                    }
                }
            },
            None => {},
        }
    }

    /// Mirror one reported receiver under id `uid`, replacing any earlier
    /// one with the same id.
    fn insert_receiver(&mut self, slot: ReceiverSlot)
        requires
            old(self).wf(),
        ensures
            final(self).wf(),
            final(self).spatial == old(self).spatial,
            final(self).has_receiver(slot.uid@),
            final(self).receiver_slots().last() == slot,
            forall|u: Seq<char>|
                u != slot.uid@ ==> ((#[trigger] final(self).has_receiver(u)) <==> old(
                    self,
                ).has_receiver(u)),
    {
        self.remove_receiver(slot.uid.as_str());
        let ghost mid = *self;
        self.receivers.push(slot);
        proof {
            let p = mid.receiver_slots();
            let q = self.receiver_slots();
            assert forall|a: int, b: int|
                0 <= a < b < q.len() implies (#[trigger] q[a]).uid@ != (#[trigger] q[b]).uid@ by {
                if b < q.len() - 1 {
                    assert(p[a].uid@ != p[b].uid@);
                } else {
                    assert(p[a].uid@ == q[a].uid@);
                    assert(!mid.has_receiver(slot.uid@));
                }
            }
            assert(q[q.len() - 1].uid@ == slot.uid@);
            assert forall|u: Seq<char>| u != slot.uid@ implies ((#[trigger] self.has_receiver(u))
                <==> mid.has_receiver(u)) by {
                if self.has_receiver(u) {
                    let k = choose|k: int| 0 <= k < q.len() && q[k].uid@ == u;
                    assert(k < q.len() - 1);
                    assert(p[k].uid@ == u);
                }
                if mid.has_receiver(u) {
                    let k = choose|k: int| 0 <= k < p.len() && p[k].uid@ == u;
                    assert(q[k].uid@ == u);
                }
            }
        }
    }

    /// Create a sender declaring the interest mask `mask` (which must be a
    /// well-formed keyed map), with the remaining constructor arguments
    /// already encoded in `args`.  The creation call is awaited: settle it
    /// with `confirm_creation` on the node when the response arrives.
    pub fn create<H: PulseSenderHandler>(
        client: &mut Client,
        mask: Vec<u8>,
        args: Vec<u8>,
        handler: H,
    ) -> (r: Result<HandlerWrapper<PulseSender, H>, NodeError>)
        requires
            old(client).wf(),
            old(client).messenger.next_cid() < u64::MAX,
        ensures
            final(client).wf(),
            final(client).root_path() == old(client).root_path(),
            final(client).messenger.is_alive() == old(client).messenger.is_alive(),
            final(client).messenger.transport_writable() == old(
                client,
            ).messenger.transport_writable(),
            r is Ok <==> flex_root_is_map(mask@) && old(client).messenger.can_send(),
            match r {
                Ok(w) => {
                    &&& w.spec_handler() == Some(handler)
                    &&& w.spec_core().wf()
                    &&& forall|u: Seq<char>| !w.spec_core().has_receiver(u)
                    &&& path_name(w.spec_core().spatial.node@).len() == 21
                    &&& w.spec_core().spatial.node@ == child_path(
                        "/data/sender"@,
                        path_name(w.spec_core().spatial.node@),
                    )
                    &&& final(client).scenegraph.has_node(w.spec_core().spatial.node@)
                    &&& final(client).scenegraph.node_has_signal(
                        w.spec_core().spatial.node@,
                        "newReceiver"@,
                    )
                    &&& final(client).scenegraph.node_has_signal(
                        w.spec_core().spatial.node@,
                        "dropReceiver"@,
                    )
                    &&& forall|m: Seq<char>|
                        m != "newReceiver"@ && m != "dropReceiver"@ ==> !(
                        #[trigger] final(client).scenegraph.node_has_signal(
                            w.spec_core().spatial.node@,
                            m,
                        ))
                    &&& forall|m: Seq<char>|
                        !(#[trigger] final(client).scenegraph.node_has_method(
                            w.spec_core().spatial.node@,
                            m,
                        ))
                    &&& final(client).scenegraph.same_nodes_except(
                        old(client).scenegraph,
                        w.spec_core().spatial.node@,
                    )
                    &&& final(client).scenegraph.queued() == old(client).scenegraph.queued()
                    &&& final(client).messenger.sent().len() == old(client).messenger.sent().len()
                        + 1
                    &&& final(client).messenger.sent().drop_last() == old(client).messenger.sent()
                    &&& final(client).messenger.sent().last().path@ == "/data"@
                    &&& final(client).messenger.sent().last().method@ == "createPulseSender"@
                    &&& is_creation(
                        final(client).messenger.sent().last().payload,
                        path_name(w.spec_core().spatial.node@),
                        args@,
                        Some(mask@),
                        None::<Seq<char>>,
                    )
                    &&& final(client).messenger.sent().last().correlation == Some(
                        old(client).messenger.next_cid(),
                    )
                },
                Err(e) => {
                    &&& final(client).scenegraph == old(client).scenegraph
                    &&& final(client).messenger.sent() == old(client).messenger.sent()
                    &&& final(client).messenger.same_call_state(old(client).messenger)
                    &&& (e == NodeError::MapInvalid <==> !flex_root_is_map(mask@))
                    &&& (e == NodeError::InvalidMessenger <==> flex_root_is_map(mask@) && !old(
                        client,
                    ).messenger.is_alive())
                    &&& (e == NodeError::MessengerWrite <==> flex_root_is_map(mask@) && old(
                        client,
                    ).messenger.is_alive() && !old(client).messenger.transport_writable())
                },
            },
    {
        if !flex_check_map(&mask) {
            return Err(NodeError::MapInvalid);
        }
        proof {
            reveal_strlit("/data/sender");
        }
        let id = generate_id(21);
        let node = match Node::new(
            client,
            "/data",
            "createPulseSender",
            "/data/sender",
            true,
            id.as_str(),
            args,
            Some(mask),
            None,
        ) {
            Ok(n) => n,
            Err(e) => {
                return Err(e);
            },
        };
        match node.add_local_signal(&mut client.scenegraph, "newReceiver") {
            Ok(()) => {},
            Err(_) => {
                proof {
                    assert(false);
                }
                return Err(NodeError::NodeNotFound);
            },
        }
        match node.add_local_signal(&mut client.scenegraph, "dropReceiver") {
            Ok(()) => {},
            Err(_) => {
                proof {
                    assert(false);
                }
                return Err(NodeError::NodeNotFound);
            },
        }
        let sender = PulseSender { spatial: Spatial { node }, receivers: Vec::new() };
        Ok(HandlerWrapper::new(sender, handler))
    }

    /// Transmit `data` (which must be a well-formed keyed map) to one
    /// mirrored receiver: a `sendData` signal at this sender's path,
    /// addressed at the receiver's name.
    pub fn send_data(&self, messenger: &mut Messenger, receiver: &PulseReceiver, data: Vec<u8>) -> (
    r: Result<(), NodeError>)
        requires
            old(messenger).wf(),
        ensures
            final(messenger).wf(),
            final(messenger).same_call_state(*old(messenger)),
            r is Ok <==> flex_root_is_map(data@) && old(messenger).can_send(),
            match r {
                Ok(()) => {
                    &&& final(messenger).sent().len() == old(messenger).sent().len() + 1
                    &&& final(messenger).sent().drop_last() == old(messenger).sent()
                    &&& final(messenger).sent().last().path@ == self.spatial.node@
                    &&& final(messenger).sent().last().method@ == "sendData"@
                    &&& is_addressed(
                        final(messenger).sent().last().payload,
                        path_name(receiver.spatial.node@),
                        data@,
                    )
                    &&& final(messenger).sent().last().correlation == None::<u64>
                },
                Err(e) => {
                    &&& final(messenger).sent() == old(messenger).sent()
                    &&& (e == NodeError::MapInvalid <==> !flex_root_is_map(data@))
                    &&& (e == NodeError::InvalidMessenger <==> flex_root_is_map(data@) && !old(
                        messenger,
                    ).is_alive())
                    &&& (e == NodeError::MessengerWrite <==> flex_root_is_map(data@) && old(
                        messenger,
                    ).is_alive() && !old(messenger).transport_writable())
                },
            },
    {
        if !flex_check_map(&data) {
            return Err(NodeError::MapInvalid);
        }
        let target = String::from_str(receiver.spatial.node.get_name());
        messenger.send_remote_signal(
            self.spatial.node.get_path(),
            "sendData",
            Payload::Addressed { target, data },
        )
    }
}

impl<H: PulseSenderHandler> HandlerWrapper<PulseSender, H> {
    /// Route an inbound `newReceiver` signal: read the reported id out of
    /// the payload, register proxies for the receiver and its query field
    /// under this sender's path, mirror them, and hand them to the handler.
    /// A payload without a readable id fails with `MapInvalid`; a dropped
    /// handler is silently skipped, the bookkeeping happening all the same.
    pub fn dispatch_new_receiver(&mut self, client: &mut Client, data: &Vec<u8>) -> (r: Result<
        (),
        NodeError,
    >)
        requires
            old(client).wf(),
            old(self).spec_core().wf(),
        ensures
            final(client).wf(),
            final(self).spec_core().wf(),
            final(self).handler_present() == old(self).handler_present(),
            final(client).root_path() == old(client).root_path(),
            final(client).messenger == old(client).messenger,
            final(client).scenegraph.queued() == old(client).scenegraph.queued(),
            final(self).spec_core().spatial == old(self).spec_core().spatial,
            r is Ok <==> flex_map_vectors_bounded(data@) && new_receiver_uid(data@) is Some,
            match r {
                Ok(()) => new_receiver_uid(data@) matches Some(uid) ==> {
                    &&& final(self).spec_core().has_receiver(uid)
                    &&& forall|u: Seq<char>|
                        u != uid ==> ((#[trigger] final(self).spec_core().has_receiver(u)) <==> old(
                            self,
                        ).spec_core().has_receiver(u))
                    &&& final(self).spec_core().receiver_slots().last().receiver.spatial.node@
                        == old(self).spec_core().spatial.node@ + seq!['/'] + uid
                    &&& final(self).spec_core().receiver_slots().last().field.spatial.node@ == old(
                        self,
                    ).spec_core().spatial.node@ + seq!['/'] + uid + "-field"@
                    &&& final(client).scenegraph.has_node(
                        old(self).spec_core().spatial.node@ + seq!['/'] + uid,
                    )
                    &&& final(client).scenegraph.has_node(
                        old(self).spec_core().spatial.node@ + seq!['/'] + uid + "-field"@,
                    )
                },
                Err(e) => {
                    &&& e == NodeError::MapInvalid
                    &&& *final(client) == *old(client)
                    &&& final(self).spec_core().receiver_slots() == old(
                        self,
                    ).spec_core().receiver_slots()
                },
            },
    {
        if !flex_map_in_bounds(data) {
            return Err(NodeError::MapInvalid);
        }
        let uid = match flex_new_receiver_uid(data) {
            Some(u) => u,
            None => {
                return Err(NodeError::MapInvalid);
            },
        };
        let mut receiver_path = String::from_str(self.core.spatial.node.get_path());
        receiver_path.append("/");
        receiver_path.append(uid.as_str());
        proof {
            reveal_strlit("/");
            assert("/"@ =~= seq!['/']);
        }
        let mut field_path = receiver_path.clone();
        field_path.append("-field");
        let receiver = match Spatial::from_path(client, receiver_path.as_str()) {
            Ok(s) => PulseReceiver { spatial: s, received: Vec::new() },
            Err(_) => {
                proof {
                    assert(false);
                }
                return Err(NodeError::InvalidPath);
            },
        };
        let field = match Spatial::from_path(client, field_path.as_str()) {
            Ok(s) => UnknownField { spatial: s },
            Err(_) => {
                proof {
                    assert(false);
                }
                return Err(NodeError::InvalidPath);
            },
        };
        self.core.insert_receiver(ReceiverSlot { uid: uid.clone(), receiver, field });
        match &mut self.handler {
            Some(h) => {
                let n: usize = self.core.receivers.len();
                let slot: &ReceiverSlot = &self.core.receivers[n - 1];
                h.new_receiver(
                    &slot.receiver,
                    &slot.field,
                    NewReceiverInfo { uid, raw: data.clone() },
                );
            },
            None => {},
        }
        Ok(())
    }

    /// Route an inbound `dropReceiver` signal: read the id out of the
    /// payload, drop the mirrored receiver, and tell the handler.  A payload
    /// whose root is not a string fails with `MapInvalid`; a dropped handler
    /// is silently skipped.
    pub fn dispatch_drop_receiver(&mut self, data: &Vec<u8>) -> (r: Result<(), NodeError>)
        requires
            old(self).spec_core().wf(),
        ensures
            final(self).spec_core().wf(),
            final(self).handler_present() == old(self).handler_present(),
            final(self).spec_core().spatial == old(self).spec_core().spatial,
            r is Ok <==> flex_root_str(data@) is Some,
            match r {
                Ok(()) => flex_root_str(data@) matches Some(uid) ==> {
                    &&& !final(self).spec_core().has_receiver(uid)
                    &&& forall|u: Seq<char>|
                        u != uid ==> ((#[trigger] final(self).spec_core().has_receiver(u)) <==> old(
                            self,
                        ).spec_core().has_receiver(u))
                },
                Err(e) => {
                    &&& e == NodeError::MapInvalid
                    &&& final(self).spec_core().receiver_slots() == old(
                        self,
                    ).spec_core().receiver_slots()
                },
            },
    {
        let uid = match flex_get_root_str(data) {
            Some(u) => u,
            None => {
                return Err(NodeError::MapInvalid);
            },
        };
        self.core.remove_receiver(uid.as_str());
        match &mut self.handler {
            Some(h) => {
                h.drop_receiver(uid.as_str());
            },
            None => {},
        }
        Ok(())
    }
}

impl PulseReceiver {
    /// Create a receiver declaring the interest mask `mask` (which must be
    /// a well-formed keyed map) and attached to the query volume whose node
    /// is `field`, with the remaining constructor arguments — parent,
    /// transform — already encoded in `args`.
    pub fn create<H: PulseReceiverHandler>(
        client: &mut Client,
        field: &Node,
        mask: Vec<u8>,
        args: Vec<u8>,
        handler: H,
    ) -> (r: Result<HandlerWrapper<PulseReceiver, H>, NodeError>)
        requires
            old(client).wf(),
            old(client).messenger.next_cid() < u64::MAX,
        ensures
            final(client).wf(),
            final(client).root_path() == old(client).root_path(),
            final(client).messenger.is_alive() == old(client).messenger.is_alive(),
            final(client).messenger.transport_writable() == old(
                client,
            ).messenger.transport_writable(),
            r is Ok <==> flex_root_is_map(mask@) && old(client).messenger.can_send(),
            match r {
                Ok(w) => {
                    &&& w.spec_handler() == Some(handler)
                    &&& path_name(w.spec_core().spatial.node@).len() == 21
                    &&& w.spec_core().spatial.node@ == child_path(
                        "/data/receiver"@,
                        path_name(w.spec_core().spatial.node@),
                    )
                    &&& final(client).scenegraph.has_node(w.spec_core().spatial.node@)
                    &&& final(client).scenegraph.node_has_signal(
                        w.spec_core().spatial.node@,
                        "data"@,
                    )
                    &&& forall|m: Seq<char>|
                        m != "data"@ ==> !(#[trigger] final(client).scenegraph.node_has_signal(
                            w.spec_core().spatial.node@,
                            m,
                        ))
                    &&& forall|m: Seq<char>|
                        !(#[trigger] final(client).scenegraph.node_has_method(
                            w.spec_core().spatial.node@,
                            m,
                        ))
                    &&& w.spec_core().received@.len() == 0
                    &&& final(client).scenegraph.same_nodes_except(
                        old(client).scenegraph,
                        w.spec_core().spatial.node@,
                    )
                    &&& final(client).scenegraph.queued() == old(client).scenegraph.queued()
                    &&& final(client).messenger.sent().len() == old(client).messenger.sent().len()
                        + 1
                    &&& final(client).messenger.sent().drop_last() == old(client).messenger.sent()
                    &&& final(client).messenger.sent().last().path@ == "/data"@
                    &&& final(client).messenger.sent().last().method@ == "createPulseReceiver"@
                    &&& is_creation(
                        final(client).messenger.sent().last().payload,
                        path_name(w.spec_core().spatial.node@),
                        args@,
                        Some(mask@),
                        Some(field@),
                    )
                    &&& final(client).messenger.sent().last().correlation == Some(
                        old(client).messenger.next_cid(),
                    )
                },
                Err(e) => {
                    &&& final(client).scenegraph == old(client).scenegraph
                    &&& final(client).messenger.sent() == old(client).messenger.sent()
                    &&& final(client).messenger.same_call_state(old(client).messenger)
                    &&& (e == NodeError::MapInvalid <==> !flex_root_is_map(mask@))
                    &&& (e == NodeError::InvalidMessenger <==> flex_root_is_map(mask@) && !old(
                        client,
                    ).messenger.is_alive())
                    &&& (e == NodeError::MessengerWrite <==> flex_root_is_map(mask@) && old(
                        client,
                    ).messenger.is_alive() && !old(client).messenger.transport_writable())
                },
            },
    {
        if !flex_check_map(&mask) {
            return Err(NodeError::MapInvalid);
        }
        proof {
            reveal_strlit("/data/receiver");
        }
        let id = generate_id(21);
        let field_path = String::from_str(field.get_path());
        let node = match Node::new(
            client,
            "/data",
            "createPulseReceiver",
            "/data/receiver",
            true,
            id.as_str(),
            args,
            Some(mask),
            Some(field_path),
        ) {
            Ok(n) => n,
            Err(e) => {
                return Err(e);
            },
        };
        match node.add_local_signal(&mut client.scenegraph, "data") {
            Ok(()) => {},
            Err(_) => {
                proof {
                    assert(false);
                }
                return Err(NodeError::NodeNotFound);
            },
        }
        Ok(
            HandlerWrapper::new(
                PulseReceiver { spatial: Spatial { node }, received: Vec::new() },
                handler,
            ),
        )
    }
}

impl<H: PulseReceiverHandler> HandlerWrapper<PulseReceiver, H> {
    /// Route an inbound `data` signal: read the transmitting sender's id
    /// and the carried bytes out of the payload, check that the bytes are
    /// themselves a well-formed keyed map, append the pair to the
    /// receiver's delivery log, and hand the handler the newest log entry —
    /// so the bytes it sees are exactly the logged ones the contract fixes.
    /// A dropped handler is silently skipped.
    pub fn dispatch_data(&mut self, data: &Vec<u8>) -> (r: Result<(), NodeError>)
        ensures
            final(self).handler_present() == old(self).handler_present(),
            final(self).spec_core().spatial == old(self).spec_core().spatial,
            r is Ok <==> flex_map_vectors_bounded(data@) && (pulse_data_fields(data@) matches
                Some(p) && flex_root_is_map(p.1)),
            match r {
                Ok(()) => pulse_data_fields(data@) matches Some(p) ==> {
                    &&& final(self).spec_core().received@.len() == old(
                        self,
                    ).spec_core().received@.len() + 1
                    &&& final(self).spec_core().received@.drop_last() == old(
                        self,
                    ).spec_core().received@
                    &&& final(self).spec_core().received@.last().uid@ == p.0
                    &&& final(self).spec_core().received@.last().data@ == p.1
                },
                Err(e) => e == NodeError::MapInvalid && final(self).spec_core() == old(
                    self,
                ).spec_core(),
            },
    {
        if !flex_map_in_bounds(data) {
            return Err(NodeError::MapInvalid);
        }
        let parsed = match flex_pulse_fields(data) {
            Some(p) => p,
            None => {
                return Err(NodeError::MapInvalid);
            },
        };
        let (uid, inner) = parsed;
        if !flex_check_map(&inner) {
            return Err(NodeError::MapInvalid);
        }
        self.core.received.push(ReceivedPulse { uid, data: inner });
        proof {
            assert(self.core.received@.drop_last() =~= old(self).core.received@);
        }
        match &mut self.handler {
            Some(h) => {
                let n: usize = self.core.received.len();
                let newest: &ReceivedPulse = &self.core.received[n - 1];
                h.data(newest.uid.as_str(), &newest.data);
            },
            None => {},
        }
        Ok(())
    }
}

} // verus!
