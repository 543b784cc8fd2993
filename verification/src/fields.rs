//! Geometric query volumes: the sphere field, the example domain object
//! built on the core.

use vstd::prelude::*;
use vstd::string::*;

use crate::client::Client;
use crate::ids::generate_id;
use crate::messenger::{is_creation, is_raw, Messenger};
use crate::node::{child_path, path_name, Node, NodeError};
use crate::spatial::{NodeType, Spatial};

verus! {

/// A sphere-shaped query volume.  Its radius lives on the server; distance
/// queries go through `execute_remote_method` on its node.
pub struct SphereField {
    pub spatial: Spatial,
}

impl NodeType for SphereField {
    fn node(&self) -> &Node {
        &self.spatial.node
    }
}

impl SphereField {
    /// Create a sphere field, its constructor arguments — parent, position,
    /// radius — already encoded in `args`.  The creation call is awaited:
    /// settle it with `confirm_creation` on the node when the response
    /// arrives.
    pub fn create(client: &mut Client, args: Vec<u8>) -> (r: Result<SphereField, NodeError>)
        requires
            old(client).wf(),
            old(client).messenger.next_cid() < u64::MAX,
        ensures
            final(client).wf(),
            final(client).root_path() == old(client).root_path(),
            final(client).messenger.is_alive() == old(client).messenger.is_alive(),
            final(client).messenger.transport_writable() == old(
                client,
            ).messenger.transport_writable(),
            r is Ok <==> old(client).messenger.can_send(),
            match r {
                Ok(f) => {
                    &&& path_name(f.spatial.node@).len() == 21
                    &&& f.spatial.node@ == child_path("/field"@, path_name(f.spatial.node@))
                    &&& final(client).scenegraph.has_node(f.spatial.node@)
                    &&& final(client).scenegraph.same_nodes_except(
                        old(client).scenegraph,
                        f.spatial.node@,
                    )
                    &&& final(client).scenegraph.queued() == old(client).scenegraph.queued()
                    &&& final(client).messenger.sent().len() == old(client).messenger.sent().len()
                        + 1
                    &&& final(client).messenger.sent().drop_last() == old(client).messenger.sent()
                    &&& final(client).messenger.sent().last().path@ == "/field"@
                    &&& final(client).messenger.sent().last().method@ == "createSphereField"@
                    &&& is_creation(
                        final(client).messenger.sent().last().payload,
                        path_name(f.spatial.node@),
                        args@,
                        None::<Seq<u8>>,
                        None::<Seq<char>>,
                    )
                    &&& final(client).messenger.sent().last().correlation == Some(
                        old(client).messenger.next_cid(),
                    )
                    &&& final(client).messenger.next_cid() == old(client).messenger.next_cid() + 1
                },
                Err(e) => {
                    &&& final(client).scenegraph == old(client).scenegraph
                    &&& final(client).messenger.sent() == old(client).messenger.sent()
                    &&& final(client).messenger.same_call_state(old(client).messenger)
                    &&& (e == NodeError::InvalidMessenger <==> !old(client).messenger.is_alive())
                    &&& (e == NodeError::MessengerWrite <==> old(client).messenger.is_alive()
                        && !old(client).messenger.transport_writable())
                },
            },
    {
        proof {
            reveal_strlit("/field");
        }
        let id = generate_id(21);
        let node = match Node::new(
            client,
            "/field",
            "createSphereField",
            "/field",
            true,
            id.as_str(),
            args,
            None,
            None,
        ) {
            Ok(n) => n,
            Err(e) => {
                return Err(e);
            },
        };
        Ok(SphereField { spatial: Spatial { node } })
    }

    /// Ask the server to change the sphere's radius: a `setRadius` signal
    /// carrying the already-encoded radius.
    pub fn set_radius(&self, messenger: &mut Messenger, radius: Vec<u8>) -> (r: Result<
        (),
        NodeError,
    >)
        requires
            old(messenger).wf(),
        ensures
            final(messenger).wf(),
            final(messenger).same_call_state(*old(messenger)),
            r is Ok <==> old(messenger).can_send(),
            match r {
                Ok(()) => {
                    &&& final(messenger).sent().len() == old(messenger).sent().len() + 1
                    &&& final(messenger).sent().drop_last() == old(messenger).sent()
                    &&& final(messenger).sent().last().path@ == self.spatial.node@
                    &&& final(messenger).sent().last().method@ == "setRadius"@
                    &&& is_raw(final(messenger).sent().last().payload, radius@)
                    &&& final(messenger).sent().last().correlation == None::<u64>
                },
                Err(e) => {
                    &&& final(messenger).sent() == old(messenger).sent()
                    &&& (e == NodeError::InvalidMessenger <==> !old(messenger).is_alive())
                    &&& (e == NodeError::MessengerWrite <==> old(messenger).is_alive() && !old(
                        messenger,
                    ).transport_writable())
                },
            },
    {
        self.spatial.node.send_remote_signal(messenger, "setRadius", radius)
    }
}

} // verus!
