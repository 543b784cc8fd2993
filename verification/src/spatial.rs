//! The thinnest typed wrapper: an object that is nothing but a place in the
//! scene, plus the wrapper trait every typed object implements.

use vstd::prelude::*;

use crate::client::Client;
use crate::node::{is_absolute, Node, NodeError};

verus! {

/// Anything that owns exactly one core proxy node.
pub trait NodeType {
    fn node(&self) -> &Node;
}

/// A spatial object: one proxy node and nothing else.
pub struct Spatial {
    pub node: Node,
}

impl Spatial {
    /// A spatial proxy for an object whose path is already known, registered
    /// without a creation call.
    pub fn from_path(client: &mut Client, path: &str) -> (r: Result<Spatial, NodeError>)
        requires
            old(client).wf(),
        ensures
            final(client).wf(),
            final(client).messenger == old(client).messenger,
            final(client).root_path() == old(client).root_path(),
            r is Ok <==> is_absolute(path@),
            match r {
                Ok(s) => {
                    &&& s.node@ == path@
                    &&& final(client).scenegraph.has_node(path@)
                    &&& final(client).scenegraph.same_nodes_except(old(client).scenegraph, path@)
                    &&& final(client).scenegraph.queued() == old(client).scenegraph.queued()
                },
                Err(e) => e == NodeError::InvalidPath && *final(client) == *old(client),
            },
    {
        match Node::from_path(client, path) {
            Ok(node) => Ok(Spatial { node }),
            Err(e) => Err(e),
        }
    }
}

impl NodeType for Spatial {
    fn node(&self) -> &Node {
        &self.node
    }
}

/// A field reported by the server whose concrete shape this client does not
/// know: only its place in the scene is usable.
pub struct UnknownField {
    pub spatial: Spatial,
}

impl NodeType for UnknownField {
    fn node(&self) -> &Node {
        &self.spatial.node
    }
}

} // verus!
