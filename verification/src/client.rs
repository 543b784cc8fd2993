//! The owner of one connection's object graph: a messenger, the scenegraph
//! registry, and the root node at path `/`.

use vstd::prelude::*;
use vstd::string::*;

use crate::messenger::Messenger;
use crate::node::Node;
use crate::scenegraph::Scenegraph;

verus! {

/// One connection's full client state.  The surrounding runtime owns the
/// transport and drives this state: it writes the frames the messenger
/// records, feeds inbound frames into the scenegraph and messenger, and
/// drains the scenegraph's invocation queue into user callbacks.
pub struct Client {
    pub messenger: Messenger,
    pub scenegraph: Scenegraph,
    pub root: Node,
}

impl Client {
    /// The path of the root node: always `/`.
    pub open spec fn root_path(&self) -> Seq<char> {
        self.root@
    }

    pub open spec fn wf(&self) -> bool {
        &&& self.messenger.wf()
        &&& self.scenegraph.wf()
        &&& self.root_path() == seq!['/']
    }

    /// A freshly connected client: empty registry but for the root node,
    /// nothing sent, no calls pending.
    pub fn connect() -> (r: Client)
        ensures
            r.wf(),
            r.messenger.is_alive(),
            r.messenger.transport_writable(),
            r.messenger.sent() == Seq::<crate::messenger::Frame>::empty(),
            r.messenger.pending_calls() == Seq::<u64>::empty(),
            r.messenger.next_cid() == 0,
            r.scenegraph.has_node(seq!['/']),
            r.scenegraph.queued() == Seq::<crate::scenegraph::Invocation>::empty(),
            forall|m: Seq<char>| !r.scenegraph.node_has_signal(seq!['/'], m),
            forall|m: Seq<char>| !r.scenegraph.node_has_method(seq!['/'], m),
            forall|p: Seq<char>| p != seq!['/'] ==> !r.scenegraph.has_node(p),
    {
        proof {
            reveal_strlit("/");
            assert("/"@ =~= seq!['/']);
        }
        let root = Node::raw_from_parts(String::from_str("/"), 0);
        let mut scenegraph = Scenegraph::new();
        scenegraph.add_node(&root);
        Client { messenger: Messenger::new(), scenegraph, root }
    }

    /// The root node, the anchor every top-level object hangs under.
    pub fn get_root(&self) -> (r: &Node)
        ensures
            r@ == self.root_path(),
    {
        &self.root
    }
}

} // verus!
