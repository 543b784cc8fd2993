//! Node proxies and the absolute-path logic they are addressed by.

use vstd::prelude::*;
use vstd::string::*;

use crate::client::Client;
use crate::messenger::Messenger;
use crate::scenegraph::Scenegraph;

verus! {

/// Everything that can go wrong when constructing or using a node proxy.
#[derive(Clone, Copy, Debug, PartialEq, Eq, Structural)]
pub enum NodeError {
    /// The server rejected the creation call for this node.
    ServerCreationFailed,
    /// The messenger behind this node has already been released.
    InvalidMessenger,
    /// The transport refused the outbound write.
    MessengerWrite,
    /// The path is not absolute (no leading `/`) or has no separator.
    InvalidPath,
    /// No node is registered at the addressed path.
    NodeNotFound,
    /// The addressed node has no callback under that name.
    MethodNotFound,
    /// A payload that must be a well-formed keyed map is not one.
    MapInvalid,
}

/// An absolute path: non-empty and starting with `/`.
pub open spec fn is_absolute(p: Seq<char>) -> bool {
    p.len() > 0 && p[0] == '/'
}

/// Index of the last `/` in `p`, or -1 if there is none.
pub open spec fn last_slash_index(p: Seq<char>) -> int
    decreases p.len(),
{
    if p.len() == 0 {
        -1
    } else if p[p.len() - 1] == '/' {
        p.len() - 1
    } else {
        last_slash_index(p.drop_last())
    }
}

/// The trailing name segment of a path: everything after the final `/`.
pub open spec fn path_name(p: Seq<char>) -> Seq<char> {
    p.subrange(last_slash_index(p) + 1, p.len() as int)
}

/// The path of a child named `id` under `parent`: a `/` is inserted unless
/// `parent` already ends with one.
pub open spec fn child_path(parent: Seq<char>, id: Seq<char>) -> Seq<char> {
    if parent.len() > 0 && parent[parent.len() - 1] == '/' {
        parent + id
    } else {
        parent + seq!['/'] + id
    }
}

/// A sequence of characters that contains no `/`, as generated ids must.
pub open spec fn slash_free(s: Seq<char>) -> bool {
    forall|j: int| 0 <= j < s.len() ==> s[j] != '/'
}

/// The last-slash index is always a position in the path or -1.
pub proof fn lemma_last_slash_index_range(p: Seq<char>)
    ensures
        -1 <= last_slash_index(p) < p.len(),
    decreases p.len(),
{
    if p.len() > 0 && p[p.len() - 1] != '/' {
        lemma_last_slash_index_range(p.drop_last());
    }
}

/// Characters strictly after the last `/` are never `/` themselves.
pub proof fn lemma_no_slash_after(p: Seq<char>)
    ensures
        forall|j: int| last_slash_index(p) < j < p.len() ==> p[j] != '/',
    decreases p.len(),
{
    if p.len() == 0 {
    } else if p[p.len() - 1] == '/' {
    } else {
        lemma_no_slash_after(p.drop_last());
        lemma_last_slash_index_range(p.drop_last());
        assert forall|j: int| last_slash_index(p) < j < p.len() implies p[j] != '/' by {
            if j < p.len() - 1 {
                assert(p.drop_last()[j] == p[j]);
            }
        }
    }
}

/// A non-negative last-slash index is a real position holding `/`.
pub proof fn lemma_last_slash_is_slash(p: Seq<char>)
    requires
        last_slash_index(p) >= 0,
    ensures
        last_slash_index(p) < p.len(),
        p[last_slash_index(p)] == '/',
    decreases p.len(),
{
    if p.len() > 0 && p[p.len() - 1] != '/' {
        lemma_last_slash_is_slash(p.drop_last());
        assert(p[last_slash_index(p.drop_last())] == p.drop_last()[last_slash_index(
            p.drop_last(),
        )]);
    }
}

/// An absolute path always has a `/`, so its last-slash index is a real
/// position holding `/`.
pub proof fn lemma_abs_last_slash(p: Seq<char>)
    requires
        is_absolute(p),
    ensures
        0 <= last_slash_index(p) < p.len(),
        p[last_slash_index(p)] == '/',
    decreases p.len(),
{
    if p[p.len() - 1] == '/' {
    } else {
        assert(p.len() >= 2);
        assert(p.drop_last()[0] == p[0]);
        lemma_abs_last_slash(p.drop_last());
        assert(p[last_slash_index(p.drop_last())] == p.drop_last()[last_slash_index(p.drop_last())]);
    }
}

/// If no character at or after position `i` is a `/`, the last `/` of `p`
/// is the last `/` of its first `i` characters.
pub proof fn lemma_last_slash_skip(p: Seq<char>, i: int)
    requires
        0 <= i <= p.len(),
        forall|j: int| i <= j < p.len() ==> p[j] != '/',
    ensures
        last_slash_index(p) == last_slash_index(p.take(i)),
    decreases p.len(),
{
    if p.len() == i {
        assert(p.take(i) =~= p);
    } else {
        assert(p[p.len() - 1] != '/');
        assert(p.drop_last() =~= p.take(p.len() - 1));
        assert forall|j: int| i <= j < p.take(p.len() - 1).len() implies #[trigger] p.take(
            p.len() - 1,
        )[j] != '/' by {
            assert(p.take(p.len() - 1)[j] == p[j]);
        }
        lemma_last_slash_skip(p.take(p.len() - 1), i);
        assert(p.take(p.len() - 1).take(i) =~= p.take(i));
    }
}

/// Appending a child id to an absolute parent gives an absolute path whose
/// trailing name segment is exactly that id.
pub proof fn lemma_child_path_props(parent: Seq<char>, id: Seq<char>)
    requires
        is_absolute(parent),
        slash_free(id),
    ensures
        is_absolute(child_path(parent, id)),
        path_name(child_path(parent, id)) == id,
        last_slash_index(child_path(parent, id)) == if parent[parent.len() - 1] == '/' {
            parent.len() - 1
        } else {
            parent.len() as int
        },
{
    let cp = child_path(parent, id);
    if parent[parent.len() - 1] == '/' {
        assert(cp == parent + id);
        assert(cp[0] == parent[0]);
        lemma_last_slash_skip(cp, parent.len() as int);
        assert(cp.take(parent.len() as int) =~= parent);
        assert(last_slash_index(parent) == parent.len() - 1);
        assert(cp.subrange(parent.len() as int, cp.len() as int) =~= id);
    } else {
        assert(cp == parent + seq!['/'] + id);
        assert(cp[0] == parent[0]);
        lemma_last_slash_skip(cp, parent.len() as int + 1);
        assert(cp.take(parent.len() as int + 1) =~= parent + seq!['/']);
        assert((parent + seq!['/'])[parent.len() as int] == '/');
        assert(last_slash_index(parent + seq!['/']) == parent.len() as int);
        assert(cp.subrange(parent.len() as int + 1, cp.len() as int) =~= id);
    }
}

/// Two distinct slash-free ids give two distinct sibling paths under the
/// same parent: generated children can never collide by name.
pub proof fn lemma_sibling_paths_distinct(parent: Seq<char>, a: Seq<char>, b: Seq<char>)
    requires
        is_absolute(parent),
        slash_free(a),
        slash_free(b),
        a != b,
    ensures
        child_path(parent, a) != child_path(parent, b),
{
    lemma_child_path_props(parent, a);
    lemma_child_path_props(parent, b);
    if child_path(parent, a) == child_path(parent, b) {
        assert(path_name(child_path(parent, a)) == path_name(child_path(parent, b)));
        assert(a == b);
    }
}

/// Character-for-character string comparison.
pub fn str_eq(a: &str, b: &str) -> (r: bool)
    ensures
        r == (a@ == b@),
{
    let na: usize = a.unicode_len();
    let nb: usize = b.unicode_len();
    if na != nb {
        proof {
            if a@ == b@ {
                assert(a@.len() == b@.len());
            }
        }
        return false;
    }
    let mut i: usize = 0;
    while i < na
        invariant
            i <= na,
            na == a@.len(),
            nb == b@.len(),
            na == nb,
            forall|j: int| 0 <= j < i ==> a@[j] == b@[j],
        decreases na - i,
    {
        if a.get_char(i) != b.get_char(i) {
            return false;
        }
        i = i + 1;
    }
    proof {
        assert(a@ =~= b@);
    }
    true
}

/// Whether `path` is non-empty and starts with `/`.
pub fn check_absolute(path: &str) -> (r: bool)
    ensures
        r == is_absolute(path@),
{
    let n: usize = path.unicode_len();
    if n == 0 {
        false
    } else {
        path.get_char(0) == '/'
    }
}

/// Position of the last `/` in `path`, if any.
pub fn rfind_slash(path: &str) -> (r: Option<usize>)
    ensures
        match r {
            Some(i) => i as int == last_slash_index(path@),
            None => last_slash_index(path@) == -1,
        },
{
    let n: usize = path.unicode_len();
    let mut i: usize = n;
    while i > 0
        invariant
            i <= n,
            n == path@.len(),
            forall|j: int| i <= j < n ==> path@[j] != '/',
        decreases i,
    {
        if path.get_char(i - 1) == '/' {
            proof {
                lemma_last_slash_skip(path@, i as int);
                assert(path@.take(i as int)[i - 1] == '/');
            }
            return Some(i - 1);
        }
        i = i - 1;
    }
    proof {
        lemma_last_slash_skip(path@, 0);
    }
    None
}

/// A local proxy for one server-side object, addressed by an absolute path.
/// The position of the final `/` is cached at construction.
#[derive(Debug)]
pub struct Node {
    path: String,
    trailing_slash_pos: usize,
}

impl View for Node {
    type V = Seq<char>;

    closed spec fn view(&self) -> Seq<char> {
        self.path@
    }
}

impl Node {
    #[verifier::type_invariant]
    spec fn inv(&self) -> bool {
        is_absolute(self@) && self.trailing_slash_pos as int == last_slash_index(self@)
    }

    /// The trailing name segment: exactly the substring after the final `/`.
    pub fn get_name(&self) -> (r: &str)
        ensures
            r@ == path_name(self@),
            is_absolute(self@),
    {
        proof {
            use_type_invariant(self);
            lemma_abs_last_slash(self@);
        }
        let n: usize = self.path.as_str().unicode_len();
        self.path.as_str().substring_char(self.trailing_slash_pos + 1, n)
    }

    /// The full path of this node, unchanged since construction.
    pub fn get_path(&self) -> (r: &str)
        ensures
            r@ == self@,
            is_absolute(self@),
    {
        proof {
            use_type_invariant(self);
        }
        self.path.as_str()
    }

    pub(crate) fn raw_from_parts(path: String, trailing_slash_pos: usize) -> (r: Node)
        requires
            is_absolute(path@),
            trailing_slash_pos as int == last_slash_index(path@),
        ensures
            r@ == path@,
    {
        Node { path, trailing_slash_pos }
    }

    /// A proxy for an object whose path is already known (for example a
    /// remote-side child reported by the server): registers it without
    /// issuing a creation call.  Rejects paths without a leading `/`.
    pub fn from_path(client: &mut Client, path: &str) -> (r: Result<Node, NodeError>)
        requires
            old(client).wf(),
        ensures
            final(client).wf(),
            final(client).messenger == old(client).messenger,
            final(client).root_path() == old(client).root_path(),
            r is Ok <==> is_absolute(path@),
            match r {
                Ok(node) => {
                    &&& node@ == path@
                    &&& final(client).scenegraph.has_node(path@)
                    &&& forall|m: Seq<char>| !final(client).scenegraph.node_has_signal(path@, m)
                    &&& forall|m: Seq<char>| !final(client).scenegraph.node_has_method(path@, m)
                    &&& final(client).scenegraph.same_nodes_except(old(client).scenegraph, path@)
                    &&& final(client).scenegraph.queued() == old(client).scenegraph.queued()
                },
                Err(e) => e == NodeError::InvalidPath && *final(client) == *old(client),
            },
    {
        if !check_absolute(path) {
            return Err(NodeError::InvalidPath);
        }
        let pos = match rfind_slash(path) {
            Some(i) => i,
            None => {
                proof {
                    lemma_abs_last_slash(path@);
                }
                return Err(NodeError::InvalidPath);
            },
        };
        let node = Node::raw_from_parts(String::from_str(path), pos);
        client.scenegraph.add_node(&node);
        Ok(node)
    }

    /// A proxy for a fresh child of `parent`, named by a newly generated
    /// ten-character id: registers it without issuing a creation call and
    /// returns the id.  Rejects parents without a leading `/`.
    pub fn generate_with_parent(client: &mut Client, parent: &str) -> (r: Result<
        (Node, String),
        NodeError,
    >)
        requires
            old(client).wf(),
        ensures
            final(client).wf(),
            final(client).messenger == old(client).messenger,
            final(client).root_path() == old(client).root_path(),
            r is Ok <==> is_absolute(parent@),
            match r {
                Ok((node, id)) => {
                    &&& id@.len() == 10
                    &&& slash_free(id@)
                    &&& node@ == child_path(parent@, id@)
                    &&& path_name(node@) == id@
                    &&& final(client).scenegraph.has_node(node@)
                    &&& forall|m: Seq<char>| !final(client).scenegraph.node_has_signal(node@, m)
                    &&& forall|m: Seq<char>| !final(client).scenegraph.node_has_method(node@, m)
                    &&& final(client).scenegraph.same_nodes_except(old(client).scenegraph, node@)
                    &&& final(client).scenegraph.queued() == old(client).scenegraph.queued()
                },
                Err(e) => e == NodeError::InvalidPath && *final(client) == *old(client),
            },
    {
        if !check_absolute(parent) {
            return Err(NodeError::InvalidPath);
        }
        let id = crate::ids::generate_id(10);
        let node = Node::build_child(parent, id.as_str());
        client.scenegraph.add_node(&node);
        Ok((node, id))
    }

    /// The proxy for a child named `id` under `parent`, path-cached and
    /// ready to register.
    fn build_child(parent: &str, id: &str) -> (r: Node)
        requires
            is_absolute(parent@),
            slash_free(id@),
        ensures
            r@ == child_path(parent@, id@),
            path_name(r@) == id@,
    {
        proof {
            lemma_child_path_props(parent@, id@);
        }
        let n: usize = parent.unicode_len();
        let mut path = String::from_str(parent);
        let pos: usize;
        if parent.get_char(n - 1) == '/' {
            pos = n - 1;
        } else {
            path.append("/");
            pos = n;
        }
        path.append(id);
        proof {
            reveal_strlit("/");
            assert("/"@ =~= seq!['/']);
            assert(path@ == child_path(parent@, id@));
        }
        Node::raw_from_parts(path, pos)
    }

    /// Create the proxy for a new server-side object: hand the creation call
    /// (a method call when `awaits_reply`, a fire-and-forget signal
    /// otherwise) addressed at `parent` to the messenger — carrying the
    /// generated id, the caller-encoded `args`, and, where the object
    /// declares them, its interest `mask` and attached-field reference —
    /// then register the node at `child_prefix`/`id`.  Nothing changes when
    /// the messenger cannot carry the call.
    pub fn new(
        client: &mut Client,
        parent: &str,
        creation_method: &str,
        child_prefix: &str,
        awaits_reply: bool,
        id: &str,
        args: Vec<u8>,
        mask: Option<Vec<u8>>,
        field_ref: Option<String>,
    ) -> (r: Result<Node, NodeError>)
        requires
            old(client).wf(),
            old(client).messenger.next_cid() < u64::MAX,
        ensures
            final(client).wf(),
            final(client).root_path() == old(client).root_path(),
            final(client).messenger.is_alive() == old(client).messenger.is_alive(),
            final(client).messenger.transport_writable() == old(
                client,
            ).messenger.transport_writable(),
            r is Ok <==> is_absolute(child_prefix@) && slash_free(id@) && old(
                client,
            ).messenger.can_send(),
            match r {
                Ok(node) => {
                    &&& node@ == child_path(child_prefix@, id@)
                    &&& path_name(node@) == id@
                    &&& final(client).scenegraph.has_node(node@)
                    &&& forall|m: Seq<char>| !final(client).scenegraph.node_has_signal(node@, m)
                    &&& forall|m: Seq<char>| !final(client).scenegraph.node_has_method(node@, m)
                    &&& final(client).scenegraph.same_nodes_except(old(client).scenegraph, node@)
                    &&& final(client).scenegraph.queued() == old(client).scenegraph.queued()
                    &&& final(client).messenger.sent().len() == old(client).messenger.sent().len()
                        + 1
                    &&& final(client).messenger.sent().drop_last() == old(client).messenger.sent()
                    &&& final(client).messenger.sent().last().path@ == parent@
                    &&& final(client).messenger.sent().last().method@ == creation_method@
                    &&& crate::messenger::is_creation(
                        final(client).messenger.sent().last().payload,
                        id@,
                        args@,
                        crate::messenger::opt_bytes_view(mask),
                        crate::messenger::opt_str_view(field_ref),
                    )
                    &&& if awaits_reply {
                        &&& final(client).messenger.sent().last().correlation == Some(
                            old(client).messenger.next_cid(),
                        )
                        &&& final(client).messenger.next_cid() == old(client).messenger.next_cid()
                            + 1
                        &&& final(client).messenger.pending_calls() == old(
                            client,
                        ).messenger.pending_calls().push(old(client).messenger.next_cid())
                    } else {
                        &&& final(client).messenger.sent().last().correlation == None::<u64>
                        &&& final(client).messenger.same_call_state(old(client).messenger)
                    }
                },
                Err(e) => {
                    &&& final(client).scenegraph == old(client).scenegraph
                    &&& final(client).root == old(client).root
                    &&& final(client).messenger.sent() == old(client).messenger.sent()
                    &&& final(client).messenger.same_call_state(old(client).messenger)
                    &&& (e == NodeError::InvalidPath <==> !(is_absolute(child_prefix@)
                        && slash_free(id@)))
                    &&& (e == NodeError::InvalidMessenger <==> is_absolute(child_prefix@)
                        && slash_free(id@) && !old(client).messenger.is_alive())
                    &&& (e == NodeError::MessengerWrite <==> is_absolute(child_prefix@)
                        && slash_free(id@) && old(client).messenger.is_alive() && !old(
                        client,
                    ).messenger.transport_writable())
                },
            },
    {
        if !check_absolute(child_prefix) {
            return Err(NodeError::InvalidPath);
        }
        if let Some(_) = rfind_slash(id) {
            proof {
                lemma_last_slash_is_slash(id@);
            }
            return Err(NodeError::InvalidPath);
        }
        proof {
            lemma_no_slash_after(id@);
        }
        let payload = crate::messenger::Payload::Creation {
            id: String::from_str(id),
            args,
            mask,
            field: field_ref,
        };
        if awaits_reply {
            match client.messenger.execute_remote_method(parent, creation_method, payload) {
                Ok(_) => {},
                Err(e) => {
                    return Err(e);
                },
            }
        } else {
            match client.messenger.send_remote_signal(parent, creation_method, payload) {
                Ok(_) => {},
                Err(e) => {
                    return Err(e);
                },
            }
        }
        let node = Node::build_child(child_prefix, id);
        client.scenegraph.add_node(&node);
        Ok(node)
    }

    /// Outbound signal addressed at this node's path, carrying `data`.
    pub fn send_remote_signal(&self, messenger: &mut Messenger, method: &str, data: Vec<u8>) -> (r:
        Result<(), NodeError>)
        requires
            old(messenger).wf(),
        ensures
            final(messenger).wf(),
            final(messenger).same_call_state(*old(messenger)),
            r is Ok <==> old(messenger).can_send(),
            match r {
                Ok(()) => {
                    &&& final(messenger).sent().len() == old(messenger).sent().len() + 1
                    &&& final(messenger).sent().drop_last() == old(messenger).sent()
                    &&& final(messenger).sent().last().path@ == self@
                    &&& final(messenger).sent().last().method@ == method@
                    &&& crate::messenger::is_raw(final(messenger).sent().last().payload, data@)
                    &&& final(messenger).sent().last().correlation == None::<u64>
                },
                Err(e) => {
                    &&& final(messenger).sent() == old(messenger).sent()
                    &&& (e == NodeError::InvalidMessenger <==> !old(messenger).is_alive())
                    &&& (e == NodeError::MessengerWrite <==> old(messenger).is_alive() && !old(
                        messenger,
                    ).transport_writable())
                },
            },
    {
        messenger.send_remote_signal(
            self.get_path(),
            method,
            crate::messenger::Payload::Raw(data),
        )
    }

    /// Outbound method call addressed at this node's path.  Returns the
    /// correlation id whose response will resolve the call.
    pub fn execute_remote_method(&self, messenger: &mut Messenger, method: &str, data: Vec<u8>) -> (
    r: Result<u64, NodeError>)
        requires
            old(messenger).wf(),
            old(messenger).next_cid() < u64::MAX,
        ensures
            final(messenger).wf(),
            final(messenger).is_alive() == old(messenger).is_alive(),
            final(messenger).transport_writable() == old(messenger).transport_writable(),
            r is Ok <==> old(messenger).can_send(),
            match r {
                Ok(cid) => {
                    &&& cid == old(messenger).next_cid()
                    &&& final(messenger).next_cid() == old(messenger).next_cid() + 1
                    &&& final(messenger).pending_calls() == old(messenger).pending_calls().push(
                        cid,
                    )
                    &&& final(messenger).sent().len() == old(messenger).sent().len() + 1
                    &&& final(messenger).sent().drop_last() == old(messenger).sent()
                    &&& final(messenger).sent().last().path@ == self@
                    &&& final(messenger).sent().last().method@ == method@
                    &&& crate::messenger::is_raw(final(messenger).sent().last().payload, data@)
                    &&& final(messenger).sent().last().correlation == Some(cid)
                },
                Err(e) => {
                    &&& *final(messenger) == *old(messenger)
                    &&& (e == NodeError::InvalidMessenger <==> !old(messenger).is_alive())
                    &&& (e == NodeError::MessengerWrite <==> old(messenger).is_alive() && !old(
                        messenger,
                    ).transport_writable())
                },
            },
    {
        messenger.execute_remote_method(
            self.get_path(),
            method,
            crate::messenger::Payload::Raw(data),
        )
    }

    /// Outbound signal asking the server to enable or disable this object.
    pub fn set_enabled(&self, messenger: &mut Messenger, enabled: bool) -> (r: Result<
        (),
        NodeError,
    >)
        requires
            old(messenger).wf(),
        ensures
            final(messenger).wf(),
            final(messenger).same_call_state(*old(messenger)),
            r is Ok <==> old(messenger).can_send(),
            match r {
                Ok(()) => {
                    &&& final(messenger).sent().len() == old(messenger).sent().len() + 1
                    &&& final(messenger).sent().drop_last() == old(messenger).sent()
                    &&& final(messenger).sent().last().path@ == self@
                    &&& final(messenger).sent().last().method@ == "setEnabled"@
                    &&& crate::messenger::is_raw(
                        final(messenger).sent().last().payload,
                        crate::flex::flex_singleton_bool(enabled),
                    )
                    &&& final(messenger).sent().last().correlation == None::<u64>
                },
                Err(e) => {
                    &&& final(messenger).sent() == old(messenger).sent()
                    &&& (e == NodeError::InvalidMessenger <==> !old(messenger).is_alive())
                    &&& (e == NodeError::MessengerWrite <==> old(messenger).is_alive() && !old(
                        messenger,
                    ).transport_writable())
                },
            },
    {
        let encoded = crate::flex::flex_encode_bool(enabled);
        self.send_remote_signal(messenger, "setEnabled", encoded)
    }

    /// Register a named inbound signal callback on this node.  Fails with
    /// `NodeNotFound` if the node is no longer registered.
    pub fn add_local_signal(&self, scenegraph: &mut Scenegraph, name: &str) -> (r: Result<
        (),
        NodeError,
    >)
        requires
            old(scenegraph).wf(),
        ensures
            final(scenegraph).wf(),
            final(scenegraph).queued() == old(scenegraph).queued(),
            r is Ok <==> old(scenegraph).has_node(self@),
            match r {
                Ok(()) => {
                    &&& final(scenegraph).node_has_signal(self@, name@)
                    &&& final(scenegraph).same_nodes_except(*old(scenegraph), self@)
                    &&& forall|m: Seq<char>|
                        m != name@ ==> ((#[trigger] final(scenegraph).node_has_signal(self@, m))
                            <==> old(scenegraph).node_has_signal(self@, m))
                    &&& forall|m: Seq<char>|
                        (#[trigger] final(scenegraph).node_has_method(self@, m)) <==> old(
                            scenegraph,
                        ).node_has_method(self@, m)
                },
                Err(e) => e == NodeError::NodeNotFound && *final(scenegraph) == *old(scenegraph),
            },
    {
        if scenegraph.register_signal(self.get_path(), name) {
            Ok(())
        } else {
            Err(NodeError::NodeNotFound)
        }
    }

    /// Register a named inbound method callback on this node.
    pub fn add_local_method(&self, scenegraph: &mut Scenegraph, name: &str) -> (r: Result<
        (),
        NodeError,
    >)
        requires
            old(scenegraph).wf(),
        ensures
            final(scenegraph).wf(),
            final(scenegraph).queued() == old(scenegraph).queued(),
            r is Ok <==> old(scenegraph).has_node(self@),
            match r {
                Ok(()) => {
                    &&& final(scenegraph).node_has_method(self@, name@)
                    &&& final(scenegraph).same_nodes_except(*old(scenegraph), self@)
                    &&& forall|m: Seq<char>|
                        m != name@ ==> ((#[trigger] final(scenegraph).node_has_method(self@, m))
                            <==> old(scenegraph).node_has_method(self@, m))
                    &&& forall|m: Seq<char>|
                        (#[trigger] final(scenegraph).node_has_signal(self@, m)) <==> old(
                            scenegraph,
                        ).node_has_signal(self@, m)
                },
                Err(e) => e == NodeError::NodeNotFound && *final(scenegraph) == *old(scenegraph),
            },
    {
        if scenegraph.register_method(self.get_path(), name) {
            Ok(())
        } else {
            Err(NodeError::NodeNotFound)
        }
    }

    /// Inbound dispatch of a signal to this node: queue the named callback's
    /// invocation with exactly the payload bytes received.  Fails with
    /// `MethodNotFound` if no signal callback has that name.
    pub fn send_local_signal(&self, scenegraph: &mut Scenegraph, method: &str, data: Vec<u8>) -> (r:
        Result<(), NodeError>)
        requires
            old(scenegraph).wf(),
        ensures
            final(scenegraph).wf(),
            final(scenegraph).registry() == old(scenegraph).registry(),
            r is Ok <==> old(scenegraph).node_has_signal(self@, method@),
            match r {
                Ok(()) => final(scenegraph).delivered_one(
                    *old(scenegraph),
                    self@,
                    method@,
                    data@,
                    false,
                ),
                Err(e) => {
                    &&& final(scenegraph).queued() == old(scenegraph).queued()
                    &&& (e == NodeError::NodeNotFound <==> !old(scenegraph).has_node(self@))
                    &&& (e == NodeError::MethodNotFound <==> old(scenegraph).has_node(self@)
                        && !old(scenegraph).node_has_signal(self@, method@))
                },
            },
    {
        match scenegraph.send_signal(self.get_path(), method, data) {
            Ok(()) => Ok(()),
            Err(crate::scenegraph::ScenegraphError::NodeNotFound) => Err(NodeError::NodeNotFound),
            Err(crate::scenegraph::ScenegraphError::MethodNotFound) => Err(
                NodeError::MethodNotFound,
            ),
        }
    }

    /// Inbound dispatch of a method call to this node: queue the named
    /// callback's invocation; the runtime that drains the queue produces the
    /// reply.  Fails with `MethodNotFound` if no method callback has that
    /// name.
    pub fn execute_local_method(
        &self,
        scenegraph: &mut Scenegraph,
        method: &str,
        data: Vec<u8>,
    ) -> (r: Result<(), NodeError>)
        requires
            old(scenegraph).wf(),
        ensures
            final(scenegraph).wf(),
            final(scenegraph).registry() == old(scenegraph).registry(),
            r is Ok <==> old(scenegraph).node_has_method(self@, method@),
            match r {
                Ok(()) => final(scenegraph).delivered_one(
                    *old(scenegraph),
                    self@,
                    method@,
                    data@,
                    true,
                ),
                Err(e) => {
                    &&& final(scenegraph).queued() == old(scenegraph).queued()
                    &&& (e == NodeError::NodeNotFound <==> !old(scenegraph).has_node(self@))
                    &&& (e == NodeError::MethodNotFound <==> old(scenegraph).has_node(self@)
                        && !old(scenegraph).node_has_method(self@, method@))
                },
            },
    {
        match scenegraph.execute_method(self.get_path(), method, data) {
            Ok(()) => Ok(()),
            Err(crate::scenegraph::ScenegraphError::NodeNotFound) => Err(NodeError::NodeNotFound),
            Err(crate::scenegraph::ScenegraphError::MethodNotFound) => Err(
                NodeError::MethodNotFound,
            ),
        }
    }

    /// Tear this node down: unconditionally hand one `destroy` signal with
    /// an empty payload to the messenger — exactly once, since teardown
    /// consumes the node — swallowing any failure, and drop the node's
    /// registration so no stale entry collides with a future object at the
    /// same path.
    pub fn destroy(self, client: &mut Client)
        requires
            old(client).wf(),
        ensures
            final(client).wf(),
            final(client).root_path() == old(client).root_path(),
            final(client).messenger.same_call_state(old(client).messenger),
            old(client).messenger.can_send() ==> {
                &&& final(client).messenger.sent().len() == old(client).messenger.sent().len() + 1
                &&& final(client).messenger.sent().drop_last() == old(client).messenger.sent()
                &&& final(client).messenger.sent().last().path@ == self@
                &&& final(client).messenger.sent().last().method@ == "destroy"@
                &&& crate::messenger::is_raw(
                    final(client).messenger.sent().last().payload,
                    Seq::<u8>::empty(),
                )
                &&& final(client).messenger.sent().last().correlation == None::<u64>
            },
            !old(client).messenger.can_send() ==> final(client).messenger.sent() == old(
                client,
            ).messenger.sent(),
            !final(client).scenegraph.has_node(self@),
            final(client).scenegraph.same_nodes_except(old(client).scenegraph, self@),
            final(client).scenegraph.queued() == old(client).scenegraph.queued(),
    {
        let empty: Vec<u8> = Vec::new();
        let _ = self.send_remote_signal(&mut client.messenger, "destroy", empty);
        client.scenegraph.remove_node(&self);
    }

    /// Settle an awaited creation call from the server's response: on
    /// acceptance the node is handed back unchanged; on rejection it is torn
    /// down and the creation fails with `ServerCreationFailed`.
    pub fn confirm_creation(self, client: &mut Client, accepted: bool) -> (r: Result<
        Node,
        NodeError,
    >)
        requires
            old(client).wf(),
        ensures
            final(client).wf(),
            final(client).root_path() == old(client).root_path(),
            match r {
                Ok(node) => accepted && node@ == self@ && *final(client) == *old(client),
                Err(e) => {
                    &&& !accepted
                    &&& e == NodeError::ServerCreationFailed
                    &&& !final(client).scenegraph.has_node(self@)
                    &&& final(client).scenegraph.same_nodes_except(old(client).scenegraph, self@)
                    &&& final(client).scenegraph.queued() == old(client).scenegraph.queued()
                },
            },
    {
        if accepted {
            Ok(self)
        } else {
            self.destroy(client);
            Err(NodeError::ServerCreationFailed)
        }
    }
}

} // verus!
