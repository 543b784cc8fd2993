//! Core runtime behaviour: paths, the registry, routing, teardown, and
//! messenger correlation.

use stardust_fusion::client::Client;
use stardust_fusion::messenger::Payload;
use stardust_fusion::node::{Node, NodeError};
use stardust_fusion::scenegraph::ScenegraphError;

#[test]
fn name_is_after_last_slash() {
    let mut client = Client::connect();
    let node = Node::from_path(&mut client, "/a/b/c").unwrap();
    assert_eq!(node.get_name(), "c");
    assert_eq!(node.get_path(), "/a/b/c");
    // stable across uses
    assert_eq!(node.get_path(), "/a/b/c");
    assert_eq!(node.get_name(), "c");

    let root = Node::from_path(&mut client, "/").unwrap();
    assert_eq!(root.get_name(), "");
    assert_eq!(root.get_path(), "/");

    let deep = Node::from_path(&mut client, "/data/sender/xYz-9").unwrap();
    assert_eq!(deep.get_name(), "xYz-9");
}

#[test]
fn from_path_rejects_relative_paths() {
    let mut client = Client::connect();
    assert_eq!(
        Node::from_path(&mut client, "no-slash").unwrap_err(),
        NodeError::InvalidPath
    );
    assert_eq!(Node::from_path(&mut client, "").unwrap_err(), NodeError::InvalidPath);
}

#[test]
fn generated_sibling_paths_are_distinct() {
    let mut client = Client::connect();
    let mut paths: Vec<String> = Vec::new();
    let mut ids: Vec<String> = Vec::new();
    for _ in 0..64 {
        let (node, id) = Node::generate_with_parent(&mut client, "/parent").unwrap();
        assert_eq!(id.chars().count(), 10);
        assert!(!id.contains('/'));
        assert_eq!(node.get_name(), id.as_str());
        assert_eq!(node.get_path(), format!("/parent/{}", id).as_str());
        paths.push(node.get_path().to_string());
        ids.push(id);
    }
    for i in 0..paths.len() {
        for j in 0..i {
            assert_ne!(paths[i], paths[j]);
            assert_ne!(ids[i], ids[j]);
        }
    }
}

#[test]
fn generated_child_under_slash_terminated_parent() {
    let mut client = Client::connect();
    let (node, id) = Node::generate_with_parent(&mut client, "/a/").unwrap();
    assert_eq!(node.get_path(), format!("/a/{}", id).as_str());
    assert_eq!(node.get_name(), id.as_str());

    assert_eq!(
        Node::generate_with_parent(&mut client, "relative").unwrap_err(),
        NodeError::InvalidPath
    );
}

#[test]
fn dispatch_reaches_exactly_the_registered_callback() {
    let mut client = Client::connect();
    let node = Node::from_path(&mut client, "/x").unwrap();
    node.add_local_signal(&mut client.scenegraph, "ping").unwrap();
    node.add_local_method(&mut client.scenegraph, "ask").unwrap();

    let payload = vec![9u8, 8, 7, 6];
    client
        .scenegraph
        .send_signal("/x", "ping", payload.clone())
        .unwrap();
    let queued = client.scenegraph.take_queued();
    assert_eq!(queued.len(), 1);
    assert_eq!(queued[0].path, "/x");
    assert_eq!(queued[0].method, "ping");
    assert_eq!(queued[0].data, payload);
    assert!(!queued[0].is_method);

    // unknown method on a known path
    assert_eq!(
        client
            .scenegraph
            .send_signal("/x", "pong", vec![1])
            .unwrap_err(),
        ScenegraphError::MethodNotFound
    );
    // unknown path
    assert_eq!(
        client
            .scenegraph
            .send_signal("/nowhere", "ping", vec![1])
            .unwrap_err(),
        ScenegraphError::NodeNotFound
    );
    // method flavor
    client.scenegraph.execute_method("/x", "ask", vec![5]).unwrap();
    assert_eq!(
        client
            .scenegraph
            .execute_method("/x", "other", vec![5])
            .unwrap_err(),
        ScenegraphError::MethodNotFound
    );
    let queued = client.scenegraph.take_queued();
    assert_eq!(queued.len(), 1);
    assert!(queued[0].is_method);
    assert_eq!(queued[0].method, "ask");

    // the node's own dispatch surface maps the errors into its own kinds
    assert_eq!(
        node.send_local_signal(&mut client.scenegraph, "pong", vec![1])
            .unwrap_err(),
        NodeError::MethodNotFound
    );
    assert_eq!(
        node.execute_local_method(&mut client.scenegraph, "nope", vec![1])
            .unwrap_err(),
        NodeError::MethodNotFound
    );
    node.send_local_signal(&mut client.scenegraph, "ping", vec![2, 3])
        .unwrap();
    let queued = client.scenegraph.take_queued();
    assert_eq!(queued.len(), 1);
    assert_eq!(queued[0].data, vec![2u8, 3]);
}

#[test]
fn dropped_node_no_longer_resolves() {
    let mut client = Client::connect();
    let node = Node::from_path(&mut client, "/y").unwrap();
    assert!(client.scenegraph.get_node("/y"));
    node.destroy(&mut client);
    assert!(!client.scenegraph.get_node("/y"));
    // dispatch to the dead path is a recoverable error, not a crash
    assert_eq!(
        client
            .scenegraph
            .send_signal("/y", "ping", vec![])
            .unwrap_err(),
        ScenegraphError::NodeNotFound
    );
}

#[test]
fn destroy_sends_exactly_one_destroy_signal() {
    let mut client = Client::connect();
    let node = Node::from_path(&mut client, "/z").unwrap();

    // a preceding remote call whose response reports a server-side failure
    let cid = node
        .execute_remote_method(&mut client.messenger, "query", vec![1, 2])
        .unwrap();
    assert!(client.messenger.handle_response(cid));

    node.destroy(&mut client);
    let destroys: Vec<_> = client
        .messenger
        .frames()
        .iter()
        .filter(|f| f.path == "/z" && f.method == "destroy")
        .collect();
    assert_eq!(destroys.len(), 1);
    match &destroys[0].payload {
        Payload::Raw(bytes) => assert!(bytes.is_empty()),
        _ => panic!("destroy must carry an empty raw payload"),
    }
    assert_eq!(destroys[0].correlation, None);
}

#[test]
fn destroy_swallows_write_failure() {
    let mut client = Client::connect();
    let node = Node::from_path(&mut client, "/w").unwrap();
    client.messenger.mark_write_failed();
    let frames_before = client.messenger.frames().len();
    node.destroy(&mut client); // must not panic or surface the failure
    assert_eq!(client.messenger.frames().len(), frames_before);
    assert!(!client.scenegraph.get_node("/w"));
}

#[test]
fn messenger_write_and_release_errors() {
    let mut client = Client::connect();
    let node = Node::from_path(&mut client, "/m").unwrap();

    node.send_remote_signal(&mut client.messenger, "hello", vec![1])
        .unwrap();
    assert_eq!(client.messenger.frames().len(), 1);
    assert_eq!(client.messenger.frames()[0].path, "/m");
    assert_eq!(client.messenger.frames()[0].method, "hello");

    client.messenger.mark_write_failed();
    assert_eq!(
        node.send_remote_signal(&mut client.messenger, "hello", vec![1])
            .unwrap_err(),
        NodeError::MessengerWrite
    );

    let abandoned = client.messenger.mark_closed();
    assert!(abandoned.is_empty());
    assert_eq!(
        node.send_remote_signal(&mut client.messenger, "hello", vec![1])
            .unwrap_err(),
        NodeError::InvalidMessenger
    );
    assert_eq!(
        node.execute_remote_method(&mut client.messenger, "call", vec![])
            .unwrap_err(),
        NodeError::InvalidMessenger
    );
}

#[test]
fn correlation_ids_are_fresh_and_resolve_once() {
    let mut client = Client::connect();
    let node = Node::from_path(&mut client, "/c").unwrap();
    let a = node
        .execute_remote_method(&mut client.messenger, "one", vec![])
        .unwrap();
    let b = node
        .execute_remote_method(&mut client.messenger, "two", vec![])
        .unwrap();
    assert_ne!(a, b);
    assert_eq!(client.messenger.pending_ids().as_slice(), &[a, b]);

    // a response resolves exactly the matching call, exactly once
    assert!(client.messenger.handle_response(a));
    assert!(!client.messenger.handle_response(a));
    // a response nobody waits for is discarded
    assert!(!client.messenger.handle_response(999));
    assert_eq!(client.messenger.pending_ids().as_slice(), &[b]);

    // abandoning a call drops interest without failing anything
    client.messenger.abandon_call(b);
    assert!(client.messenger.pending_ids().is_empty());
    assert!(!client.messenger.handle_response(b));

    // connection loss fails every remaining pending call
    let c = node
        .execute_remote_method(&mut client.messenger, "three", vec![])
        .unwrap();
    let failed = client.messenger.mark_closed();
    assert_eq!(failed, vec![c]);
    assert!(client.messenger.pending_ids().is_empty());
}

#[test]
fn set_enabled_sends_encoded_singleton() {
    let mut client = Client::connect();
    let node = Node::from_path(&mut client, "/e").unwrap();
    node.set_enabled(&mut client.messenger, true).unwrap();
    node.set_enabled(&mut client.messenger, false).unwrap();

    let mut expected_true = flexbuffers::Builder::default();
    expected_true.build_singleton(true);
    let mut expected_false = flexbuffers::Builder::default();
    expected_false.build_singleton(false);

    let frames = client.messenger.frames();
    assert_eq!(frames.len(), 2);
    assert_eq!(frames[0].method, "setEnabled");
    match &frames[0].payload {
        Payload::Raw(bytes) => {
            assert_eq!(bytes.as_slice(), expected_true.view());
            // the exact encoding the contract states: value, type, width
            assert_eq!(bytes.as_slice(), &[1u8, 104, 1]);
            let decoded = flexbuffers::Reader::get_root(bytes.as_slice())
                .unwrap()
                .get_bool()
                .unwrap();
            assert!(decoded);
        }
        _ => panic!("setEnabled must carry a raw payload"),
    }
    match &frames[1].payload {
        Payload::Raw(bytes) => {
            assert_eq!(bytes.as_slice(), expected_false.view());
            assert_eq!(bytes.as_slice(), &[0u8, 104, 1]);
        }
        _ => panic!("setEnabled must carry a raw payload"),
    }
}

#[test]
fn stale_node_after_replacement_reports_not_found() {
    let mut client = Client::connect();
    let first = Node::from_path(&mut client, "/q").unwrap();
    // a second registration at the same path replaces the first
    let second = Node::from_path(&mut client, "/q").unwrap();
    second.destroy(&mut client);
    assert_eq!(
        first
            .add_local_signal(&mut client.scenegraph, "s")
            .unwrap_err(),
        NodeError::NodeNotFound
    );
    assert_eq!(
        first
            .send_local_signal(&mut client.scenegraph, "s", vec![])
            .unwrap_err(),
        NodeError::NodeNotFound
    );
    first.destroy(&mut client);
}

#[test]
fn root_is_registered_at_connect() {
    let client = Client::connect();
    assert_eq!(client.get_root().get_path(), "/");
    assert!(client.scenegraph.get_node("/"));
    assert!(client.messenger.frames().is_empty());
    assert!(client.messenger.pending_ids().is_empty());
}
