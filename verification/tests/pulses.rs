//! End-to-end flows over a simulated server: the sphere field's distance
//! queries and the pulse sender/receiver data channel.

use stardust_fusion::client::Client;
use stardust_fusion::data::{
    NewReceiverInfo, PulseReceiver, PulseReceiverHandler, PulseSender, PulseSenderHandler,
};
use stardust_fusion::fields::SphereField;
use stardust_fusion::messenger::Payload;
use stardust_fusion::node::NodeError;
use stardust_fusion::spatial::UnknownField;

fn mask_with_test_flag() -> Vec<u8> {
    let mut b = flexbuffers::Builder::default();
    let mut m = b.start_map();
    m.push("test", true);
    m.end_map();
    b.view().to_vec()
}

fn encode_f32(value: f32) -> Vec<u8> {
    let mut b = flexbuffers::Builder::default();
    b.build_singleton(value);
    b.take_buffer()
}

fn decode_f32(bytes: &[u8]) -> f32 {
    flexbuffers::Reader::get_root(bytes).unwrap().as_f32()
}

fn new_receiver_payload(uid: &str) -> Vec<u8> {
    let mut b = flexbuffers::Builder::default();
    let mut m = b.start_map();
    m.push("uid", uid);
    m.end_map();
    b.view().to_vec()
}

fn data_payload(uid: &str, inner: &[u8]) -> Vec<u8> {
    let mut b = flexbuffers::Builder::default();
    let mut m = b.start_map();
    m.push("uid", uid);
    m.push("data", flexbuffers::Blob(inner));
    m.end_map();
    b.view().to_vec()
}

struct SenderLog {
    new_uids: Vec<String>,
    dropped_uids: Vec<String>,
}

impl PulseSenderHandler for SenderLog {
    fn new_receiver(&mut self, receiver: &PulseReceiver, field: &UnknownField, info: NewReceiverInfo) {
        assert!(receiver.spatial.node.get_path().ends_with(info.uid.as_str()));
        assert!(field.spatial.node.get_path().ends_with("-field"));
        self.new_uids.push(info.uid.clone());
    }

    fn drop_receiver(&mut self, uid: &str) {
        self.dropped_uids.push(uid.to_string());
    }
}

struct ReceiverLog {
    got: Vec<(String, Vec<u8>)>,
}

impl PulseReceiverHandler for ReceiverLog {
    fn data(&mut self, uid: &str, data: &Vec<u8>) {
        self.got.push((uid.to_string(), data.clone()));
    }
}

#[test]
fn sphere_field_distance_roundtrip() {
    let mut client = Client::connect();
    let field = SphereField::create(&mut client, encode_f32(0.5)).unwrap();

    // the creation call went out as an awaited method call at /field
    let frames = client.messenger.frames();
    assert_eq!(frames.len(), 1);
    assert_eq!(frames[0].path, "/field");
    assert_eq!(frames[0].method, "createSphereField");
    let creation_cid = frames[0].correlation.unwrap();
    match &frames[0].payload {
        Payload::Creation { id, args, mask, field: field_ref } => {
            assert_eq!(id.as_str(), field.spatial.node.get_name());
            assert_eq!(decode_f32(args), 0.5);
            assert!(mask.is_none());
            assert!(field_ref.is_none());
        }
        _ => panic!("creation frame must carry a creation payload"),
    }
    // the server accepts the creation
    assert!(client.messenger.handle_response(creation_cid));

    // distance query from (0, 1, 0): one awaited "distance" call goes out
    // carrying the encoded point; the answer itself is the server's to
    // produce, so only the outbound frame and the resolution are checked
    let cid = field
        .spatial
        .node
        .execute_remote_method(&mut client.messenger, "distance", encode_f32(1.0))
        .unwrap();
    let query = client.messenger.frames().last().unwrap();
    assert_eq!(query.method, "distance");
    assert_eq!(query.correlation, Some(cid));
    match &query.payload {
        Payload::Raw(bytes) => assert_eq!(decode_f32(bytes), 1.0),
        _ => panic!("distance must carry a raw payload"),
    }
    assert!(client.messenger.handle_response(cid));

    // grow the sphere and query again from (0, 2, 0)
    field
        .set_radius(&mut client.messenger, encode_f32(1.0))
        .unwrap();
    let last = client.messenger.frames().last().unwrap();
    assert_eq!(last.method, "setRadius");
    assert_eq!(last.path, field.spatial.node.get_path());
    match &last.payload {
        Payload::Raw(bytes) => assert_eq!(decode_f32(bytes), 1.0),
        _ => panic!("setRadius must carry a raw payload"),
    }
    let cid = field
        .spatial
        .node
        .execute_remote_method(&mut client.messenger, "distance", encode_f32(2.0))
        .unwrap();
    assert!(client.messenger.handle_response(cid));
    assert!(client.messenger.pending_ids().is_empty());
}

#[test]
fn creation_rejected_by_server_tears_the_node_down() {
    let mut client = Client::connect();
    let field = SphereField::create(&mut client, encode_f32(0.25)).unwrap();
    let path = field.spatial.node.get_path().to_string();
    assert!(client.scenegraph.get_node(path.as_str()));

    let node = field.spatial.node;
    let err = node.confirm_creation(&mut client, false).unwrap_err();
    assert_eq!(err, NodeError::ServerCreationFailed);
    assert!(!client.scenegraph.get_node(path.as_str()));
}

#[test]
fn creation_accepted_by_server_keeps_the_node() {
    let mut client = Client::connect();
    let field = SphereField::create(&mut client, encode_f32(0.25)).unwrap();
    let path = field.spatial.node.get_path().to_string();

    let node = field.spatial.node.confirm_creation(&mut client, true).unwrap();
    assert_eq!(node.get_path(), path.as_str());
    assert!(client.scenegraph.get_node(path.as_str()));
}

#[test]
fn pulse_sender_to_receiver_roundtrip() {
    let mut client = Client::connect();
    let mask = mask_with_test_flag();

    let mut sender = PulseSender::create(
        &mut client,
        mask.clone(),
        vec![],
        SenderLog { new_uids: vec![], dropped_uids: vec![] },
    )
    .unwrap();
    match &client.messenger.frames().last().unwrap().payload {
        Payload::Creation { mask: sent_mask, field, .. } => {
            assert_eq!(sent_mask.as_ref().unwrap(), &mask);
            assert!(field.is_none());
        }
        _ => panic!("sender creation must carry a creation payload"),
    }
    let volume = SphereField::create(&mut client, encode_f32(0.1)).unwrap();
    let receiver_wrapper = PulseReceiver::create(
        &mut client,
        &volume.spatial.node,
        mask.clone(),
        vec![],
        ReceiverLog { got: vec![] },
    )
    .unwrap();
    match &client.messenger.frames().last().unwrap().payload {
        Payload::Creation { mask: sent_mask, field, .. } => {
            assert_eq!(sent_mask.as_ref().unwrap(), &mask);
            assert_eq!(field.as_ref().unwrap(), volume.spatial.node.get_path());
        }
        _ => panic!("receiver creation must carry a creation payload"),
    }
    let receiver_uid = receiver_wrapper.wrapped().spatial.node.get_name().to_string();
    let sender_path = sender.wrapped().spatial.node.get_path().to_string();

    // the server reports the receiver to the sender
    client
        .scenegraph
        .send_signal(
            sender_path.as_str(),
            "newReceiver",
            new_receiver_payload(receiver_uid.as_str()),
        )
        .unwrap();
    let queued = client.scenegraph.take_queued();
    assert_eq!(queued.len(), 1);
    assert_eq!(queued[0].method, "newReceiver");
    sender
        .dispatch_new_receiver(&mut client, &queued[0].data)
        .unwrap();
    assert_eq!(sender.wrapped().receivers.len(), 1);
    {
        let handler = sender.handler.as_ref().unwrap();
        assert_eq!(handler.new_uids, vec![receiver_uid.clone()]);
    }

    // the sender transmits a payload addressed at that receiver
    let datum = mask_with_test_flag();
    let mirrored = &sender.wrapped().receivers[0];
    sender
        .wrapped()
        .send_data(&mut client.messenger, &mirrored.receiver, datum.clone())
        .unwrap();
    let last = client.messenger.frames().last().unwrap();
    assert_eq!(last.path, sender_path);
    assert_eq!(last.method, "sendData");
    match &last.payload {
        Payload::Addressed { target, data } => {
            assert_eq!(target.as_str(), receiver_uid.as_str());
            assert_eq!(data, &datum);
        }
        _ => panic!("sendData must carry an addressed payload"),
    }

    // the server delivers it to the receiver, byte for byte
    let mut receiver_wrapper = receiver_wrapper;
    let delivery = data_payload("some-sender", &datum);
    receiver_wrapper.dispatch_data(&delivery).unwrap();
    let log = &receiver_wrapper.wrapped().received;
    assert_eq!(log.len(), 1);
    assert_eq!(log[0].uid, "some-sender");
    assert_eq!(log[0].data, datum);
    let handler = receiver_wrapper.handler.as_ref().unwrap();
    assert_eq!(handler.got.len(), 1);
    assert_eq!(handler.got[0].0, "some-sender");
    assert_eq!(handler.got[0].1, datum);

    // and later drops the receiver again
    let mut drop_payload = flexbuffers::Builder::default();
    drop_payload.build_singleton(receiver_uid.as_str());
    sender
        .dispatch_drop_receiver(&drop_payload.view().to_vec())
        .unwrap();
    assert!(sender.wrapped().receivers.is_empty());
    let handler = sender.handler.as_ref().unwrap();
    assert_eq!(handler.dropped_uids, vec![receiver_uid]);
}

#[test]
fn invalid_mask_is_rejected() {
    let mut client = Client::connect();
    let not_a_map = encode_f32(1.5);
    let err = match PulseSender::create(
        &mut client,
        not_a_map.clone(),
        vec![],
        SenderLog { new_uids: vec![], dropped_uids: vec![] },
    ) {
        Err(e) => e,
        Ok(_) => panic!("a non-map mask must be rejected"),
    };
    assert_eq!(err, NodeError::MapInvalid);
    let volume = SphereField::create(&mut client, encode_f32(0.2)).unwrap();
    let frames_after_volume = client.messenger.frames().len();
    let err = match PulseReceiver::create(
        &mut client,
        &volume.spatial.node,
        not_a_map.clone(),
        vec![],
        ReceiverLog { got: vec![] },
    ) {
        Err(e) => e,
        Ok(_) => panic!("a non-map mask must be rejected"),
    };
    assert_eq!(err, NodeError::MapInvalid);
    assert_eq!(client.messenger.frames().len(), frames_after_volume);
}

#[test]
fn malformed_event_payloads_are_recoverable() {
    let mut client = Client::connect();
    let mut sender = PulseSender::create(
        &mut client,
        mask_with_test_flag(),
        vec![],
        SenderLog { new_uids: vec![], dropped_uids: vec![] },
    )
    .unwrap();
    let err = sender
        .dispatch_new_receiver(&mut client, &vec![0u8, 1, 2])
        .unwrap_err();
    assert_eq!(err, NodeError::MapInvalid);
    assert!(sender.wrapped().receivers.is_empty());
    assert!(sender.handler.as_ref().unwrap().new_uids.is_empty());

    // sending non-map data is rejected before anything goes out
    let frames_before = client.messenger.frames().len();
    let volume = SphereField::create(&mut client, encode_f32(0.3)).unwrap();
    let fake = PulseReceiver::create(
        &mut client,
        &volume.spatial.node,
        mask_with_test_flag(),
        vec![],
        ReceiverLog { got: vec![] },
    )
    .unwrap();
    let frames_now = client.messenger.frames().len();
    let err = sender
        .wrapped()
        .send_data(&mut client.messenger, fake.wrapped(), encode_f32(3.0))
        .unwrap_err();
    assert_eq!(err, NodeError::MapInvalid);
    assert_eq!(client.messenger.frames().len(), frames_now);
    assert!(frames_now > frames_before);
}

#[test]
fn dropped_handler_is_silently_skipped() {
    let mut client = Client::connect();
    let volume = SphereField::create(&mut client, encode_f32(0.4)).unwrap();
    let mut receiver = PulseReceiver::create(
        &mut client,
        &volume.spatial.node,
        mask_with_test_flag(),
        vec![],
        ReceiverLog { got: vec![] },
    )
    .unwrap();
    let taken = receiver.take_handler().unwrap();
    assert!(taken.got.is_empty());
    assert!(!receiver.handler_alive());

    // events keep flowing without a handler: no crash, no stale invocation
    let delivery = data_payload("someone", &mask_with_test_flag());
    receiver.dispatch_data(&delivery).unwrap();
    assert!(taken.got.is_empty());

    // same on the sender side: bookkeeping continues, user logic is skipped
    let mut sender = PulseSender::create(
        &mut client,
        mask_with_test_flag(),
        vec![],
        SenderLog { new_uids: vec![], dropped_uids: vec![] },
    )
    .unwrap();
    let taken_sender = sender.take_handler().unwrap();
    sender
        .dispatch_new_receiver(&mut client, &new_receiver_payload("abc"))
        .unwrap();
    assert_eq!(sender.wrapped().receivers.len(), 1);
    assert!(taken_sender.new_uids.is_empty());
}

#[test]
fn crafted_map_length_is_rejected_not_fatal() {
    let mut client = Client::connect();
    let mut sender = PulseSender::create(
        &mut client,
        mask_with_test_flag(),
        vec![],
        SenderLog { new_uids: vec![], dropped_uids: vec![] },
    )
    .unwrap();

    // a real single-entry map, then lie about its length
    let mut payload = new_receiver_payload("x");
    let n = payload.len();
    let rw = payload[n - 1] as usize;
    let type_byte = payload[n - 2];
    assert_eq!(type_byte >> 2, 9, "root must be a map");
    let wb = 1usize << (type_byte & 3);
    let root_addr = n - 2 - rw;
    let m = root_addr - payload[root_addr] as usize;
    payload[m - wb] = 255;

    let err = sender
        .dispatch_new_receiver(&mut client, &payload)
        .unwrap_err();
    assert_eq!(err, NodeError::MapInvalid);
    assert!(sender.wrapped().receivers.is_empty());

    // an honest payload still goes through afterwards
    sender
        .dispatch_new_receiver(&mut client, &new_receiver_payload("x"))
        .unwrap();
    assert_eq!(sender.wrapped().receivers.len(), 1);
}

#[test]
fn crafted_blob_length_is_rejected_not_fatal() {
    let mut client = Client::connect();
    let volume = SphereField::create(&mut client, encode_f32(0.5)).unwrap();
    let mut receiver = PulseReceiver::create(
        &mut client,
        &volume.spatial.node,
        mask_with_test_flag(),
        vec![],
        ReceiverLog { got: vec![] },
    )
    .unwrap();

    // a real payload carrying a map as its blob; the blob's one-byte
    // length slot (directly before the blob bytes) gets a lying 255
    let inner = mask_with_test_flag();
    let mut payload = data_payload("s", &inner);
    let mut needle = vec![inner.len() as u8];
    needle.extend_from_slice(&inner);
    let at = payload
        .windows(needle.len())
        .position(|w| w == needle.as_slice())
        .expect("blob with its length slot");
    payload[at] = 255;

    let err = receiver.dispatch_data(&payload).unwrap_err();
    assert_eq!(err, NodeError::MapInvalid);
    assert!(receiver.wrapped().received.is_empty());
    assert!(receiver.handler.as_ref().unwrap().got.is_empty());

    // the untampered payload still goes through
    receiver.dispatch_data(&data_payload("s", &inner)).unwrap();
    assert_eq!(receiver.wrapped().received.len(), 1);
    assert_eq!(receiver.wrapped().received[0].data, inner);
}
