use nuckrelay::message::{hash_id_to_string, unmarshal_transport_id, MessageError};
use nuckrelay::peer::{
    loop_control, BatchAction, BatchEvent, FrameAction, FrameKind, FrameNote, LoopControl,
    LoopEvent, Peer, PeerError, BUFFER_FLUSH_SIZE,
};
use nuckrelay::store::Store;

fn id(fill: u8) -> Vec<u8> {
    let mut v = b"sha-".to_vec();
    v.extend(std::iter::repeat(fill).take(32));
    v
}

fn transport(dst: &[u8], data: &[u8]) -> Vec<u8> {
    let mut m = vec![1u8, 3u8];
    m.extend_from_slice(dst);
    m.extend_from_slice(data);
    m
}

fn sender() -> Peer {
    Peer::new(id(1), hash_id_to_string(&id(1)))
}

#[test]
fn transport_forwarded_with_sender_id() {
    let mut store: Store<&str> = Store::new();
    store.add_peer(hash_id_to_string(&id(2)), 7, "dst-queue");
    let frame = transport(&id(2), b"hello");
    match sender().handle_websocket_frame(FrameKind::Binary, &frame, &store) {
        Ok(FrameAction::Forward { dst_peer_id, dst, message }) => {
            assert_eq!(dst_peer_id, hash_id_to_string(&id(2)));
            assert_eq!(*dst, "dst-queue");
            assert_eq!(unmarshal_transport_id(&message).unwrap(), id(1));
            assert_eq!(&message[38..], b"hello");
            assert_eq!(message.len(), frame.len());
        }
        _ => panic!("expected a forward"),
    }
}

#[test]
fn transport_to_unknown_peer() {
    let store: Store<&str> = Store::new();
    let frame = transport(&id(2), b"hello");
    assert_eq!(
        sender().handle_websocket_frame(FrameKind::Binary, &frame, &store).err(),
        Some(PeerError::DestinationNotFound)
    );
}

#[test]
fn transport_too_short() {
    let store: Store<&str> = Store::new();
    assert_eq!(
        sender().handle_websocket_frame(FrameKind::Binary, &[1, 3, 0], &store).err(),
        Some(PeerError::Message(MessageError::InvalidMsgLength))
    );
}

#[test]
fn sender_id_longer_than_field() {
    let mut store: Store<&str> = Store::new();
    store.add_peer(hash_id_to_string(&id(2)), 7, "dst");
    let long_sender = Peer::new(vec![9u8; 40], "long".to_string());
    let frame = transport(&id(2), b"");
    assert_eq!(
        long_sender.handle_transport_message(&frame, &store).err(),
        Some(PeerError::Message(MessageError::InvalidMsgLength))
    );
}

#[test]
fn frames_passed_over() {
    let store: Store<&str> = Store::new();
    let p = sender();
    let note = |kind, payload: &[u8]| match p.handle_websocket_frame(kind, payload, &store) {
        Ok(FrameAction::Ignore(n)) => n,
        _ => panic!("expected a note"),
    };
    assert_eq!(note(FrameKind::Binary, &[1, 5]), FrameNote::HealthCheck);
    assert_eq!(note(FrameKind::Binary, &[1, 6]), FrameNote::UnsupportedMessageType);
    assert_eq!(note(FrameKind::Binary, &[1, 4]), FrameNote::UnsupportedMessageType);
    assert_eq!(note(FrameKind::Binary, &[1]), FrameNote::InvalidMessage(MessageError::InvalidMsgLength));
    assert_eq!(note(FrameKind::Binary, &[1, 8]), FrameNote::InvalidMessage(MessageError::InvalidMsgType));
    assert_eq!(note(FrameKind::Text, b"hi"), FrameNote::TextFrame);
    assert_eq!(note(FrameKind::Other, b""), FrameNote::UnsupportedFrame);
}

#[test]
fn close_frame_ends_loop() {
    let store: Store<&str> = Store::new();
    assert_eq!(sender().handle_websocket_frame(FrameKind::Close, b"", &store).err(), Some(PeerError::CloseRequested));
}

#[test]
fn batch_ends_when_queue_empty() {
    let mut p = sender();
    assert_eq!(p.batch_step(BatchEvent::FirstWritten(100)), BatchAction::ReceiveMore);
    assert_eq!(p.batch_step(BatchEvent::Written(50)), BatchAction::ReceiveMore);
    assert_eq!(p.pending_bytes(), 150);
    assert_eq!(p.batch_step(BatchEvent::QueueEmpty), BatchAction::Done(150));
    assert_eq!(p.pending_bytes(), 0);
}

#[test]
fn batch_flushes_at_limit() {
    let mut p = sender();
    assert_eq!(p.batch_step(BatchEvent::FirstWritten(5000)), BatchAction::ReceiveMore);
    assert_eq!(p.batch_step(BatchEvent::Written(1)), BatchAction::Done(5001));
    assert_eq!(p.pending_bytes(), 0);
    assert_eq!(p.batch_step(BatchEvent::FirstWritten(10)), BatchAction::ReceiveMore);
    assert_eq!(p.batch_step(BatchEvent::Written(BUFFER_FLUSH_SIZE - 11)), BatchAction::ReceiveMore);
    assert_eq!(p.batch_step(BatchEvent::Written(1)), BatchAction::Done(BUFFER_FLUSH_SIZE));
}

#[test]
fn batch_failures() {
    let mut p = sender();
    p.batch_step(BatchEvent::FirstWritten(10));
    assert_eq!(
        p.batch_step(BatchEvent::QueueDisconnected),
        BatchAction::Failed(Some(PeerError::ChannelDisconnected))
    );
    assert_eq!(p.pending_bytes(), 10);
    assert_eq!(p.batch_step(BatchEvent::WriteFailed), BatchAction::Failed(None));
}

#[test]
fn loop_decisions() {
    assert_eq!(loop_control(LoopEvent::FrameReadFailed), LoopControl::Stop);
    assert_eq!(loop_control(LoopEvent::FrameHandled(true)), LoopControl::Continue);
    assert_eq!(loop_control(LoopEvent::FrameHandled(false)), LoopControl::Stop);
    assert_eq!(loop_control(LoopEvent::Forwarded(false)), LoopControl::Stop);
    assert_eq!(loop_control(LoopEvent::BatchEnded(true)), LoopControl::Continue);
    assert_eq!(loop_control(LoopEvent::BatchEnded(false)), LoopControl::Stop);
    assert_eq!(loop_control(LoopEvent::ChannelClosed), LoopControl::Stop);
    assert_eq!(loop_control(LoopEvent::HealthCheckDue), LoopControl::SendHealthCheck);
    assert_eq!(loop_control(LoopEvent::HealthCheckWritten(false)), LoopControl::Continue);
}

#[test]
fn peer_display_and_errors() {
    assert_eq!(sender().to_string(), hash_id_to_string(&id(1)));
    assert_eq!(PeerError::DestinationNotFound.to_string(), "Destination peer not found");
    assert_eq!(PeerError::CloseRequested.to_string(), "Peer requested connection close");
    assert_eq!(PeerError::ChannelDisconnected.to_string(), "Channel disconnected");
    assert_eq!(PeerError::Message(MessageError::InvalidMsgType).to_string(), "Invalid message type");
}
