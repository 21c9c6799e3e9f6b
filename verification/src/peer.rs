//! The decisions of a connected peer: what to do with each websocket frame
//! it sends, how transport messages are routed to their destination, how
//! queued messages are batched, and when the peer's loop ends.
use vstd::prelude::*;
use vstd::slice::*;
use vstd::string::*;

use crate::message::{
    determine_client_message_type, hash_id_to_string, spec_client_message_type,
    spec_hash_id_to_string, spec_unmarshal_transport_id, spec_update_transport_msg,
    unmarshal_transport_id, update_transport_msg, MessageError, MessageType,
};
use crate::store::Store;

verus! {

/// Once this many bytes have been written in one batch, the batch ends.
pub const BUFFER_FLUSH_SIZE: usize = 4096;

/// The kind of a websocket frame.
#[derive(Debug, Clone, Copy, PartialEq, Eq, Structural)]
pub enum FrameKind {
    Binary,
    Text,
    Close,
    /// Continuation, ping and pong frames.
    Other,
}

/// Why a peer's loop ends.
#[derive(Debug, Clone, Copy, PartialEq, Eq, Structural)]
pub enum PeerError {
    /// A transport message could not be read or rewritten.
    Message(MessageError),
    /// The destination of a transport message is not connected.
    DestinationNotFound,
    /// The peer sent a close frame.
    CloseRequested,
    /// The queue of messages for the peer was closed.
    ChannelDisconnected,
}

impl PeerError {
    pub open spec fn spec_text(self) -> Seq<char> {
        match self {
            PeerError::Message(e) => e.spec_text(),
            PeerError::DestinationNotFound => "Destination peer not found"@,
            PeerError::CloseRequested => "Peer requested connection close"@,
            PeerError::ChannelDisconnected => "Channel disconnected"@,
        }
    }

    /// The human-readable description of the error.
    pub fn to_string(&self) -> (r: String)
        ensures
            r@ == self.spec_text(),
    {
        match self {
            PeerError::Message(e) => e.to_string(),
            PeerError::DestinationNotFound => String::from_str("Destination peer not found"),
            PeerError::CloseRequested => String::from_str("Peer requested connection close"),
            PeerError::ChannelDisconnected => String::from_str("Channel disconnected"),
        }
    }
}

/// What a frame that is not forwarded amounts to; the loop goes on.
#[derive(Debug, Clone, Copy, PartialEq, Eq, Structural)]
pub enum FrameNote {
    HealthCheck,
    UnsupportedMessageType,
    InvalidMessage(MessageError),
    TextFrame,
    UnsupportedFrame,
}

/// What to do with a frame that a peer sent.
pub enum FrameAction<'a, T> {
    /// Send `message` to the destination peer `dst_peer_id` through `dst`.
    Forward { dst_peer_id: String, dst: &'a T, message: Vec<u8> },
    /// Nothing to send.
    Ignore(FrameNote),
}

/// A connected peer.
pub struct Peer {
    raw_peer_id: Vec<u8>,
    peer_id: String,
    pending_bytes: usize,
}

/// The routing of a transport message sent by the peer `raw_src`: the
/// readable id of the destination, its registration, and the message with
/// the sender's id in place of the destination's.
pub open spec fn spec_transport_route<T>(raw_src: Seq<u8>, data: Seq<u8>, peers: Map<Seq<char>, (u64, T)>) -> Result<
    (Seq<char>, T, Seq<u8>),
    PeerError,
> {
    match spec_unmarshal_transport_id(data) {
        Err(e) => Err(PeerError::Message(e)),
        Ok(raw_dst) => {
            let dst_peer_id = spec_hash_id_to_string(raw_dst);
            if !peers.contains_key(dst_peer_id) {
                Err(PeerError::DestinationNotFound)
            } else {
                match spec_update_transport_msg(data, raw_src) {
                    Err(e) => Err(PeerError::Message(e)),
                    Ok(message) => Ok((dst_peer_id, peers[dst_peer_id].1, message)),
                }
            }
        },
    }
}

/// A routing result viewed as its parts.
pub open spec fn route_result<T>(r: Result<(String, &T, Vec<u8>), PeerError>) -> Result<
    (Seq<char>, T, Seq<u8>),
    PeerError,
> {
    match r {
        Ok((id, dst, message)) => Ok((id@, *dst, message@)),
        Err(e) => Err(e),
    }
}

/// What a frame from the peer `raw_src` calls for.
pub open spec fn spec_frame_action<T>(raw_src: Seq<u8>, kind: FrameKind, payload: Seq<u8>, peers: Map<Seq<char>, (u64, T)>) -> Result<
    Option<(Seq<char>, T, Seq<u8>)>,
    PeerError,
> {
    match kind {
        FrameKind::Binary => match spec_client_message_type(payload) {
            Ok(MessageType::Transport) => match spec_transport_route(raw_src, payload, peers) {
                Ok(route) => Ok(Some(route)),
                Err(e) => Err(e),
            },
            _ => Ok(None),
        },
        FrameKind::Close => Err(PeerError::CloseRequested),
        _ => Ok(None),
    }
}

/// The note that goes with a frame that is not forwarded.
pub open spec fn spec_frame_note(kind: FrameKind, payload: Seq<u8>) -> FrameNote {
    match kind {
        FrameKind::Binary => match spec_client_message_type(payload) {
            Ok(MessageType::HealthCheck) => FrameNote::HealthCheck,
            Ok(_) => FrameNote::UnsupportedMessageType,
            Err(e) => FrameNote::InvalidMessage(e),
        },
        FrameKind::Text => FrameNote::TextFrame,
        _ => FrameNote::UnsupportedFrame,
    }
}

/// A frame action viewed as the forwarding it calls for, if any.
pub open spec fn frame_result<'a, T>(r: Result<FrameAction<'a, T>, PeerError>) -> Result<
    Option<(Seq<char>, T, Seq<u8>)>,
    PeerError,
> {
    match r {
        Ok(FrameAction::Forward { dst_peer_id, dst, message }) => Ok(
            Some((dst_peer_id@, *dst, message@)),
        ),
        Ok(FrameAction::Ignore(_)) => Ok(None),
        Err(e) => Err(e),
    }
}

impl Peer {
    /// The raw id of the peer.
    pub closed spec fn spec_raw_peer_id(&self) -> Seq<u8> {
        self.raw_peer_id@
    }

    /// The readable id of the peer.
    pub closed spec fn spec_peer_id(&self) -> Seq<char> {
        self.peer_id@
    }

    /// The bytes written in the current batch.
    pub closed spec fn spec_pending_bytes(&self) -> usize {
        self.pending_bytes
    }

    /// Creates a peer with no batch under way.
    pub fn new(raw_peer_id: Vec<u8>, peer_id: String) -> (r: Self)
        ensures
            r.spec_raw_peer_id() == raw_peer_id@,
            r.spec_peer_id() == peer_id@,
            r.spec_pending_bytes() == 0,
    {
        Peer { raw_peer_id, peer_id, pending_bytes: 0 }
    }

    /// The readable id of the peer, by which it is shown.
    pub fn to_string(&self) -> (r: String)
        ensures
            r@ == self.spec_peer_id(),
    {
        self.peer_id.clone()
    }

    /// The bytes written in the current batch.
    pub fn pending_bytes(&self) -> (r: usize)
        ensures
            r == self.spec_pending_bytes(),
    {
        self.pending_bytes
    }

    /// Routes a transport message sent by this peer: finds the destination
    /// peer by the id in the message and writes this peer's id in its place,
    /// so that the destination learns who sent it.
    pub fn handle_transport_message<'a, T>(&self, data: &[u8], store: &'a Store<T>) -> (r: Result<
        (String, &'a T, Vec<u8>),
        PeerError,
    >)
        requires
            store.wf(),
        ensures
            route_result(r) == spec_transport_route(self.spec_raw_peer_id(), data@, store@),
    {
        let raw_dst_peer_id = match unmarshal_transport_id(data) {
            Ok(id) => id,
            Err(e) => return Err(PeerError::Message(e)),
        };
        let dst_peer_id = hash_id_to_string(raw_dst_peer_id.as_slice());
        let dst_peer_tx = match store.get_peer(dst_peer_id.as_str()) {
            Some(tx) => tx,
            None => return Err(PeerError::DestinationNotFound),
        };
        let mut message = slice_to_vec(data);
        match update_transport_msg(message.as_mut_slice(), self.raw_peer_id.as_slice()) {
            Ok(()) => {},
            Err(e) => return Err(PeerError::Message(e)),
        }
        Ok((dst_peer_id, dst_peer_tx, message))
    }

    /// Decides what to do with a websocket frame that the peer sent: a binary
    /// transport message is forwarded; a close frame ends the loop; anything
    /// else is noted and passed over.
    pub fn handle_websocket_frame<'a, T>(&self, kind: FrameKind, payload: &[u8], store: &'a Store<T>) -> (r: Result<
        FrameAction<'a, T>,
        PeerError,
    >)
        requires
            store.wf(),
        ensures
            frame_result(r) == spec_frame_action(self.spec_raw_peer_id(), kind, payload@, store@),
            r matches Ok(FrameAction::Ignore(note)) ==> note == spec_frame_note(kind, payload@),
    {
        match kind {
            FrameKind::Binary => match determine_client_message_type(payload) {
                Ok(MessageType::Transport) => match self.handle_transport_message(payload, store) {
                    Ok((dst_peer_id, dst, message)) => Ok(FrameAction::Forward { dst_peer_id, dst, message }),
                    Err(e) => Err(e),
                },
                Ok(MessageType::HealthCheck) => Ok(FrameAction::Ignore(FrameNote::HealthCheck)),
                Ok(_) => Ok(FrameAction::Ignore(FrameNote::UnsupportedMessageType)),
                Err(e) => Ok(FrameAction::Ignore(FrameNote::InvalidMessage(e))),
            },
            FrameKind::Text => Ok(FrameAction::Ignore(FrameNote::TextFrame)),
            FrameKind::Close => Err(PeerError::CloseRequested),
            FrameKind::Other => Ok(FrameAction::Ignore(FrameNote::UnsupportedFrame)),
        }
    }
}


/// What happened while a batch of queued messages was being written.
#[derive(Debug, Clone, Copy, PartialEq, Eq, Structural)]
pub enum BatchEvent {
    /// The first message of the batch, of this many bytes, was written.
    FirstWritten(usize),
    /// A further queued message, of this many bytes, was written.
    Written(usize),
    /// No further message is queued right now.
    QueueEmpty,
    /// The queue was closed.
    QueueDisconnected,
    /// Writing a frame failed.
    WriteFailed,
}

/// What to do next in a batch.
#[derive(Debug, Clone, Copy, PartialEq, Eq, Structural)]
pub enum BatchAction {
    /// Take the next queued message, if there is one, and write it.
    ReceiveMore,
    /// The batch is over; this many bytes were written in it.
    Done(usize),
    /// The batch failed, for the reason given when the library knows it
    /// (a failed write is the caller's own error); the loop ends.
    Failed(Option<PeerError>),
}

/// The pending byte count and the action after a batch event.
pub open spec fn spec_batch_step(pending: usize, event: BatchEvent) -> (usize, BatchAction) {
    match event {
        BatchEvent::FirstWritten(len) => ((pending + len) as usize, BatchAction::ReceiveMore),
        BatchEvent::Written(len) => if pending + len >= BUFFER_FLUSH_SIZE {
            (0, BatchAction::Done((pending + len) as usize))
        } else {
            ((pending + len) as usize, BatchAction::ReceiveMore)
        },
        BatchEvent::QueueEmpty => (0, BatchAction::Done(pending)),
        BatchEvent::QueueDisconnected => (
            pending,
            BatchAction::Failed(Some(PeerError::ChannelDisconnected)),
        ),
        BatchEvent::WriteFailed => (pending, BatchAction::Failed(None)),
    }
}

/// Whether the byte count of a batch can take the event.
pub open spec fn batch_event_fits(pending: usize, event: BatchEvent) -> bool {
    match event {
        BatchEvent::FirstWritten(len) => pending + len <= usize::MAX,
        BatchEvent::Written(len) => pending + len <= usize::MAX,
        _ => true,
    }
}

/// An event of a peer's loop.
#[derive(Debug, Clone, Copy, PartialEq, Eq, Structural)]
pub enum LoopEvent {
    /// Reading the next frame failed.
    FrameReadFailed,
    /// A frame was handled; `false` when its handling failed.
    FrameHandled(bool),
    /// A forwarded message was handed to its destination; `false` when that
    /// failed.
    Forwarded(bool),
    /// A batch of queued messages ended; `false` when it failed.
    BatchEnded(bool),
    /// The queue of messages for the peer was closed.
    ChannelClosed,
    /// The health check period has passed.
    HealthCheckDue,
    /// A health check was written; `false` when that failed.
    HealthCheckWritten(bool),
}

/// What the loop does next.
#[derive(Debug, Clone, Copy, PartialEq, Eq, Structural)]
pub enum LoopControl {
    Continue,
    SendHealthCheck,
    Stop,
}

/// The loop's answer to an event: it ends on any failure of the peer's own
/// connection, of forwarding, of batching or of the queue; a failed health
/// check does not end it.
pub open spec fn spec_loop_control(event: LoopEvent) -> LoopControl {
    match event {
        LoopEvent::FrameReadFailed => LoopControl::Stop,
        LoopEvent::FrameHandled(ok) => if ok { LoopControl::Continue } else { LoopControl::Stop },
        LoopEvent::Forwarded(ok) => if ok { LoopControl::Continue } else { LoopControl::Stop },
        LoopEvent::BatchEnded(ok) => if ok { LoopControl::Continue } else { LoopControl::Stop },
        LoopEvent::ChannelClosed => LoopControl::Stop,
        LoopEvent::HealthCheckDue => LoopControl::SendHealthCheck,
        LoopEvent::HealthCheckWritten(_) => LoopControl::Continue,
    }
}

/// Decides what a peer's loop does after an event.
pub fn loop_control(event: LoopEvent) -> (r: LoopControl)
    ensures
        r == spec_loop_control(event),
{
    match event {
        LoopEvent::FrameReadFailed => LoopControl::Stop,
        LoopEvent::FrameHandled(ok) => if ok { LoopControl::Continue } else { LoopControl::Stop },
        LoopEvent::Forwarded(ok) => if ok { LoopControl::Continue } else { LoopControl::Stop },
        LoopEvent::BatchEnded(ok) => if ok { LoopControl::Continue } else { LoopControl::Stop },
        LoopEvent::ChannelClosed => LoopControl::Stop,
        LoopEvent::HealthCheckDue => LoopControl::SendHealthCheck,
        LoopEvent::HealthCheckWritten(_) => LoopControl::Continue,
    }
}

impl Peer {
    /// Advances the batch of queued messages after an event: the written
    /// bytes are counted, and the batch ends once the queue is empty or, after
    /// a further message, once `BUFFER_FLUSH_SIZE` bytes have been written;
    /// the count is then reset.
    pub fn batch_step(&mut self, event: BatchEvent) -> (r: BatchAction)
        requires
            batch_event_fits(old(self).spec_pending_bytes(), event),
        ensures
            (final(self).spec_pending_bytes(), r) == spec_batch_step(old(self).spec_pending_bytes(), event),
            final(self).spec_raw_peer_id() == old(self).spec_raw_peer_id(),
            final(self).spec_peer_id() == old(self).spec_peer_id(),
    {
        match event {
            BatchEvent::FirstWritten(len) => {
                self.pending_bytes = self.pending_bytes + len;
                BatchAction::ReceiveMore
            },
            BatchEvent::Written(len) => {
                self.pending_bytes = self.pending_bytes + len;
                if self.pending_bytes >= BUFFER_FLUSH_SIZE {
                    let total = self.pending_bytes;
                    self.pending_bytes = 0;
                    BatchAction::Done(total)
                } else {
                    BatchAction::ReceiveMore
                }
            },
            BatchEvent::QueueEmpty => {
                let total = self.pending_bytes;
                self.pending_bytes = 0;
                BatchAction::Done(total)
            },
            BatchEvent::QueueDisconnected => BatchAction::Failed(Some(PeerError::ChannelDisconnected)),
            BatchEvent::WriteFailed => BatchAction::Failed(None),
        }
    }
}


/// A transport message from a peer with a wire-size id is routed exactly
/// when it holds a destination id and that destination is connected; the
/// forwarded message then carries the sender's id where the destination's
/// was, with the rest of the message unchanged.
pub proof fn lemma_forward_carries_sender<T>(raw_src: Seq<u8>, data: Seq<u8>, peers: Map<Seq<char>, (u64, T)>)
    requires
        raw_src.len() == crate::message::ID_SIZE,
    ensures
        spec_transport_route(raw_src, data, peers) is Ok <==> {
            &&& data.len() >= crate::message::HEADER_TOTAL_SIZE_TRANSPORT
            &&& peers.contains_key(spec_hash_id_to_string(data.subrange(2, 38)))
        },
        spec_transport_route(raw_src, data, peers) matches Ok((dst_peer_id, dst, message)) ==> {
            &&& dst_peer_id == spec_hash_id_to_string(data.subrange(2, 38))
            &&& dst == peers[dst_peer_id].1
            &&& spec_unmarshal_transport_id(message) == Ok::<Seq<u8>, MessageError>(raw_src)
            &&& message.len() == data.len()
            &&& message.subrange(0, 2) == data.subrange(0, 2)
            &&& message.subrange(38, message.len() as int) == data.subrange(38, data.len() as int)
            &&& spec_client_message_type(message) == spec_client_message_type(data)
        },
{
    if data.len() >= crate::message::HEADER_TOTAL_SIZE_TRANSPORT {
        crate::message::lemma_transport_id_roundtrip(data, raw_src);
    }
}

/// A batch that ends leaves no pending bytes, and a batch that goes on after
/// a further message has written less than `BUFFER_FLUSH_SIZE` bytes.
pub proof fn lemma_batch_bounds(pending: usize, event: BatchEvent)
    ensures
        spec_batch_step(pending, event).1 matches BatchAction::Done(_) ==> spec_batch_step(
            pending,
            event,
        ).0 == 0,
        event matches BatchEvent::Written(_) && spec_batch_step(pending, event).1
            == BatchAction::ReceiveMore ==> spec_batch_step(pending, event).0 < BUFFER_FLUSH_SIZE,
{
}


/// A peer's loop goes on after every success: a handled frame, a message
/// handed to its destination, a finished batch, and a health check whether
/// or not it could be written. It ends only when reading a frame fails, the
/// queue closes, or handling a frame, forwarding or batching fails; when the
/// health check period passes, a health check is sent.
pub proof fn lemma_loop_stops_only_on_failure(event: LoopEvent)
    ensures
        spec_loop_control(event) == LoopControl::Stop <==> (event == LoopEvent::FrameReadFailed
            || event == LoopEvent::ChannelClosed || event == LoopEvent::FrameHandled(false)
            || event == LoopEvent::Forwarded(false) || event == LoopEvent::BatchEnded(false)),
        spec_loop_control(event) == LoopControl::SendHealthCheck <==> event
            == LoopEvent::HealthCheckDue,
        event == LoopEvent::FrameHandled(true) || event == LoopEvent::Forwarded(true) || event
            == LoopEvent::BatchEnded(true) || event is HealthCheckWritten ==> spec_loop_control(event)
            == LoopControl::Continue,
{
}

} // verus!

