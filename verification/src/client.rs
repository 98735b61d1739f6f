//! One connection's state machine: what a readiness event means in each
//! state, what is queued and sent in answer, and which readiness the
//! connection waits for next. The socket and the HTTP parser belong to
//! the caller, who reports what they yielded.

use crate::codec::spec_read;
use crate::frame::{DecodeError, FrameView, OpCode, WebSocketFrame};
use crate::handshake::{
    gen_key, handshake_response, key_header_name, spec_gen_key, spec_handshake_response, Headers,
};
use vstd::prelude::*;
use vstd::string::*;
use vstd::utf8::encode_utf8;

verus! {

/// A set of readiness conditions: what a connection waits for, or what an
/// event reports.
#[derive(Debug, Clone, Copy, PartialEq, Eq, Structural)]
pub struct EventSet {
    pub readable: bool,
    pub writable: bool,
    pub hup: bool,
}

impl EventSet {
    /// The empty set.
    pub open spec fn spec_none() -> EventSet {
        EventSet { readable: false, writable: false, hup: false }
    }

    /// Readable alone.
    pub open spec fn spec_readable() -> EventSet {
        EventSet { readable: true, writable: false, hup: false }
    }

    /// Writable alone.
    pub open spec fn spec_writable() -> EventSet {
        EventSet { readable: false, writable: true, hup: false }
    }

    /// Hangup alone.
    pub open spec fn spec_hup() -> EventSet {
        EventSet { readable: false, writable: false, hup: true }
    }

    /// The union of two sets.
    pub open spec fn spec_insert(self, other: EventSet) -> EventSet {
        EventSet {
            readable: self.readable || other.readable,
            writable: self.writable || other.writable,
            hup: self.hup || other.hup,
        }
    }

    /// What is in `self` and not in `other`.
    pub open spec fn spec_remove(self, other: EventSet) -> EventSet {
        EventSet {
            readable: self.readable && !other.readable,
            writable: self.writable && !other.writable,
            hup: self.hup && !other.hup,
        }
    }

    /// The set after a turn from waiting for `from` to waiting for `to`.
    pub open spec fn spec_flip(self, from: EventSet, to: EventSet) -> EventSet {
        self.spec_remove(from).spec_insert(to)
    }

    /// The empty set.
    pub fn none() -> (set: EventSet)
        ensures
            set == Self::spec_none(),
    {
        EventSet { readable: false, writable: false, hup: false }
    }

    /// Readable alone.
    pub fn readable() -> (set: EventSet)
        ensures
            set == Self::spec_readable(),
    {
        EventSet { readable: true, writable: false, hup: false }
    }

    /// Writable alone.
    pub fn writable() -> (set: EventSet)
        ensures
            set == Self::spec_writable(),
    {
        EventSet { readable: false, writable: true, hup: false }
    }

    /// Hangup alone.
    pub fn hup() -> (set: EventSet)
        ensures
            set == Self::spec_hup(),
    {
        EventSet { readable: false, writable: false, hup: true }
    }

    /// Whether readable is in the set.
    pub fn is_readable(&self) -> (yes: bool)
        ensures
            yes == self.readable,
    {
        self.readable
    }

    /// Whether writable is in the set.
    pub fn is_writable(&self) -> (yes: bool)
        ensures
            yes == self.writable,
    {
        self.writable
    }

    /// Whether hangup is in the set.
    pub fn is_hup(&self) -> (yes: bool)
        ensures
            yes == self.hup,
    {
        self.hup
    }

    /// Adds what is in `other`.
    pub fn insert(&mut self, other: EventSet)
        ensures
            *final(self) == old(self).spec_insert(other),
    {
        self.readable = self.readable || other.readable;
        self.writable = self.writable || other.writable;
        self.hup = self.hup || other.hup;
    }

    /// Takes out what is in `other`.
    pub fn remove(&mut self, other: EventSet)
        ensures
            *final(self) == old(self).spec_remove(other),
    {
        self.readable = self.readable && !other.readable;
        self.writable = self.writable && !other.writable;
        self.hup = self.hup && !other.hup;
    }
}

/// Where a connection stands. While the handshake is awaited the state
/// owns the HTTP parser, of whatever type the caller uses.
#[derive(Debug)]
pub enum ClientState<P> {
    AwaitingHandshake(P),
    HandshakeResponse,
    Connected,
}

/// What a readable event asks the caller to do.
#[derive(Debug, Clone, Copy, PartialEq, Eq, Structural)]
pub enum ReadStep {
    /// Read what the socket holds and feed it to the HTTP parser.
    Handshake,
    /// Read one frame from the socket.
    Frame,
    /// Nothing is expected from the peer now.
    Nothing,
}

/// What one attempt to read handshake bytes from the socket gave.
#[derive(Debug)]
pub enum HandshakeRead {
    /// The socket has no more bytes for now.
    NoData,
    /// Bytes were read and parsed; the request is not an upgrade so far.
    Incomplete,
    /// Bytes were read and parsed, and the parser reports an upgrade
    /// request with these headers.
    Upgrade(Headers),
    /// The socket reported an error.
    Failed,
}

/// Why the handshake response could not be composed.
#[derive(Debug, Clone, Copy, PartialEq, Eq, Structural)]
pub enum HandshakeError {
    /// The request carried no `Sec-WebSocket-Key` header.
    MissingKey,
}

/// The views of a queue of frames, in order.
pub open spec fn frame_views(frames: Seq<WebSocketFrame>) -> Seq<FrameView> {
    frames.map_values(|f: WebSocketFrame| f@)
}

/// The wire bytes of a queue of frames, one frame after the other.
pub open spec fn spec_encode_all(frames: Seq<FrameView>) -> Seq<u8>
    decreases frames.len(),
{
    if frames.len() == 0 {
        Seq::empty()
    } else {
        spec_encode_all(frames.drop_last()) + frames.last().spec_encode()
    }
}

/// Whether a queue of frames holds a close frame.
pub open spec fn has_close(frames: Seq<FrameView>) -> bool {
    exists|i: int| 0 <= i < frames.len() && is_close_at(frames, i)
}

/// Whether the frame at index `i` of a queue is a close frame.
pub open spec fn is_close_at(frames: Seq<FrameView>, i: int) -> bool {
    frames[i].header.opcode == OpCode::ConnectionClose
}

/// The payload of the canned answer to every text frame.
pub open spec fn text_reply() -> Seq<u8> {
    "hi there!".spec_bytes()
}

/// The frames queued in answer to a received frame: a fixed text for a
/// text frame, a pong with the same payload for a ping, a close that
/// echoes the status code for a close, and nothing for the rest.
pub open spec fn spec_replies(frame: FrameView) -> Seq<FrameView> {
    match frame.header.opcode {
        OpCode::TextFrame => seq![FrameView::outgoing(OpCode::TextFrame, text_reply())],
        OpCode::Ping => seq![FrameView::outgoing(OpCode::Pong, frame.payload)],
        OpCode::ConnectionClose => seq![
            FrameView::outgoing(OpCode::ConnectionClose, FrameView::close_body(frame.payload)),
        ],
        _ => Seq::empty(),
    }
}

/// One accepted connection: the request headers, the readiness it waits
/// for, its state and the frames waiting to be sent.
#[derive(Debug)]
pub struct WebSocketClient<P> {
    pub headers: Headers,
    pub interest: EventSet,
    pub state: ClientState<P>,
    pub outgoing: Vec<WebSocketFrame>,
}

impl<P> WebSocketClient<P> {
    /// The frames waiting to be sent, oldest first.
    pub open spec fn queue(&self) -> Seq<FrameView> {
        frame_views(self.outgoing@)
    }

    /// The client key of the request, if its headers hold one.
    pub open spec fn key(&self) -> Option<Seq<u8>> {
        if self.headers@.contains_key(key_header_name()) {
            Some(self.headers@[key_header_name()])
        } else {
            None
        }
    }

    /// What a readable event asks for in the connection's state.
    pub open spec fn spec_read_step(&self) -> ReadStep {
        match self.state {
            ClientState::AwaitingHandshake(_) => ReadStep::Handshake,
            ClientState::HandshakeResponse => ReadStep::Nothing,
            ClientState::Connected => ReadStep::Frame,
        }
    }

    /// `post` is `pre` after a frame was received: its answers are queued
    /// behind what waits already, and the connection turns from reading
    /// to writing, whether or not anything was queued.
    pub open spec fn frame_received(pre: &Self, post: &Self, frame: FrameView) -> bool {
        &&& post.queue() == pre.queue() + spec_replies(frame)
        &&& post.interest == pre.interest.spec_flip(
            EventSet::spec_readable(),
            EventSet::spec_writable(),
        )
        &&& post.state == pre.state
        &&& post.headers == pre.headers
    }

    /// `post` is `pre` after an upgrade request with `headers` arrived:
    /// the connection keeps the headers, lets go of the parser and turns
    /// from reading to writing.
    pub open spec fn upgrade_requested(pre: &Self, post: &Self, headers: Headers) -> bool {
        &&& post.state == ClientState::<P>::HandshakeResponse
        &&& post.interest == pre.interest.spec_flip(
            EventSet::spec_readable(),
            EventSet::spec_writable(),
        )
        &&& post.headers == headers
        &&& post.outgoing == pre.outgoing
    }

    /// `post` is `pre` after the handshake response was composed: the
    /// connection is established and turns from writing to reading.
    pub open spec fn handshake_answered(pre: &Self, post: &Self) -> bool {
        &&& post.state == ClientState::<P>::Connected
        &&& post.interest == pre.interest.spec_flip(
            EventSet::spec_writable(),
            EventSet::spec_readable(),
        )
        &&& post.headers == pre.headers
        &&& post.outgoing == pre.outgoing
    }

    /// `post` is `pre` after its queue was handed over for sending: the
    /// queue is empty, and the connection turns from writing to waiting
    /// for the hangup if a close frame went out, to reading otherwise.
    pub open spec fn queue_flushed(pre: &Self, post: &Self) -> bool {
        &&& post.queue() == Seq::<FrameView>::empty()
        &&& post.interest == pre.interest.spec_flip(
            EventSet::spec_writable(),
            if has_close(pre.queue()) {
                EventSet::spec_hup()
            } else {
                EventSet::spec_readable()
            },
        )
        &&& post.state == pre.state
        &&& post.headers == pre.headers
    }

    /// `post` and `again` are what `read_handshake` makes of `pre` and
    /// `outcome`: an upgrade request moves a connection that awaits the
    /// handshake on; anything else changes nothing, and reading goes on
    /// exactly when bytes arrived.
    pub open spec fn handshake_read(
        pre: &Self,
        post: &Self,
        outcome: HandshakeRead,
        again: bool,
    ) -> bool {
        match outcome {
            HandshakeRead::Upgrade(headers) if pre.state is AwaitingHandshake => {
                !again && Self::upgrade_requested(pre, post, headers)
            },
            _ => *post == *pre && again == (outcome is Incomplete || outcome is Upgrade),
        }
    }

    /// `post` and `r` are what `read_frame` makes of `pre` and the bytes
    /// `input`: the frame at their start is taken in, or the decoding
    /// error is reported and nothing changes.
    pub open spec fn frame_read(
        pre: &Self,
        post: &Self,
        input: Seq<u8>,
        r: Result<(), DecodeError>,
    ) -> bool {
        match spec_read(input) {
            Ok((frame, _)) => r is Ok && Self::frame_received(pre, post, frame),
            Err(e) => r == Err::<(), DecodeError>(e) && *post == *pre,
        }
    }

    /// `post` and `r` are what `write` makes of `pre`: the handshake
    /// response where one is due, or `MissingKey` and no change where
    /// the key is missing; the queued frames once connected; nothing
    /// while the handshake is awaited.
    pub open spec fn written(pre: &Self, post: &Self, r: Result<Seq<u8>, HandshakeError>) -> bool {
        match pre.state {
            ClientState::HandshakeResponse => match pre.key() {
                Some(key) => r == Ok::<Seq<u8>, HandshakeError>(
                    encode_utf8(spec_handshake_response(spec_gen_key(key))),
                ) && Self::handshake_answered(pre, post),
                None => r == Err::<Seq<u8>, HandshakeError>(HandshakeError::MissingKey) && *post
                    == *pre,
            },
            ClientState::Connected => r == Ok::<Seq<u8>, HandshakeError>(
                spec_encode_all(pre.queue()),
            ) && Self::queue_flushed(pre, post),
            ClientState::AwaitingHandshake(_) => r == Ok::<Seq<u8>, HandshakeError>(Seq::empty())
                && *post == *pre,
        }
    }

    /// The connection waits for exactly one readiness, and for the one
    /// that its state calls for: readable while the handshake is awaited,
    /// writable while the response is due.
    pub open spec fn wf(&self) -> bool {
        match self.state {
            ClientState::AwaitingHandshake(_) => self.interest == EventSet::spec_readable(),
            ClientState::HandshakeResponse => self.interest == EventSet::spec_writable(),
            ClientState::Connected => self.interest == EventSet::spec_readable() || self.interest
                == EventSet::spec_writable() || self.interest == EventSet::spec_hup(),
        }
    }

    /// Reading the handshake keeps a connection waiting for exactly one
    /// readiness, whatever the read gave.
    pub proof fn lemma_handshake_read_keeps_wf(
        pre: &Self,
        post: &Self,
        outcome: HandshakeRead,
        again: bool,
    )
        requires
            pre.wf(),
            Self::handshake_read(pre, post, outcome, again),
        ensures
            post.wf(),
    {
    }

    /// An established connection that waits for a frame still waits for
    /// exactly one readiness after the bytes of one were handed to it.
    pub proof fn lemma_frame_read_keeps_wf(
        pre: &Self,
        post: &Self,
        input: Seq<u8>,
        decoded: Result<(), DecodeError>,
    )
        requires
            pre.wf(),
            pre.state is Connected,
            pre.interest.readable,
            Self::frame_read(pre, post, input, decoded),
        ensures
            post.wf(),
    {
    }

    /// A connection that waits to write still waits for exactly one
    /// readiness after it wrote.
    pub proof fn lemma_written_keeps_wf(
        pre: &Self,
        post: &Self,
        sent: Result<Seq<u8>, HandshakeError>,
    )
        requires
            pre.wf(),
            pre.interest.writable,
            Self::written(pre, post, sent),
        ensures
            post.wf(),
    {
    }

    /// A connection that was just accepted: it awaits the handshake with
    /// the given parser and waits for the socket to become readable.
    pub fn new(parser: P) -> (client: Self)
        ensures
            client.wf(),
            client.state == ClientState::AwaitingHandshake(parser),
            client.interest == EventSet::spec_readable(),
            client.queue() == Seq::<FrameView>::empty(),
            client.headers@ == Map::<Seq<u8>, Seq<u8>>::empty(),
    {
        let client = WebSocketClient {
            headers: Headers::new(),
            interest: EventSet::readable(),
            outgoing: Vec::new(),
            state: ClientState::AwaitingHandshake(parser),
        };
        client
    }

    /// What to do on a readable event: handshake bytes are expected while
    /// the handshake is awaited, a frame once connected, nothing between.
    pub fn read(&self) -> (step: ReadStep)
        ensures
            step == self.spec_read_step(),
    {
        match &self.state {
            ClientState::AwaitingHandshake(_) => ReadStep::Handshake,
            ClientState::HandshakeResponse => ReadStep::Nothing,
            ClientState::Connected => ReadStep::Frame,
        }
    }

    /// Takes in the outcome of one read attempt during the handshake and
    /// tells whether to read again at once. An upgrade request moves a
    /// connection that awaits the handshake on to the response; anything
    /// else changes nothing. Reading goes on as long as bytes arrived
    /// that did not complete the upgrade.
    pub fn read_handshake(&mut self, outcome: HandshakeRead) -> (again: bool)
        ensures
            Self::handshake_read(old(self), final(self), outcome, again),
    {
        match outcome {
            HandshakeRead::NoData => false,
            HandshakeRead::Failed => false,
            HandshakeRead::Incomplete => true,
            HandshakeRead::Upgrade(headers) => {
                let awaiting: bool = match &self.state {
                    ClientState::AwaitingHandshake(_) => true,
                    _ => false,
                };
                if awaiting {
                    self.state = ClientState::HandshakeResponse;
                    self.headers = headers;
                    self.interest.remove(EventSet::readable());
                    self.interest.insert(EventSet::writable());
                    false
                } else {
                    true
                }
            },
        }
    }

    /// Takes in one received frame: queues the answer that its opcode
    /// calls for and turns the connection from reading to writing.
    pub fn on_frame(&mut self, frame: &WebSocketFrame)
        ensures
            Self::frame_received(old(self), final(self), frame@),
    {
        match frame.get_opcode() {
            OpCode::TextFrame => {
                let reply: WebSocketFrame = WebSocketFrame::from("hi there!");
                self.outgoing.push(reply);
            },
            OpCode::Ping => {
                let reply: WebSocketFrame = WebSocketFrame::pong(frame);
                self.outgoing.push(reply);
            },
            OpCode::ConnectionClose => {
                let reply: WebSocketFrame = WebSocketFrame::close_from(frame);
                self.outgoing.push(reply);
            },
            _ => {},
        }
        self.interest.remove(EventSet::readable());
        self.interest.insert(EventSet::writable());
        assert(self.queue() =~= old(self).queue() + spec_replies(frame@));
    }

    /// Decodes the frame at the start of `input`, the bytes read from the
    /// socket, and takes it in as `on_frame` does. Where no frame can be
    /// decoded the connection is left as it was and the error returned,
    /// for the owner of the connection to close it.
    pub fn read_frame(&mut self, input: &[u8]) -> (r: Result<(), DecodeError>)
        ensures
            Self::frame_read(old(self), final(self), input@, r),
    {
        match WebSocketFrame::read(input) {
            Ok((frame, _)) => {
                self.on_frame(&frame);
                Ok(())
            },
            Err(e) => Err(e),
        }
    }

    /// Composes the handshake response from the client key among the
    /// headers and establishes the connection. Without a key nothing
    /// changes and `MissingKey` is returned.
    pub fn write_handshake(&mut self) -> (r: Result<String, HandshakeError>)
        ensures
            match old(self).key() {
                Some(key) => r is Ok && r->Ok_0@ == spec_handshake_response(spec_gen_key(key))
                    && Self::handshake_answered(old(self), final(self)),
                None => r == Err::<String, HandshakeError>(HandshakeError::MissingKey)
                    && *final(self) == *old(self),
            },
    {
        let accept: String = match self.headers.get("Sec-WebSocket-Key".as_bytes()) {
            Some(key) => gen_key(key.as_slice()),
            None => {
                return Err(HandshakeError::MissingKey);
            },
        };
        let response: String = handshake_response(accept.as_str());
        self.state = ClientState::Connected;
        self.interest.remove(EventSet::writable());
        self.interest.insert(EventSet::readable());
        Ok(response)
    }

    /// Hands over the wire bytes of every queued frame, in order, and
    /// empties the queue. The connection then waits for the hangup if a
    /// close frame was among them, for the next frame otherwise.
    pub fn write_frames(&mut self) -> (bytes: Vec<u8>)
        ensures
            bytes@ == spec_encode_all(old(self).queue()),
            Self::queue_flushed(old(self), final(self)),
    {
        let mut bytes: Vec<u8> = Vec::new();
        let mut close_connection: bool = false;
        let n: usize = self.outgoing.len();
        let mut i: usize = 0;
        while i < n
            invariant
                i <= n,
                n == self.outgoing@.len(),
                *self == *old(self),
                bytes@ == spec_encode_all(self.queue().take(i as int)),
                close_connection == has_close(self.queue().take(i as int)),
            decreases n - i,
        {
            let ghost before = self.queue().take(i as int);
            let ghost after = self.queue().take(i + 1);
            assert(after.drop_last() =~= before);
            self.outgoing[i].write(&mut bytes);
            if self.outgoing[i].is_close() {
                close_connection = true;
            }
            proof {
                if has_close(before) {
                    let j = choose|j: int| 0 <= j < before.len() && is_close_at(before, j);
                    assert(is_close_at(after, j));
                }
                if is_close_at(after, i as int) {
                    assert(has_close(after));
                }
                if has_close(after) {
                    let j = choose|j: int| 0 <= j < after.len() && is_close_at(after, j);
                    if j < i {
                        assert(is_close_at(before, j));
                    }
                }
            }
            i += 1;
        }
        assert(self.queue().take(n as int) =~= self.queue());
        self.outgoing.clear();
        self.interest.remove(EventSet::writable());
        if close_connection {
            self.interest.insert(EventSet::hup());
        } else {
            self.interest.insert(EventSet::readable());
        }
        assert(self.queue() =~= Seq::<FrameView>::empty());
        bytes
    }

    /// What to send on a writable event: the handshake response where one
    /// is due, the queued frames once connected, nothing while the
    /// handshake is still awaited.
    pub fn write(&mut self) -> (r: Result<Vec<u8>, HandshakeError>)
        ensures
            Self::written(
                old(self),
                final(self),
                match r {
                    Ok(bytes) => Ok(bytes@),
                    Err(e) => Err(e),
                },
            ),
    {
        let step: u8 = match &self.state {
            ClientState::HandshakeResponse => 1,
            ClientState::Connected => 2,
            ClientState::AwaitingHandshake(_) => 0,
        };
        if step == 1 {
            match self.write_handshake() {
                Ok(response) => Ok(response.as_str().as_bytes_vec()),
                Err(e) => Err(e),
            }
        } else if step == 2 {
            Ok(self.write_frames())
        } else {
            Ok(Vec::new())
        }
    }
}

} // verus!
