//! The registry of connections: handles are given out in rising order and
//! never again, readiness events are routed to the connection they name,
//! and every answer carries the readiness to register for next.

use crate::client::{
    ClientState, EventSet, HandshakeError, HandshakeRead, ReadStep, WebSocketClient,
};
use crate::codec::spec_read;
use crate::frame::{DecodeError, FrameView};
use std::collections::HashMap;
use vstd::prelude::*;

verus! {

/// The handle of the listening socket. No connection ever gets it.
pub const SERVER_TOKEN: usize = 0;

/// The steps that one readiness event calls for, in the order in which
/// they are taken.
#[derive(Debug, Clone, Copy, PartialEq, Eq, Structural)]
pub struct ReadySteps {
    /// Accept a new connection from the listener.
    pub accept: bool,
    /// Let the connection read.
    pub read: bool,
    /// Let the connection write.
    pub write: bool,
    /// Tear the connection down.
    pub hangup: bool,
}

/// What the bytes read on a readable event of a connection come to.
#[derive(Debug, Clone, Copy, PartialEq, Eq, Structural)]
pub enum FrameStep {
    /// No connection has this handle.
    Unknown,
    /// A frame was taken in. Register for this readiness.
    Received(EventSet),
    /// No frame could be decoded, so the byte stream is out of step. The
    /// connection has left the registry; shut its socket down.
    Close(DecodeError),
}

/// What a writable event on a connection comes to.
#[derive(Debug)]
pub enum WriteStep {
    /// No connection has this handle.
    Unknown,
    /// Send these bytes, then register for this readiness.
    Send(Vec<u8>, EventSet),
    /// The handshake cannot be answered. The connection has left the
    /// registry; shut its socket down.
    Close,
}

/// Every connection of the process, by handle, and the handle that the
/// next connection will get.
pub struct WebSocketServer<P> {
    pub clients: HashMap<usize, WebSocketClient<P>>,
    pub token_counter: usize,
}

impl<P> WebSocketServer<P> {
    /// Every handle in use lies above the listener's and below the next
    /// one to be given out.
    pub open spec fn wf(&self) -> bool {
        &&& SERVER_TOKEN < self.token_counter
        &&& forall|token: usize| #[trigger]
            self.clients@.contains_key(token) ==> SERVER_TOKEN < token < self.token_counter
    }

    /// `post` holds the connections and the next handle that `pre` holds.
    pub open spec fn unchanged(pre: &Self, post: &Self) -> bool {
        &&& post.clients@ == pre.clients@
        &&& post.token_counter == pre.token_counter
    }

    /// The steps that an event on `token` calls for: a readable listener
    /// accepts, a readable connection reads; writable and hangup go to the
    /// connection as they are.
    pub open spec fn spec_ready(token: usize, events: EventSet) -> ReadySteps {
        ReadySteps {
            accept: events.readable && token == SERVER_TOKEN,
            read: events.readable && token != SERVER_TOKEN,
            write: events.writable,
            hangup: events.hup,
        }
    }

    /// `post` holds what `pre` holds but for the connection `token`, which
    /// is the one that `post` has there.
    pub open spec fn client_replaced_at(pre: &Self, post: &Self, token: usize) -> bool {
        post.clients@ == pre.clients@.insert(token, post.clients@[token])
    }

    /// In a well-formed registry the next handle is in use nowhere, so a
    /// handle is never given out twice.
    pub proof fn lemma_next_handle_unused(&self)
        requires
            self.wf(),
        ensures
            !self.clients@.contains_key(self.token_counter),
            self.token_counter != SERVER_TOKEN,
    {
    }

    /// A registry without connections. The first handle is 1.
    pub fn new() -> (server: Self)
        ensures
            server.wf(),
            server.clients@ == Map::<usize, WebSocketClient<P>>::empty(),
            server.token_counter == 1,
    {
        WebSocketServer { clients: HashMap::new(), token_counter: 1 }
    }

    /// Tells which steps an event on `token` calls for.
    pub fn ready(token: usize, events: EventSet) -> (steps: ReadySteps)
        ensures
            steps == Self::spec_ready(token, events),
    {
        ReadySteps {
            accept: events.is_readable() && token == SERVER_TOKEN,
            read: events.is_readable() && token != SERVER_TOKEN,
            write: events.is_writable(),
            hangup: events.is_hup(),
        }
    }

    /// Takes in a connection that the listener accepted and gives it the
    /// next handle, which in a well-formed registry no connection had
    /// before. The connection awaits the handshake and is to be registered
    /// as readable. `None`, and no change, only when the handles have run
    /// out.
    pub fn accept(&mut self, parser: P) -> (token: Option<usize>)
        ensures
            old(self).wf() ==> final(self).wf(),
            match token {
                Some(t) => {
                    &&& t == old(self).token_counter
                    &&& final(self).token_counter == t + 1
                    &&& final(self).clients@.contains_key(t)
                    &&& Self::client_replaced_at(old(self), final(self), t)
                    &&& final(self).clients@[t].state == ClientState::AwaitingHandshake(parser)
                    &&& final(self).clients@[t].interest == EventSet::spec_readable()
                    &&& final(self).clients@[t].queue() == Seq::<FrameView>::empty()
                    &&& final(self).clients@[t].headers@ == Map::<Seq<u8>, Seq<u8>>::empty()
                    &&& old(self).wf() ==> t != SERVER_TOKEN && !old(self).clients@.contains_key(t)
                },
                None => old(self).token_counter == usize::MAX && Self::unchanged(
                    old(self),
                    final(self),
                ),
            },
    {
        broadcast use vstd::std_specs::hash::group_hash_axioms;

        if self.token_counter == usize::MAX {
            return None;
        }
        let new_token: usize = self.token_counter;
        let client: WebSocketClient<P> = WebSocketClient::new(parser);
        self.clients.insert(new_token, client);
        self.token_counter = new_token + 1;
        Some(new_token)
    }

    /// What a readable event on the connection `token` asks the caller to
    /// do. `None` where no connection has that handle.
    pub fn read(&self, token: usize) -> (step: Option<ReadStep>)
        ensures
            match step {
                Some(s) => self.clients@.contains_key(token) && s == WebSocketClient::spec_read_step(
                    &self.clients@[token],
                ),
                None => !self.clients@.contains_key(token),
            },
    {
        broadcast use vstd::std_specs::hash::group_hash_axioms;

        match self.clients.get(&token) {
            Some(client) => Some(client.read()),
            None => None,
        }
    }

    /// The readiness that the connection `token` waits for. `None` where
    /// no connection has that handle.
    pub fn interest(&self, token: usize) -> (interest: Option<EventSet>)
        ensures
            match interest {
                Some(set) => self.clients@.contains_key(token) && set
                    == self.clients@[token].interest,
                None => !self.clients@.contains_key(token),
            },
    {
        broadcast use vstd::std_specs::hash::group_hash_axioms;

        match self.clients.get(&token) {
            Some(client) => Some(client.interest),
            None => None,
        }
    }


    /// Hands the outcome of one handshake read to the connection `token`
    /// and returns whether to read again at once, with the readiness to
    /// register for. `None`, and no change, where no connection has that
    /// handle.
    pub fn read_handshake(&mut self, token: usize, outcome: HandshakeRead) -> (r: Option<
        (bool, EventSet),
    >)
        ensures
            old(self).wf() ==> final(self).wf(),
            match r {
                Some((again, interest)) => {
                    &&& old(self).clients@.contains_key(token)
                    &&& final(self).clients@.contains_key(token)
                    &&& Self::client_replaced_at(old(self), final(self), token)
                    &&& final(self).token_counter == old(self).token_counter
                    &&& WebSocketClient::handshake_read(
                        &old(self).clients@[token],
                        &final(self).clients@[token],
                        outcome,
                        again,
                    )
                    &&& interest == final(self).clients@[token].interest
                },
                None => !old(self).clients@.contains_key(token) && Self::unchanged(
                    old(self),
                    final(self),
                ),
            },
    {
        broadcast use vstd::std_specs::hash::group_hash_axioms;

        match self.clients.remove(&token) {
            Some(client) => {
                let mut client: WebSocketClient<P> = client;
                let again: bool = client.read_handshake(outcome);
                let interest: EventSet = client.interest;
                self.clients.insert(token, client);
                assert(self.clients@ =~= old(self).clients@.insert(token, client));
                Some((again, interest))
            },
            None => {
                assert(self.clients@ =~= old(self).clients@);
                None
            },
        }
    }

    /// Hands the bytes read from the socket of the connection `token` to
    /// it. Where they hold a frame it is taken in, and the readiness to
    /// register for is returned. Where they do not, that connection alone
    /// is closed: it leaves the registry and `Close` names the error.
    pub fn read_frame(&mut self, token: usize, input: &[u8]) -> (step: FrameStep)
        ensures
            old(self).wf() ==> final(self).wf(),
            final(self).token_counter == old(self).token_counter,
            match step {
                FrameStep::Unknown => !old(self).clients@.contains_key(token) && Self::unchanged(
                    old(self),
                    final(self),
                ),
                FrameStep::Received(interest) => {
                    &&& old(self).clients@.contains_key(token)
                    &&& final(self).clients@.contains_key(token)
                    &&& Self::client_replaced_at(old(self), final(self), token)
                    &&& spec_read(input@) is Ok
                    &&& WebSocketClient::frame_read(
                        &old(self).clients@[token],
                        &final(self).clients@[token],
                        input@,
                        Ok(()),
                    )
                    &&& interest == final(self).clients@[token].interest
                },
                FrameStep::Close(e) => {
                    &&& old(self).clients@.contains_key(token)
                    &&& spec_read(input@) == Err::<(FrameView, nat), DecodeError>(e)
                    &&& final(self).clients@ == old(self).clients@.remove(token)
                },
            },
    {
        broadcast use vstd::std_specs::hash::group_hash_axioms;

        match self.clients.remove(&token) {
            Some(client) => {
                let mut client: WebSocketClient<P> = client;
                match client.read_frame(input) {
                    Ok(()) => {
                        let interest: EventSet = client.interest;
                        self.clients.insert(token, client);
                        assert(self.clients@ =~= old(self).clients@.insert(token, client));
                        FrameStep::Received(interest)
                    },
                    Err(e) => FrameStep::Close(e),
                }
            },
            None => {
                assert(self.clients@ =~= old(self).clients@);
                FrameStep::Unknown
            },
        }
    }

    /// Lets the connection `token` write: returns the bytes to send and
    /// the readiness to register for next. Where the handshake cannot be
    /// answered for want of a key, that connection alone is closed: it
    /// leaves the registry and `Close` is returned.
    pub fn write(&mut self, token: usize) -> (step: WriteStep)
        ensures
            old(self).wf() ==> final(self).wf(),
            match step {
                WriteStep::Unknown => !old(self).clients@.contains_key(token) && Self::unchanged(
                    old(self),
                    final(self),
                ),
                WriteStep::Send(bytes, interest) => {
                    &&& old(self).clients@.contains_key(token)
                    &&& final(self).clients@.contains_key(token)
                    &&& Self::client_replaced_at(old(self), final(self), token)
                    &&& final(self).token_counter == old(self).token_counter
                    &&& WebSocketClient::written(
                        &old(self).clients@[token],
                        &final(self).clients@[token],
                        Ok(bytes@),
                    )
                    &&& interest == final(self).clients@[token].interest
                },
                WriteStep::Close => {
                    &&& old(self).clients@.contains_key(token)
                    &&& old(self).clients@[token].state is HandshakeResponse
                    &&& old(self).clients@[token].key() is None
                    &&& final(self).clients@ == old(self).clients@.remove(token)
                    &&& final(self).token_counter == old(self).token_counter
                },
            },
    {
        broadcast use vstd::std_specs::hash::group_hash_axioms;

        match self.clients.remove(&token) {
            Some(client) => {
                let mut client: WebSocketClient<P> = client;
                match client.write() {
                    Ok(bytes) => {
                        let interest: EventSet = client.interest;
                        self.clients.insert(token, client);
                        assert(self.clients@ =~= old(self).clients@.insert(token, client));
                        WriteStep::Send(bytes, interest)
                    },
                    Err(HandshakeError::MissingKey) => WriteStep::Close,
                }
            },
            None => {
                assert(self.clients@ =~= old(self).clients@);
                WriteStep::Unknown
            },
        }
    }

    /// Takes the connection `token` out of the registry after a hangup
    /// and hands it back, for its socket to be shut down. Its handle is
    /// not given out again.
    pub fn hangup(&mut self, token: usize) -> (client: Option<WebSocketClient<P>>)
        ensures
            old(self).wf() ==> final(self).wf(),
            final(self).token_counter == old(self).token_counter,
            final(self).clients@ == old(self).clients@.remove(token),
            match client {
                Some(c) => old(self).clients@.contains_key(token) && c == old(self).clients@[token],
                None => !old(self).clients@.contains_key(token),
            },
    {
        broadcast use vstd::std_specs::hash::group_hash_axioms;

        self.clients.remove(&token)
    }
}

} // verus!
