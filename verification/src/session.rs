//! The per-session lifecycle: `Connecting` to `Open` on handshake (the only
//! point a session is registered), `Open` to `Closing` on a close frame or a
//! lost transport, `Closing` to `Closed` at deregistration — the only place
//! a session leaves the registry. Pings in `Open` are answered without a
//! state change.

use vstd::prelude::*;

use crate::registry::Registry;
use crate::registry::SessionView;

verus! {

/// Relies on uuid's `Uuid::new_v4`, read out with `as_u128`: a freshly drawn
/// random session key. Nothing is promised of a random draw; the registry
/// replaces a colliding entry rather than holding two.
#[verifier::external_body]
pub(crate) fn fresh_session_key() -> u128 {
    uuid::Uuid::new_v4().as_u128()
}

/// Where a session stands in its life.
#[derive(Debug)]
pub enum SessionState {
    Connecting,
    Open,
    Closing,
    Closed,
}

/// What the transport handed the lifecycle manager: a keepalive ping with
/// its payload, a close control frame, any other frame, or the end of the
/// stream (peer gone or read error).
pub enum Inbound {
    Ping(Vec<u8>),
    Close,
    Other,
    Lost,
}

/// What the lifecycle manager must do with a frame: answer a pong carrying
/// the ping's payload, begin the close handshake, or nothing.
pub enum FrameAction {
    Pong(Vec<u8>),
    BeginClose,
    Ignore,
}

/// The lifecycle manager of one session: the sole owner of its receive side
/// and the only authority that may deregister it.
pub struct SessionLifecycle {
    pub state: SessionState,
    pub key: u128,
}

impl SessionLifecycle {
    /// A freshly accepted connection, not yet registered.
    pub fn accept() -> (manager: SessionLifecycle)
        ensures
            manager.state is Connecting,
    {
        let key = fresh_session_key();
        SessionLifecycle { state: SessionState::Connecting, key }
    }

    /// Completes the handshake: the session becomes `Open` and enters the
    /// registry, with an empty delivery stream, exactly now.
    pub fn open(&mut self, registry: &mut Registry)
        requires
            old(self).state is Connecting,
            old(registry).wf(),
        ensures
            final(self).state is Open,
            final(self).key == old(self).key,
            final(registry).wf(),
            !old(registry).has_key(old(self).key) ==> final(registry).entries() == old(
                registry,
            ).entries().push((SessionView { key: old(self).key, log: Seq::empty() })),
            old(registry).has_key(old(self).key) ==> final(registry).entries() == old(
                registry,
            ).entries().update(
                old(registry).index_of(old(self).key),
                (SessionView { key: old(self).key, log: Seq::empty() }),
            ),
    {
        registry.register(self.key);
        self.state = SessionState::Open;
    }

    /// Handles one frame received while `Open`: a ping is answered with a
    /// pong carrying the same payload and the session stays `Open`; a close
    /// frame or a lost transport moves it to `Closing`; anything else is
    /// ignored. The registry is never touched here.
    pub fn on_frame(&mut self, frame: Inbound) -> (action: FrameAction)
        requires
            old(self).state is Open,
        ensures
            final(self).key == old(self).key,
            match frame {
                Inbound::Ping(payload) => final(self).state is Open && action
                    == FrameAction::Pong(payload),
                Inbound::Close => final(self).state is Closing && action is BeginClose,
                Inbound::Lost => final(self).state is Closing && action is BeginClose,
                Inbound::Other => final(self).state is Open && action is Ignore,
            },
    {
        match frame {
            Inbound::Ping(payload) => FrameAction::Pong(payload),
            Inbound::Close => {
                self.state = SessionState::Closing;
                FrameAction::BeginClose
            },
            Inbound::Lost => {
                self.state = SessionState::Closing;
                FrameAction::BeginClose
            },
            Inbound::Other => FrameAction::Ignore,
        }
    }

    /// Ends the close handshake: the session becomes `Closed` and leaves the
    /// registry — the one and only removal point. Every other session keeps
    /// its key and its delivery stream exactly as they were.
    pub fn finish(&mut self, registry: &mut Registry)
        requires
            old(self).state is Closing,
            old(registry).wf(),
        ensures
            final(self).state is Closed,
            final(self).key == old(self).key,
            final(registry).wf(),
            !final(registry).has_key(old(self).key),
            !old(registry).has_key(old(self).key) ==> final(registry).entries() == old(
                registry,
            ).entries(),
            old(registry).has_key(old(self).key) ==> final(registry).entries() == old(
                registry,
            ).entries().remove(old(registry).index_of(old(self).key)),
    {
        registry.deregister(self.key);
        self.state = SessionState::Closed;
    }
}

} // verus!
