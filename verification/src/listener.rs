//! The listener, as a state machine: it binds one endpoint and then accepts
//! connections for as long as it runs. Whoever drives it binds, accepts and
//! starts the handlers, and reports what came of it.

use vstd::prelude::*;

verus! {

/// Where the listener stands.
#[derive(Debug, Clone, Copy, PartialEq, Eq)]
pub enum Listener {
    /// The endpoint is not bound yet.
    Binding,
    /// The endpoint is bound; connections are accepted.
    Listening,
    /// The listener has given up.
    Stopped,
}

/// What happened outside.
#[derive(Debug, Clone, Copy, PartialEq, Eq)]
pub enum ListenerEvent {
    /// The endpoint was bound.
    Bound,
    /// The endpoint could not be bound.
    BindFailed,
    /// A connection was accepted.
    Connected,
    /// An attempt to accept a connection failed.
    AcceptFailed,
}

/// What is to be done outside.
#[derive(Debug, Clone, Copy, PartialEq, Eq)]
pub enum ListenerCommand {
    /// Wait for the next connection.
    Accept,
    /// Start a handler of its own for the accepted connection, without
    /// waiting for it, then wait for the next connection.
    Dispatch,
    /// Report the failed attempt, then wait for the next connection.
    Report,
    /// End the process.
    Terminate,
}

/// The state that follows `state` on `event`, and the command that goes
/// with it. Only a failure to bind stops the listener; what becomes of an
/// accepted connection is no event of the listener at all.
pub open spec fn listener_transition(state: Listener, event: ListenerEvent) -> (
    Listener,
    ListenerCommand,
) {
    match (state, event) {
        (Listener::Binding, ListenerEvent::Bound) => (Listener::Listening, ListenerCommand::Accept),
        (Listener::Listening, ListenerEvent::Connected) => (
            Listener::Listening,
            ListenerCommand::Dispatch,
        ),
        (Listener::Listening, ListenerEvent::AcceptFailed) => (
            Listener::Listening,
            ListenerCommand::Report,
        ),
        _ => (Listener::Stopped, ListenerCommand::Terminate),
    }
}

impl Listener {
    /// A listener that has yet to bind its endpoint.
    pub fn new() -> (state: Self)
        ensures
            state == Listener::Binding,
    {
        Listener::Binding
    }

    /// Takes one step: from this state, on `event`, to the next state and
    /// the command that is to be carried out before the next step.
    pub fn step(self, event: ListenerEvent) -> (r: (Listener, ListenerCommand))
        ensures
            r == listener_transition(self, event),
    {
        match self {
            Listener::Binding => match event {
                ListenerEvent::Bound => (Listener::Listening, ListenerCommand::Accept),
                _ => (Listener::Stopped, ListenerCommand::Terminate),
            },
            Listener::Listening => match event {
                ListenerEvent::Connected => (Listener::Listening, ListenerCommand::Dispatch),
                ListenerEvent::AcceptFailed => (Listener::Listening, ListenerCommand::Report),
                _ => (Listener::Stopped, ListenerCommand::Terminate),
            },
            Listener::Stopped => (Listener::Stopped, ListenerCommand::Terminate),
        }
    }
}

/// The address of the endpoint: the host, a colon, the port. Neither is
/// looked into.
pub fn endpoint(hostname: &str, port: &str) -> (address: String)
    ensures
        address@ == hostname@ + seq![':'] + port@,
{
    let mut address = String::from_str(hostname);
    address.append(":");
    address.append(port);
    proof {
        reveal_strlit(":");
    }
    address
}

/// Once it listens, the listener goes on listening whatever an attempt to
/// accept brings: neither a connection nor a failed attempt stops it.
pub proof fn lemma_listening_goes_on(event: ListenerEvent)
    requires
        event == ListenerEvent::Connected || event == ListenerEvent::AcceptFailed,
    ensures
        listener_transition(Listener::Listening, event).0 == Listener::Listening,
{
}

} // verus!
