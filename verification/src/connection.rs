//! The handling of one connection, as a state machine. The machine decides;
//! whoever drives it reads, loads and writes, and reports what came of it.
//!
//! A connection passes through its states in one direction only:
//! accepted, reading, (parsing,) routing, responding, closed. Parsing needs
//! nothing from outside, so the machine never rests in it: the step that
//! takes the received bytes parses them and routes the request.

use crate::request::{parse_bytes, HttpRequest, ParseError};
use crate::response::response_bytes;
use crate::router::{
    acknowledge, acknowledgment, resolve, resource_response, route, Action, Resource,
};
use vstd::prelude::*;

verus! {

/// The size of the buffer that receives a request. A connection is read
/// once, into a buffer of this size, and the whole buffer is handed over.
pub const RECEIVE_BUFFER_SIZE: usize = 2048;

/// Why the handling of a connection was given up.
#[derive(Debug, Clone, Copy, PartialEq, Eq)]
pub enum Failure {
    /// The connection could not be read.
    Read,
    /// What was read is no request.
    Parse(ParseError),
    /// The resource that the request asks for could not be loaded.
    Resource(Resource),
    /// The response could not be written.
    Write,
    /// An event arrived that the state does not wait for.
    Unexpected,
}

/// Where the handling of a connection stands.
#[derive(Debug, Clone, Copy, PartialEq, Eq)]
pub enum Connection {
    /// Handed over by the listener; nothing has been done yet.
    Accepted,
    /// Waiting for the bytes of the request.
    Reading,
    /// The request asks for a resource; waiting for its contents.
    Routing(Resource),
    /// The response is being written.
    Responding,
    /// Nothing more will be done.
    Closed,
}

/// What happened outside.
#[derive(Debug, PartialEq, Eq)]
pub enum Event {
    /// The connection was handed over.
    Accepted,
    /// The connection was read; this is the receive buffer, all of it.
    Received(Vec<u8>),
    /// The resource was loaded; this is its text.
    Loaded(String),
    /// The response was written and flushed.
    Sent,
    /// What the last command asked for could not be done.
    Failed,
}

/// What is to be done outside.
#[derive(Debug, PartialEq, Eq)]
pub enum Command {
    /// Read the connection once, into a zeroed buffer of this many bytes.
    Read(usize),
    /// Load the text of this resource.
    Load(Resource),
    /// Write these bytes to the connection and flush it.
    Send(Vec<u8>),
    /// Let the connection go; its handling is complete.
    Close,
    /// Let the connection go; its handling has failed.
    Abort(Failure),
}

/// What a command is.
pub enum CommandView {
    Read(usize),
    Load(Resource),
    Send(Seq<u8>),
    Close,
    Abort(Failure),
}

impl View for Command {
    type V = CommandView;

    open spec fn view(&self) -> CommandView {
        match *self {
            Command::Read(size) => CommandView::Read(size),
            Command::Load(resource) => CommandView::Load(resource),
            Command::Send(bytes) => CommandView::Send(bytes@),
            Command::Close => CommandView::Close,
            Command::Abort(failure) => CommandView::Abort(failure),
        }
    }
}

/// How far the handling of a connection has come.
pub open spec fn progress(state: Connection) -> nat {
    match state {
        Connection::Accepted => 0,
        Connection::Reading => 1,
        Connection::Routing(_) => 2,
        Connection::Responding => 3,
        Connection::Closed => 4,
    }
}

/// How the handling goes on for a request with this method and this path.
/// A request for a resource has the resource loaded. Every other request is
/// answered at once: the creation of a user with the acknowledgment, and a
/// request that no route matches with no bytes at all, which is no failure.
pub open spec fn dispatch_for(method: Seq<char>, path: Seq<char>) -> (Connection, CommandView) {
    match route(method, path) {
        Some(Action::Serve(resource)) => (
            Connection::Routing(resource),
            CommandView::Load(resource),
        ),
        Some(Action::CreateUser) => (
            Connection::Responding,
            CommandView::Send(response_bytes(acknowledgment())),
        ),
        None => (Connection::Responding, CommandView::Send(Seq::empty())),
    }
}

/// What follows from the bytes that were received. Bytes that are no
/// request end the handling; a request is dispatched by its method and its
/// path.
pub open spec fn answer(raw: Seq<u8>) -> (Connection, CommandView) {
    match parse_bytes(raw) {
        Err(e) => (Connection::Closed, CommandView::Abort(Failure::Parse(e))),
        Ok(request) => dispatch_for(request.method, request.path),
    }
}

/// The state that follows `state` on `event`, and the command that goes
/// with it.
pub open spec fn transition(state: Connection, event: Event) -> (Connection, CommandView) {
    match (state, event) {
        (Connection::Accepted, Event::Accepted) => (
            Connection::Reading,
            CommandView::Read(RECEIVE_BUFFER_SIZE),
        ),
        (Connection::Reading, Event::Received(raw)) => answer(raw@),
        (Connection::Reading, Event::Failed) => (
            Connection::Closed,
            CommandView::Abort(Failure::Read),
        ),
        (Connection::Routing(resource), Event::Loaded(contents)) => (
            Connection::Responding,
            CommandView::Send(response_bytes(resource_response(resource, contents@))),
        ),
        (Connection::Routing(resource), Event::Failed) => (
            Connection::Closed,
            CommandView::Abort(Failure::Resource(resource)),
        ),
        (Connection::Responding, Event::Sent) => (Connection::Closed, CommandView::Close),
        (Connection::Responding, Event::Failed) => (
            Connection::Closed,
            CommandView::Abort(Failure::Write),
        ),
        _ => (Connection::Closed, CommandView::Abort(Failure::Unexpected)),
    }
}

impl Connection {
    /// The handling of a connection that the listener has just handed over.
    pub fn new() -> (state: Self)
        ensures
            state == Connection::Accepted,
    {
        Connection::Accepted
    }

    /// Takes one step: from this state, on `event`, to the next state and
    /// the command that is to be carried out before the next step.
    pub fn step(self, event: Event) -> (r: (Connection, Command))
        ensures
            (r.0, r.1@) == transition(self, event),
            self != Connection::Closed ==> progress(r.0) > progress(self),
            self == Connection::Closed ==> r.0 == Connection::Closed,
    {
        match self {
            Connection::Accepted => match event {
                Event::Accepted => (Connection::Reading, Command::Read(RECEIVE_BUFFER_SIZE)),
                _ => (Connection::Closed, Command::Abort(Failure::Unexpected)),
            },
            Connection::Reading => match event {
                Event::Received(raw) => receive(raw.as_slice()),
                Event::Failed => (Connection::Closed, Command::Abort(Failure::Read)),
                _ => (Connection::Closed, Command::Abort(Failure::Unexpected)),
            },
            Connection::Routing(resource) => match event {
                Event::Loaded(contents) => (
                    Connection::Responding,
                    Command::Send(resource.respond(contents.as_str()).to_bytes()),
                ),
                Event::Failed => (Connection::Closed, Command::Abort(Failure::Resource(resource))),
                _ => (Connection::Closed, Command::Abort(Failure::Unexpected)),
            },
            Connection::Responding => match event {
                Event::Sent => (Connection::Closed, Command::Close),
                Event::Failed => (Connection::Closed, Command::Abort(Failure::Write)),
                _ => (Connection::Closed, Command::Abort(Failure::Unexpected)),
            },
            Connection::Closed => (Connection::Closed, Command::Abort(Failure::Unexpected)),
        }
    }
}

/// Routes a request by its method and its path, and says how the handling
/// goes on.
pub fn dispatch(method: &str, path: &str) -> (r: (Connection, Command))
    ensures
        (r.0, r.1@) == dispatch_for(method@, path@),
{
    match resolve(method, path) {
        Some(Action::Serve(resource)) => (Connection::Routing(resource), Command::Load(resource)),
        Some(Action::CreateUser) => (
            Connection::Responding,
            Command::Send(acknowledge().to_bytes()),
        ),
        None => (Connection::Responding, Command::Send(Vec::new())),
    }
}

/// Parses the received bytes, routes the request, and says how the
/// handling goes on.
pub fn receive(raw: &[u8]) -> (r: (Connection, Command))
    ensures
        (r.0, r.1@) == answer(raw@),
{
    match HttpRequest::from_bytes(raw) {
        Err(e) => (Connection::Closed, Command::Abort(Failure::Parse(e))),
        Ok(request) => dispatch(request.get_method(), request.get_path()),
    }
}

/// No step leads back: every step from a state other than the closed one
/// leads further, and the closed state is never left.
pub proof fn lemma_no_way_back(state: Connection, event: Event)
    ensures
        state != Connection::Closed ==> progress(transition(state, event).0) > progress(state),
        state == Connection::Closed ==> transition(state, event).0 == Connection::Closed,
{
}

/// A connection whose handling fails is closed by that very step.
pub proof fn lemma_failure_closes(state: Connection, event: Event)
    ensures
        transition(state, event).1 is Abort ==> transition(state, event).0 == Connection::Closed,
{
}

/// A request that no route matches is answered with no bytes: the
/// connection goes on to responding, and nothing fails.
pub proof fn lemma_unmatched_sends_nothing(method: Seq<char>, path: Seq<char>)
    requires
        route(method, path) is None,
    ensures
        dispatch_for(method, path) == (Connection::Responding, CommandView::Send(Seq::empty())),
{
}

} // verus!
