//! The life of one connection as a state machine.
//!
//! The machine decides; its caller does the outside work. The caller starts
//! in [`State::Reading`], performs the one read, and hands the result in as
//! an [`Event`]. Each [`step`] answers with the next state and the
//! [`Action`] to perform, whose result is the next event, until the action is
//! [`Action::Close`].
//!
//! Parsing and routing need no outside work and happen inside the step that
//! leaves `Reading`. A request to the file route leaves the connection
//! waiting for the file system, in `Loading` or `Storing`.

use vstd::prelude::*;
use crate::config::ServerConfig;
use crate::decode::{decode, decoded};
use crate::handlers::{dispatch, dispatch_of, download_response, file_loaded, file_stored,
    read_view, Dispatch, DispatchView, FileRequest, FileRequestView};
use crate::bytes::text;
use crate::request::{parse, parse_request, ParseError};
use crate::response::{bare, wire};

verus! {

/// Where a connection stands.
#[derive(Clone, Copy, Debug, PartialEq, Eq)]
pub enum State {
    /// Waiting for the read of the socket.
    Reading,
    /// A download is under way: waiting for the file's contents.
    Loading,
    /// An upload is under way: waiting for the file to be written.
    Storing,
    /// Waiting for the response to be written and flushed.
    Responding,
    /// Finished. Nothing revives a closed connection.
    Closed,
}

/// Why a connection ended without having been served.
#[derive(Clone, Copy, Debug, PartialEq, Eq)]
pub enum ConnectionError {
    /// The read of the socket failed.
    ReadFailure,
    /// What was read is not a request.
    ParseFailure(ParseError),
    /// The upload could not be created or written.
    HandlerFailure,
    /// The response could not be written or flushed.
    WriteFailure,
    /// An event arrived that the connection's state does not await.
    UnexpectedEvent,
}

/// How a connection ended.
#[derive(Clone, Copy, Debug, PartialEq, Eq)]
pub enum Outcome {
    /// A response was sent.
    Served,
    /// The read brought no bytes: the connection ends without a response,
    /// and without an error.
    EmptyRead,
    /// The connection ends without a complete response.
    Failed(ConnectionError),
}

/// What the outside world reports to a connection.
#[derive(Clone, Debug, PartialEq, Eq)]
pub enum Event {
    /// The read returned these bytes.
    Received(Vec<u8>),
    /// The read failed.
    ReadFailed,
    /// The file was read, or could not be read (`None`).
    Loaded(Option<Vec<u8>>),
    /// The file was created and written.
    Stored,
    /// The file could not be created or written.
    StoreFailed,
    /// The response was written and flushed.
    Sent,
    /// Writing or flushing the response failed.
    SendFailed,
}

/// The mathematical content of an [`Event`].
pub enum EventView {
    Received(Seq<u8>),
    ReadFailed,
    Loaded(Option<Seq<u8>>),
    Stored,
    StoreFailed,
    Sent,
    SendFailed,
}

impl View for Event {
    type V = EventView;

    open spec fn view(&self) -> EventView {
        match self {
            Event::Received(bytes) => EventView::Received(bytes@),
            Event::ReadFailed => EventView::ReadFailed,
            Event::Loaded(contents) => EventView::Loaded(read_view(*contents)),
            Event::Stored => EventView::Stored,
            Event::StoreFailed => EventView::StoreFailed,
            Event::Sent => EventView::Sent,
            Event::SendFailed => EventView::SendFailed,
        }
    }
}

/// What a connection asks its caller to do next.
#[derive(Clone, Debug, PartialEq, Eq)]
pub enum Action {
    /// Read the file at this path and report [`Event::Loaded`].
    Load(Vec<u8>),
    /// Create or overwrite the file at this path with this content and
    /// report [`Event::Stored`] or [`Event::StoreFailed`].
    Store(Vec<u8>, Vec<u8>),
    /// Write these bytes to the socket, flush, and report [`Event::Sent`] or
    /// [`Event::SendFailed`].
    Send(Vec<u8>),
    /// Close the connection.
    Close(Outcome),
}

/// The mathematical content of an [`Action`].
pub enum ActionView {
    Load(Seq<u8>),
    Store(Seq<u8>, Seq<u8>),
    Send(Seq<u8>),
    Close(Outcome),
}

impl View for Action {
    type V = ActionView;

    open spec fn view(&self) -> ActionView {
        match self {
            Action::Load(path) => ActionView::Load(path@),
            Action::Store(path, content) => ActionView::Store(path@, content@),
            Action::Send(bytes) => ActionView::Send(bytes@),
            Action::Close(outcome) => ActionView::Close(*outcome),
        }
    }
}

/// The step that ends a connection.
pub open spec fn close(outcome: Outcome) -> (State, ActionView) {
    (State::Closed, ActionView::Close(outcome))
}

/// The step that carries out a dispatch: a reply is sent, a file operation is
/// handed to the caller.
pub open spec fn carry_out(dispatch: DispatchView) -> (State, ActionView) {
    match dispatch {
        DispatchView::Reply(response) => (State::Responding, ActionView::Send(wire(response))),
        DispatchView::File(FileRequestView::Load { path }) => (
            State::Loading,
            ActionView::Load(path),
        ),
        DispatchView::File(FileRequestView::Store { path, content }) => (
            State::Storing,
            ActionView::Store(path, content),
        ),
    }
}

/// What a connection does with the bytes of its read: nothing where there
/// are none; otherwise it decodes them, parses the text and dispatches the
/// request.
pub open spec fn on_received(directory: Seq<u8>, bytes: Seq<u8>) -> (State, ActionView) {
    if bytes.len() == 0 {
        close(Outcome::EmptyRead)
    } else {
        match parse(decoded(bytes)) {
            Err(e) => close(Outcome::Failed(ConnectionError::ParseFailure(e))),
            Ok(request) => carry_out(dispatch_of(directory, request)),
        }
    }
}

/// The transition function: the next state and the action to perform, for a
/// state, the directory served and an event.
pub open spec fn step_of(state: State, directory: Seq<u8>, event: EventView) -> (
    State,
    ActionView,
) {
    match (state, event) {
        (State::Reading, EventView::Received(bytes)) => on_received(directory, bytes),
        (State::Reading, EventView::ReadFailed) => close(
            Outcome::Failed(ConnectionError::ReadFailure),
        ),
        (State::Loading, EventView::Loaded(contents)) => (
            State::Responding,
            ActionView::Send(wire(download_response(contents))),
        ),
        (State::Storing, EventView::Stored) => (
            State::Responding,
            ActionView::Send(wire(bare(text("201")))),
        ),
        (State::Storing, EventView::StoreFailed) => close(
            Outcome::Failed(ConnectionError::HandlerFailure),
        ),
        (State::Responding, EventView::Sent) => close(Outcome::Served),
        (State::Responding, EventView::SendFailed) => close(
            Outcome::Failed(ConnectionError::WriteFailure),
        ),
        _ => close(Outcome::Failed(ConnectionError::UnexpectedEvent)),
    }
}

/// The view of a step's result.
pub open spec fn step_view(r: (State, Action)) -> (State, ActionView) {
    (r.0, r.1@)
}

/// Handles the bytes that the read of a connection returned.
pub fn receive(config: &ServerConfig, bytes: &[u8]) -> (r: (State, Action))
    ensures
        step_view(r) == on_received(config.static_directory@, bytes@),
{
    if bytes.len() == 0 {
        return (State::Closed, Action::Close(Outcome::EmptyRead));
    }
    let text = decode(bytes);
    match parse_request(text.as_slice()) {
        Err(e) => (State::Closed, Action::Close(Outcome::Failed(ConnectionError::ParseFailure(e)))),
        Ok(request) => match dispatch(config, &request) {
            Dispatch::Reply(response) => (State::Responding, Action::Send(response.to_bytes())),
            Dispatch::File(FileRequest::Load { path }) => (State::Loading, Action::Load(path)),
            Dispatch::File(FileRequest::Store { path, content }) => (
                State::Storing,
                Action::Store(path, content),
            ),
        },
    }
}

/// Advances a connection by one event.
pub fn step(state: State, config: &ServerConfig, event: Event) -> (r: (State, Action))
    ensures
        step_view(r) == step_of(state, config.static_directory@, event@),
{
    match (state, event) {
        (State::Reading, Event::Received(bytes)) => receive(config, bytes.as_slice()),
        (State::Reading, Event::ReadFailed) => (
            State::Closed,
            Action::Close(Outcome::Failed(ConnectionError::ReadFailure)),
        ),
        (State::Loading, Event::Loaded(contents)) => (
            State::Responding,
            Action::Send(file_loaded(contents).to_bytes()),
        ),
        (State::Storing, Event::Stored) => (
            State::Responding,
            Action::Send(file_stored().to_bytes()),
        ),
        (State::Storing, Event::StoreFailed) => (
            State::Closed,
            Action::Close(Outcome::Failed(ConnectionError::HandlerFailure)),
        ),
        (State::Responding, Event::Sent) => (State::Closed, Action::Close(Outcome::Served)),
        (State::Responding, Event::SendFailed) => (
            State::Closed,
            Action::Close(Outcome::Failed(ConnectionError::WriteFailure)),
        ),
        _ => (State::Closed, Action::Close(Outcome::Failed(ConnectionError::UnexpectedEvent))),
    }
}

} // verus!
