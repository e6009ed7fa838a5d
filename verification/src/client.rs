//! The client: what it knows of its connection, and the connection procedure
//! as a step function. The client performs no I/O. It says what to do next,
//! and is told how that went.

use vstd::prelude::*;

use crate::discovery::{base_directory, candidates, endpoints, first_set, Platform};
use crate::error::ClientError;
use crate::json::json_model;
use crate::protocol::{
    command_frame, command_result, fits_frame, framed, fresh_nonce, handshake, handshake_bytes,
    handshake_doc, is_nonce, received, recv, Payload,
};
use serde_json::Value;

verus! {

/// How far a connection attempt has come.
#[derive(Clone, Copy, Debug, PartialEq, Eq, Structural)]
pub enum Phase {
    /// No attempt is under way.
    Idle,
    /// An endpoint is being opened.
    Opening,
    /// The handshake was sent on the opened endpoint; its answer is awaited.
    Greeting,
}

/// What the driver reports back.
#[derive(Debug, PartialEq, Eq)]
pub enum ConnectEvent {
    /// The endpoint was opened.
    Opened,
    /// The endpoint could not be opened.
    OpenFailed,
    /// These bytes were read in answer to the handshake.
    Replied(Vec<u8>),
    /// Writing the handshake or reading its answer failed.
    TransportFailed,
}

/// What the driver is to do next.
#[derive(Debug, PartialEq, Eq)]
pub enum ConnectAction {
    /// Open this endpoint, dropping any handle held, and report `Opened` or
    /// `OpenFailed`.
    Open(String),
    /// Write these bytes to the opened endpoint, read one answer, and report
    /// `Replied` or `TransportFailed`.
    Greet(Vec<u8>),
    /// Stop: the attempt has ended, this way.
    Done(Result<(), ClientError>),
}

/// A `ConnectEvent` as a mathematical value.
pub ghost enum EventView {
    Opened,
    OpenFailed,
    Replied(Seq<u8>),
    TransportFailed,
}

/// A `ConnectAction` as a mathematical value.
pub ghost enum ActionView {
    Open(Seq<char>),
    Greet(Seq<u8>),
    Done(Result<(), ClientError>),
}

impl View for ConnectEvent {
    type V = EventView;

    open spec fn view(&self) -> EventView {
        match self {
            ConnectEvent::Opened => EventView::Opened,
            ConnectEvent::OpenFailed => EventView::OpenFailed,
            ConnectEvent::Replied(bytes) => EventView::Replied(bytes@),
            ConnectEvent::TransportFailed => EventView::TransportFailed,
        }
    }
}

impl View for ConnectAction {
    type V = ActionView;

    open spec fn view(&self) -> ActionView {
        match self {
            ConnectAction::Open(endpoint) => ActionView::Open(endpoint@),
            ConnectAction::Greet(frame) => ActionView::Greet(frame@),
            ConnectAction::Done(outcome) => ActionView::Done(*outcome),
        }
    }
}

/// A client as a mathematical value.
pub ghost struct ClientState {
    /// The application identifier.
    pub id: Seq<char>,
    /// Whether a handshake has succeeded on the endpoint now held.
    pub is_connected: bool,
    pub phase: Phase,
    /// The endpoints of the attempt under way that have not been tried yet,
    /// in the order in which they will be.
    pub untried: Seq<Seq<char>>,
}

/// The attempt fails for good: not connected, nothing under way.
pub open spec fn give_up(s: ClientState) -> (ClientState, ActionView) {
    (
        ClientState { is_connected: false, phase: Phase::Idle, untried: Seq::empty(), ..s },
        ActionView::Done(Err(ClientError::DiscordNotFound)),
    )
}

/// Moves on to the next endpoint not yet tried, or gives up where none is left.
pub open spec fn advance(s: ClientState) -> (ClientState, ActionView) {
    if s.untried.len() == 0 {
        give_up(s)
    } else {
        (
            ClientState {
                is_connected: false,
                phase: Phase::Opening,
                untried: s.untried.drop_first(),
                ..s
            },
            ActionView::Open(s.untried[0]),
        )
    }
}

/// Starts an attempt over `list`, whatever stood before.
pub open spec fn begin(s: ClientState, list: Seq<Seq<char>>) -> (ClientState, ActionView) {
    advance(ClientState { untried: list, ..s })
}

/// The end of a handshake. Where its answer decoded, the client is connected
/// and the attempt ends; where not, the attempt moves on. Where no handshake
/// was under way, the attempt ends in failure.
pub open spec fn conclude(s: ClientState, welcomed: bool) -> (ClientState, ActionView) {
    if s.phase != Phase::Greeting {
        give_up(s)
    } else if welcomed {
        (
            ClientState { is_connected: true, phase: Phase::Idle, untried: Seq::empty(), ..s },
            ActionView::Done(Ok(())),
        )
    } else {
        advance(s)
    }
}

/// The next state and action on an event.
///
/// An opened endpoint is greeted. An endpoint that does not open, a
/// handshake that cannot be written or answered, and an answer that does not
/// decode each move the attempt on to the next endpoint. An answer that
/// decodes connects the client and ends the attempt. An event that answers
/// nothing the client asked for ends the attempt in failure.
pub open spec fn react(s: ClientState, event: EventView) -> (ClientState, ActionView) {
    match (s.phase, event) {
        (Phase::Opening, EventView::Opened) => if fits_frame(handshake_doc(s.id)) {
            (
                ClientState { is_connected: false, phase: Phase::Greeting, ..s },
                ActionView::Greet(handshake_bytes(s.id)),
            )
        } else {
            advance(s)
        },
        (Phase::Opening, EventView::OpenFailed) => advance(s),
        (Phase::Greeting, EventView::Replied(bytes)) => conclude(s, received(bytes) is Ok),
        (Phase::Greeting, EventView::TransportFailed) => advance(s),
        _ => give_up(s),
    }
}

/// Client used to communicate with the host application.
#[derive(Debug)]
pub struct DiscordClient {
    /// The application identifier, as issued by the host platform.
    pub id: String,
    /// Whether the client is connected to the host application.
    pub is_connected: bool,
    /// How far the connection attempt under way has come.
    pub phase: Phase,
    /// The candidate endpoints of the last attempt, in the order of trial.
    pub endpoints: Vec<String>,
    /// How many of `endpoints` have been tried.
    pub cursor: usize,
}

impl View for DiscordClient {
    type V = ClientState;

    open spec fn view(&self) -> ClientState {
        ClientState {
            id: self.id@,
            is_connected: self.is_connected,
            phase: self.phase,
            untried: Seq::new(
                if self.cursor <= self.endpoints@.len() {
                    (self.endpoints@.len() - self.cursor) as nat
                } else {
                    0
                },
                |i: int| self.endpoints@[self.cursor + i]@,
            ),
        }
    }
}

impl DiscordClient {
    /// A client for application `id`: not connected, nothing under way.
    pub fn new(id: &str) -> (client: Self)
        ensures
            client@ == (ClientState {
                id: id@,
                is_connected: false,
                phase: Phase::Idle,
                untried: Seq::empty(),
            }),
            client.id@ == id@,
            !client.is_connected,
    {
        let client = DiscordClient {
            id: id.to_owned(),
            is_connected: false,
            phase: Phase::Idle,
            endpoints: Vec::new(),
            cursor: 0,
        };
        assert(client@.untried =~= Seq::empty());
        client
    }

    /// Moves on to the next endpoint not yet tried, or gives up.
    fn next_endpoint(&mut self) -> (action: ConnectAction)
        ensures
            (final(self)@, action@) == advance(old(self)@),
            final(self).id == old(self).id,
    {
        if self.cursor < self.endpoints.len() {
            let endpoint = self.endpoints[self.cursor].clone();
            let ghost before = self@.untried;
            self.cursor = self.cursor + 1;
            self.is_connected = false;
            self.phase = Phase::Opening;
            assert(self@.untried =~= before.drop_first());
            ConnectAction::Open(endpoint)
        } else {
            self.give_up()
        }
    }

    /// Ends the attempt in failure.
    fn give_up(&mut self) -> (action: ConnectAction)
        ensures
            (final(self)@, action@) == give_up(old(self)@),
            final(self).id == old(self).id,
    {
        self.cursor = self.endpoints.len();
        self.is_connected = false;
        self.phase = Phase::Idle;
        assert(self@.untried =~= Seq::empty());
        ConnectAction::Done(Err(ClientError::DiscordNotFound))
    }

    /// Starts a connection attempt on `platform`. `env` holds the values
    /// found for the environment variables that may name the base directory,
    /// in order of preference. The result is the first thing to do: open the
    /// first candidate endpoint.
    pub fn connect(&mut self, platform: Platform, env: &[Option<String>]) -> (action: ConnectAction)
        ensures
            (final(self)@, action@) == begin(old(self)@, endpoints(platform, first_set(env@))),
            final(self).id == old(self).id,
    {
        let base = base_directory(env);
        self.endpoints = candidates(platform, base.as_str());
        self.cursor = 0;
        assert(self@.untried =~= endpoints(platform, first_set(env@)));
        self.next_endpoint()
    }

    /// Takes the decoded answer to the handshake, or the failure to decode
    /// it, and says what to do next: stop, connected, on an answer; try the
    /// next endpoint otherwise.
    pub fn handshake_reply(&mut self, reply: &Result<(u32, Value), ClientError>) -> (action:
        ConnectAction)
        ensures
            (final(self)@, action@) == conclude(old(self)@, reply is Ok),
            final(self).id == old(self).id,
    {
        match self.phase {
            Phase::Greeting => {
                if reply.is_ok() {
                    self.cursor = self.endpoints.len();
                    self.is_connected = true;
                    self.phase = Phase::Idle;
                    assert(self@.untried =~= Seq::empty());
                    ConnectAction::Done(Ok(()))
                } else {
                    self.next_endpoint()
                }
            },
            _ => self.give_up(),
        }
    }

    /// Takes the outcome of the last action and says what to do next.
    pub fn step(&mut self, event: ConnectEvent) -> (action: ConnectAction)
        ensures
            (final(self)@, action@) == react(old(self)@, event@),
            final(self).id == old(self).id,
    {
        match (self.phase, event) {
            (Phase::Opening, ConnectEvent::Opened) => match handshake(self.id.as_str()) {
                Ok(frame) => {
                    self.is_connected = false;
                    self.phase = Phase::Greeting;
                    ConnectAction::Greet(frame)
                },
                Err(_) => self.next_endpoint(),
            },
            (Phase::Opening, ConnectEvent::OpenFailed) => self.next_endpoint(),
            (Phase::Greeting, ConnectEvent::Replied(bytes)) => {
                let reply = recv(bytes.as_slice());
                self.handshake_reply(&reply)
            },
            (Phase::Greeting, ConnectEvent::TransportFailed) => self.next_endpoint(),
            _ => self.give_up(),
        }
    }

    /// Builds the frame of a command that carries `payload` for process
    /// `pid`, under a fresh request tag. A client that is not connected
    /// refuses.
    pub fn send_payload(&self, payload: Payload, pid: u32) -> (r: Result<Vec<u8>, ClientError>)
        ensures
            !self.is_connected ==> r is Err && r->Err_0 == ClientError::NotConnected,
            self.is_connected ==> exists|nonce: Seq<char>|
                is_nonce(nonce) && framed(r) == #[trigger] command_result(
                    pid,
                    payload.event_name@,
                    json_model(payload.event_data),
                    nonce,
                ),
    {
        if !self.is_connected {
            return Err(ClientError::NotConnected);
        }
        let nonce = fresh_nonce();
        command_frame(payload, pid, nonce.as_str())
    }
}

} // verus!
