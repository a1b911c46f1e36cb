//! The decisions of one connection, from its first bytes to its end.
//!
//! A connection is classified once, by what a peek at its first bytes shows;
//! a client that stays silent until the peek times out gets the fallback
//! protocol. Then the client is greeted where the mode asks for it, the
//! backend of the protocol is connected, with retries, and the relay runs.
//! The session never reads from the client itself: the bytes that were
//! peeked at are still there when the relay begins, and the relay forwards
//! them.
//!
//! The caller does what an action says and reports what came of it.

use crate::backoff::{
    after_failure, decision, Backoff, BackoffView, Retry, DEFAULT_MAX_RETRIES, RETRY_LIMIT,
};
use crate::config::Config;
use crate::dispatch::{backend_for, backend_of, failure_reply, failure_response, ConnectError};
use crate::handshake::{
    answer_upgrade, established_line, established_response, switching_line, switching_response,
    upgrade_outcome,
};
use crate::http::{find_head_end, head_end};
use crate::protocol::Protocol;
use crate::sniff::{classification, classify_or, PEEK_SIZE};
use vstd::prelude::*;
use vstd::string::*;
use vstd::utf8::encode_utf8;

verus! {

/// How the proxy treats its clients.
#[derive(Clone, Copy, Debug, PartialEq, Eq, Structural)]
pub struct Mode {
    /// Send the two disguise lines before a tunnelled protocol begins.
    pub tunnel: bool,
    /// Answer a WebSocket upgrade here and relay frames, in place of
    /// passing the upgrade on to the backend.
    pub terminate_websocket: bool,
    /// The protocol of a client that sends nothing at first.
    pub fallback: Protocol,
    /// How often a connection to a backend is retried.
    pub max_retries: u32,
}

/// What is said to a client before its backend is connected.
#[derive(Clone, Copy, Debug, PartialEq, Eq, Structural)]
pub enum Greeting {
    /// Nothing: the bytes pass through as they are.
    Silent,
    /// The two disguise lines.
    Disguise,
    /// The answer to a WebSocket upgrade.
    Upgrade,
}

/// How far a connection has come.
#[derive(Clone, Copy, Debug, PartialEq, Eq, Structural)]
pub enum Stage {
    /// Waiting for the peek at the first bytes.
    Sniffing,
    /// The first disguise line is being sent.
    Disguising,
    /// The last bytes of the greeting are being sent.
    Greeted,
    /// The backend is being connected.
    Connecting,
    /// Waiting before the next attempt to connect.
    Waiting,
    /// The relay is running.
    Relaying,
    /// The client is being told that its backend cannot be reached.
    Refusing,
    /// The connection is over.
    Closed,
}

/// What came of the last action.
#[derive(Clone, Copy, Debug, PartialEq, Eq, Structural)]
pub enum Event {
    /// No byte arrived before the peek timed out.
    PeekTimedOut,
    /// The peek failed.
    PeekFailed,
    /// The bytes were sent.
    Sent,
    /// The bytes could not be sent.
    SendFailed,
    /// The backend is connected.
    Connected,
    /// The backend refused the connection, or the attempt failed.
    ConnectFailed,
    /// The backend did not answer in time.
    ConnectTimedOut,
    /// The wait is over.
    Slept,
    /// The relay has ended.
    RelayEnded,
    /// The time that a connection may take in all is up.
    Expired,
}

/// What the caller does next.
#[derive(Debug, PartialEq, Eq)]
pub enum Action {
    /// Look at up to `limit` bytes of the client without taking them, and
    /// wait for them at most `timeout` seconds.
    Peek { limit: usize, timeout: u64 },
    /// Send these bytes to the client.
    Send(Vec<u8>),
    /// Connect the backend at this address.
    Connect(String),
    /// Wait this many seconds.
    Sleep(u64),
    /// Relay between client and backend: frames where `frames` is set,
    /// bytes where it is not. The first `discard` bytes of the client were
    /// answered here and do not go to the backend.
    Relay { frames: bool, discard: usize },
    /// Close the connection.
    Close,
}

/// An action as plain values.
pub enum ActionView {
    Peek { limit: usize, timeout: u64 },
    Send(Seq<u8>),
    Connect(Seq<char>),
    Sleep(u64),
    Relay { frames: bool, discard: usize },
    Close,
}

impl View for Action {
    type V = ActionView;

    open spec fn view(&self) -> ActionView {
        match self {
            Action::Peek { limit, timeout } => ActionView::Peek {
                limit: *limit,
                timeout: *timeout,
            },
            Action::Send(b) => ActionView::Send(b@),
            Action::Connect(a) => ActionView::Connect(a@),
            Action::Sleep(s) => ActionView::Sleep(*s),
            Action::Relay { frames, discard } => ActionView::Relay {
                frames: *frames,
                discard: *discard,
            },
            Action::Close => ActionView::Close,
        }
    }
}

/// The state of a connection as plain values.
pub struct SessionView {
    pub stage: Stage,
    /// The classification, once there is one.
    pub protocol: Option<Protocol>,
    /// How many bytes of the client are answered here.
    pub discard: usize,
    pub backoff: BackoffView,
    pub mode: Mode,
}

/// The state of one connection.
#[derive(Debug)]
pub struct Session {
    stage: Stage,
    protocol: Option<Protocol>,
    discard: usize,
    backoff: Backoff,
    mode: Mode,
}

/// What is said to a client of the protocol `p`. TLS is never spoken into,
/// and a WebSocket upgrade is answered or passed on, not disguised.
pub open spec fn greeting_of(p: Protocol, mode: Mode) -> Greeting {
    match p {
        Protocol::WebSocketUpgrade => if mode.terminate_websocket {
            Greeting::Upgrade
        } else {
            Greeting::Silent
        },
        Protocol::Tls => Greeting::Silent,
        _ => if mode.tunnel {
            Greeting::Disguise
        } else {
            Greeting::Silent
        },
    }
}

/// The state `v` at another stage.
pub open spec fn at_stage(v: SessionView, stage: Stage) -> SessionView {
    SessionView {
        stage,
        protocol: v.protocol,
        discard: v.discard,
        backoff: v.backoff,
        mode: v.mode,
    }
}

/// The step that connects the backend of the protocol.
pub open spec fn connect_step(v: SessionView, config: Config) -> (SessionView, ActionView) {
    match v.protocol {
        Some(p) => (at_stage(v, Stage::Connecting), ActionView::Connect(backend_of(p, config))),
        None => (at_stage(v, Stage::Closed), ActionView::Close),
    }
}

/// The step that follows a peek which showed `bytes`: the connection is
/// classified and the client is greeted, or its backend is connected at
/// once. An upgrade that is to be answered here and cannot be, because its
/// key is missing or its head has not arrived in full, ends the connection.
pub open spec fn classified(v: SessionView, bytes: Seq<u8>, config: Config) -> (
    SessionView,
    ActionView,
) {
    let p = classification(bytes, v.mode.fallback);
    let w = SessionView {
        stage: v.stage,
        protocol: Some(p),
        discard: v.discard,
        backoff: v.backoff,
        mode: v.mode,
    };
    match greeting_of(p, v.mode) {
        Greeting::Disguise => (
            at_stage(w, Stage::Disguising),
            ActionView::Send(switching_line(encode_utf8(config.disguise_status@))),
        ),
        Greeting::Upgrade => match upgrade_outcome(bytes) {
            Ok(reply) => if 0 <= head_end(bytes, 0) <= usize::MAX {
                (
                    SessionView {
                        stage: Stage::Greeted,
                        protocol: Some(p),
                        discard: head_end(bytes, 0) as usize,
                        backoff: v.backoff,
                        mode: v.mode,
                    },
                    ActionView::Send(reply),
                )
            } else {
                (at_stage(w, Stage::Closed), ActionView::Close)
            },
            Err(_) => (at_stage(w, Stage::Closed), ActionView::Close),
        },
        Greeting::Silent => connect_step(w, config),
    }
}

/// What a client is told when its backend cannot be reached: a response
/// where it speaks HTTP, else nothing.
pub open spec fn refusal(v: SessionView, error: ConnectError) -> Option<Seq<u8>> {
    match v.protocol {
        Some(p) => failure_reply(p, error),
        None => None,
    }
}

/// The step that follows a failed attempt to connect.
pub open spec fn failed(v: SessionView, error: ConnectError) -> (SessionView, ActionView) {
    match decision(v.backoff) {
        Retry::After(seconds) => (
            SessionView {
                stage: Stage::Waiting,
                protocol: v.protocol,
                discard: v.discard,
                backoff: after_failure(v.backoff),
                mode: v.mode,
            },
            ActionView::Sleep(seconds),
        ),
        Retry::GiveUp => match refusal(v, error) {
            Some(bytes) => (at_stage(v, Stage::Refusing), ActionView::Send(bytes)),
            None => (at_stage(v, Stage::Closed), ActionView::Close),
        },
    }
}

/// Whether the relay of the connection carries frames.
pub open spec fn relays_frames(v: SessionView) -> bool {
    match v.protocol {
        Some(p) => greeting_of(p, v.mode) == Greeting::Upgrade,
        None => false,
    }
}

/// The step that follows a peek which showed `bytes`.
pub open spec fn after_peek(v: SessionView, bytes: Seq<u8>, config: Config) -> (
    SessionView,
    ActionView,
) {
    if v.stage == Stage::Sniffing {
        classified(v, bytes, config)
    } else {
        (at_stage(v, Stage::Closed), ActionView::Close)
    }
}

/// The step that follows `event`. What cannot follow the last action, a
/// failure to send, and the end of the time that a connection may take all
/// end the connection.
pub open spec fn after_event(v: SessionView, event: Event, config: Config) -> (
    SessionView,
    ActionView,
) {
    match (v.stage, event) {
        (Stage::Sniffing, Event::PeekTimedOut) => classified(v, Seq::empty(), config),
        (Stage::Disguising, Event::Sent) => (
            at_stage(v, Stage::Greeted),
            ActionView::Send(established_line(encode_utf8(config.disguise_status@))),
        ),
        (Stage::Greeted, Event::Sent) => connect_step(v, config),
        (Stage::Connecting, Event::Connected) => (
            at_stage(v, Stage::Relaying),
            ActionView::Relay { frames: relays_frames(v), discard: v.discard },
        ),
        (Stage::Connecting, Event::ConnectFailed) => failed(v, ConnectError::Unreachable),
        (Stage::Connecting, Event::ConnectTimedOut) => failed(v, ConnectError::TimedOut),
        (Stage::Waiting, Event::Slept) => connect_step(v, config),
        _ => (at_stage(v, Stage::Closed), ActionView::Close),
    }
}

/// What holds of every state that a session comes to: it has a protocol
/// from the moment it leaves the first stage, and none before.
pub open spec fn coherent(v: SessionView) -> bool {
    &&& v.stage == Stage::Sniffing ==> v.protocol is None
    &&& v.stage != Stage::Sniffing && v.stage != Stage::Closed ==> v.protocol is Some
    &&& v.backoff.attempt <= v.backoff.max_retries
}

impl View for Session {
    type V = SessionView;

    closed spec fn view(&self) -> SessionView {
        SessionView {
            stage: self.stage,
            protocol: self.protocol,
            discard: self.discard,
            backoff: self.backoff@,
            mode: self.mode,
        }
    }
}

impl Mode {
    /// The usual mode: a tunnel with its disguise, upgrades passed on, a
    /// silent client taken for SSH, five retries.
    pub fn new() -> (m: Mode)
        ensures
            m == (Mode {
                tunnel: true,
                terminate_websocket: false,
                fallback: Protocol::Ssh,
                max_retries: DEFAULT_MAX_RETRIES,
            }),
    {
        Mode {
            tunnel: true,
            terminate_websocket: false,
            fallback: Protocol::Ssh,
            max_retries: DEFAULT_MAX_RETRIES,
        }
    }
}

/// What is said to a client of the protocol `p`.
pub fn greeting_for(p: Protocol, mode: Mode) -> (g: Greeting)
    ensures
        g == greeting_of(p, mode),
{
    match p {
        Protocol::WebSocketUpgrade => {
            if mode.terminate_websocket {
                Greeting::Upgrade
            } else {
                Greeting::Silent
            }
        },
        Protocol::Tls => Greeting::Silent,
        _ => {
            if mode.tunnel {
                Greeting::Disguise
            } else {
                Greeting::Silent
            }
        },
    }
}

impl Session {
    /// A connection that was just accepted; none where the mode asks for
    /// more retries than delays can be counted for.
    pub fn new(mode: Mode) -> (r: Option<Session>)
        ensures
            r is Some == (mode.max_retries <= RETRY_LIMIT),
            r matches Some(s) ==> s@ == (SessionView {
                stage: Stage::Sniffing,
                protocol: None,
                discard: 0,
                backoff: BackoffView { attempt: 0, max_retries: mode.max_retries as nat },
                mode,
            }),
    {
        match Backoff::with_max_retries(mode.max_retries) {
            Some(backoff) => Some(
                Session { stage: Stage::Sniffing, protocol: None, discard: 0, backoff, mode },
            ),
            None => None,
        }
    }

    /// How far the connection has come.
    pub fn stage(&self) -> (s: Stage)
        ensures
            s == self@.stage,
    {
        self.stage
    }

    /// What the connection was classified as, once it was.
    pub fn protocol(&self) -> (p: Option<Protocol>)
        ensures
            p == self@.protocol,
    {
        self.protocol
    }

    /// How often the backend was retried.
    pub fn retries(&self) -> (n: u32)
        ensures
            n == self@.backoff.attempt,
    {
        self.backoff.retries()
    }

    /// The first action of a connection: the peek.
    pub fn start(&self, config: &Config) -> (action: Action)
        ensures
            action@ == (if self@.stage == Stage::Sniffing {
                ActionView::Peek { limit: PEEK_SIZE, timeout: config.peek_timeout }
            } else {
                ActionView::Close
            }),
    {
        match self.stage {
            Stage::Sniffing => Action::Peek { limit: PEEK_SIZE, timeout: config.peek_timeout },
            _ => Action::Close,
        }
    }

    fn connect(&mut self, config: &Config) -> (action: Action)
        ensures
            (final(self)@, action@) == connect_step(old(self)@, *config),
    {
        match self.protocol {
            Some(p) => {
                self.stage = Stage::Connecting;
                Action::Connect(String::from_str(backend_for(p, config)))
            },
            None => {
                self.stage = Stage::Closed;
                Action::Close
            },
        }
    }

    fn classify(&mut self, bytes: &[u8], config: &Config) -> (action: Action)
        ensures
            (final(self)@, action@) == classified(old(self)@, bytes@, *config),
    {
        let p = classify_or(bytes, self.mode.fallback);
        self.protocol = Some(p);
        match greeting_for(p, self.mode) {
            Greeting::Disguise => {
                self.stage = Stage::Disguising;
                Action::Send(switching_response(config.disguise_status.as_str()))
            },
            Greeting::Upgrade => {
                match answer_upgrade(bytes) {
                    Ok(reply) => match find_head_end(bytes) {
                        Some(n) => {
                            self.stage = Stage::Greeted;
                            self.discard = n;
                            Action::Send(reply)
                        },
                        None => {
                            self.stage = Stage::Closed;
                            Action::Close
                        },
                    },
                    Err(_) => {
                        self.stage = Stage::Closed;
                        Action::Close
                    },
                }
            },
            Greeting::Silent => self.connect(config),
        }
    }

    fn fail(&mut self, error: ConnectError) -> (action: Action)
        ensures
            (final(self)@, action@) == failed(old(self)@, error),
    {
        match self.backoff.on_failure() {
            Retry::After(seconds) => {
                self.stage = Stage::Waiting;
                Action::Sleep(seconds)
            },
            Retry::GiveUp => {
                let reply = match self.protocol {
                    Some(p) => failure_response(p, error),
                    None => None,
                };
                match reply {
                    Some(bytes) => {
                        self.stage = Stage::Refusing;
                        Action::Send(bytes)
                    },
                    None => {
                        self.stage = Stage::Closed;
                        Action::Close
                    },
                }
            },
        }
    }

    /// Takes the bytes that the peek showed and says what to do next.
    pub fn on_peek(&mut self, bytes: &[u8], config: &Config) -> (action: Action)
        ensures
            (final(self)@, action@) == after_peek(old(self)@, bytes@, *config),
    {
        match self.stage {
            Stage::Sniffing => self.classify(bytes, config),
            _ => {
                self.stage = Stage::Closed;
                Action::Close
            },
        }
    }

    /// Takes note of `event` and says what to do next.
    pub fn on_event(&mut self, event: Event, config: &Config) -> (action: Action)
        ensures
            (final(self)@, action@) == after_event(old(self)@, event, *config),
    {
        match (self.stage, event) {
            (Stage::Sniffing, Event::PeekTimedOut) => {
                let nothing: Vec<u8> = Vec::new();
                assert(nothing@ =~= Seq::<u8>::empty());
                self.classify(nothing.as_slice(), config)
            },
            (Stage::Disguising, Event::Sent) => {
                self.stage = Stage::Greeted;
                Action::Send(established_response(config.disguise_status.as_str()))
            },
            (Stage::Greeted, Event::Sent) => self.connect(config),
            (Stage::Connecting, Event::Connected) => {
                let frames = match self.protocol {
                    Some(p) => match greeting_for(p, self.mode) {
                        Greeting::Upgrade => true,
                        _ => false,
                    },
                    None => false,
                };
                self.stage = Stage::Relaying;
                Action::Relay { frames, discard: self.discard }
            },
            (Stage::Connecting, Event::ConnectFailed) => self.fail(ConnectError::Unreachable),
            (Stage::Connecting, Event::ConnectTimedOut) => self.fail(ConnectError::TimedOut),
            (Stage::Waiting, Event::Slept) => self.connect(config),
            _ => {
                self.stage = Stage::Closed;
                Action::Close
            },
        }
    }
}

/// A client that sends nothing before the peek times out is treated as one
/// whose peek showed no bytes: it is given the fallback protocol.
pub proof fn lemma_silence_gives_fallback(v: SessionView, config: Config)
    requires
        v.stage == Stage::Sniffing,
    ensures
        after_event(v, Event::PeekTimedOut, config) == after_peek(v, Seq::empty(), config),
        after_event(v, Event::PeekTimedOut, config).0.protocol == Some(v.mode.fallback),
{
}

/// A connection is classified once: the protocol that it has is the one
/// that it keeps, whatever happens.
pub proof fn lemma_classified_once(v: SessionView, event: Event, bytes: Seq<u8>, config: Config)
    requires
        coherent(v),
        v.protocol is Some,
    ensures
        after_event(v, event, config).0.protocol == v.protocol,
        after_peek(v, bytes, config).0.protocol == v.protocol,
{
}

/// Every step leads from a coherent state to a coherent state, and leaves
/// the mode and the number of allowed retries as they are.
pub proof fn lemma_steps_keep_coherence(
    v: SessionView,
    event: Event,
    bytes: Seq<u8>,
    config: Config,
)
    requires
        coherent(v),
    ensures
        coherent(after_event(v, event, config).0),
        coherent(after_peek(v, bytes, config).0),
        after_event(v, event, config).0.mode == v.mode,
        after_peek(v, bytes, config).0.mode == v.mode,
        after_event(v, event, config).0.backoff.max_retries == v.backoff.max_retries,
        after_peek(v, bytes, config).0.backoff.max_retries == v.backoff.max_retries,
{
}

/// No backend is connected before the connection is classified, and the
/// backend that is connected is that of the classification.
pub proof fn lemma_connect_follows_classification(
    v: SessionView,
    event: Event,
    bytes: Seq<u8>,
    config: Config,
)
    ensures
        after_event(v, event, config).1 matches ActionView::Connect(address) ==> after_event(
            v,
            event,
            config,
        ).0.protocol matches Some(p) && address == backend_of(p, config),
        after_peek(v, bytes, config).1 matches ActionView::Connect(address) ==> after_peek(
            v,
            bytes,
            config,
        ).0.protocol matches Some(p) && address == backend_of(p, config),
{
}

/// The relay begins when the backend is connected and at no other time, and
/// the session asks for no read of the client before it.
pub proof fn lemma_relay_follows_connect(
    v: SessionView,
    event: Event,
    bytes: Seq<u8>,
    config: Config,
)
    ensures
        after_event(v, event, config).1 is Relay ==> v.stage == Stage::Connecting && event
            == Event::Connected,
        !(after_peek(v, bytes, config).1 is Relay),
{
}

/// Where the disguise is used, both of its lines are sent, in their order,
/// before the backend is connected.
pub proof fn lemma_disguise_before_dispatch(v: SessionView, bytes: Seq<u8>, config: Config)
    requires
        v.stage == Stage::Sniffing,
        greeting_of(classification(bytes, v.mode.fallback), v.mode) == Greeting::Disguise,
    ensures
        after_peek(v, bytes, config).1 == ActionView::Send(
            switching_line(encode_utf8(config.disguise_status@)),
        ),
        after_event(after_peek(v, bytes, config).0, Event::Sent, config).1 == ActionView::Send(
            established_line(encode_utf8(config.disguise_status@)),
        ),
        after_event(
            after_event(after_peek(v, bytes, config).0, Event::Sent, config).0,
            Event::Sent,
            config,
        ).1 == ActionView::Connect(
            backend_of(classification(bytes, v.mode.fallback), config),
        ),
{
}

/// A failed attempt to connect is followed by a wait of the delay that is
/// due and then by the next attempt at the same backend, as long as retries
/// are left.
pub proof fn lemma_retry_after_failure(v: SessionView, config: Config)
    requires
        v.stage == Stage::Connecting,
        v.protocol is Some,
        v.backoff.attempt < v.backoff.max_retries,
    ensures
        after_event(v, Event::ConnectFailed, config).1 == ActionView::Sleep(
            crate::backoff::delay_before(v.backoff.attempt) as u64,
        ),
        after_event(v, Event::ConnectFailed, config).0.backoff.attempt == v.backoff.attempt + 1,
        after_event(
            after_event(v, Event::ConnectFailed, config).0,
            Event::Slept,
            config,
        ).1 == ActionView::Connect(backend_of(v.protocol->0, config)),
{
}

/// A connection that is over stays over, and the end of the time that a
/// connection may take ends it at every stage.
pub proof fn lemma_closed_is_final(v: SessionView, event: Event, bytes: Seq<u8>, config: Config)
    ensures
        v.stage == Stage::Closed ==> after_event(v, event, config) == (v, ActionView::Close),
        v.stage == Stage::Closed ==> after_peek(v, bytes, config) == (v, ActionView::Close),
        after_event(v, Event::Expired, config) == (at_stage(v, Stage::Closed), ActionView::Close),
{
}

} // verus!
