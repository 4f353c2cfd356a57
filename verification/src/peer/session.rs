use vstd::prelude::*;
use crate::peer::connection::{
    command_views, PeerCommand, PeerCommandView, PeerEvent, PeerEventView,
};
use crate::peer::message::{extension_reserved, HandshakeRequest, PROTOCOL_NAME};
use crate::tracker::client::Peer;
use crate::utils::bytes::{raw_bytes, RawBytesExt};

verus! {

/// How a session goes on after its handler has seen a connection or an
/// event.
#[derive(Debug, Clone, Copy, PartialEq, Eq, Structural)]
pub enum SessionControl {
    /// Keep reading events on this connection.
    Continue,
    /// Drop the connection, back off, connect again.
    Reconnect,
    /// End the session with success.
    Stop,
}

/// A completed piece to be written to the output: `data` goes at byte
/// `offset`.
#[derive(Debug, Clone, PartialEq, Eq)]
pub struct PieceWrite {
    pub index: u32,
    pub offset: u64,
    pub data: Vec<u8>,
}

/// What a handler asks of the session's driver besides sending commands.
#[derive(Debug, Clone, PartialEq, Eq)]
pub enum HandlerEffect {
    /// Nothing.
    Nothing,
    /// Write the piece to the output, then report whether that succeeded.
    StorePiece(PieceWrite),
    /// Wait until the shared state has changed, then report that it has.
    AwaitWork,
}

/// A `HandlerEffect` as a mathematical value.
pub enum HandlerEffectView {
    Nothing,
    StorePiece { index: u32, offset: u64, data: Seq<u8> },
    AwaitWork,
}

impl View for HandlerEffect {
    type V = HandlerEffectView;

    open spec fn view(&self) -> HandlerEffectView {
        match *self {
            HandlerEffect::Nothing => HandlerEffectView::Nothing,
            HandlerEffect::StorePiece(write) => HandlerEffectView::StorePiece {
                index: write.index,
                offset: write.offset,
                data: write.data@,
            },
            HandlerEffect::AwaitWork => HandlerEffectView::AwaitWork,
        }
    }
}

/// The answer of a handler: how the session goes on, the commands to send
/// first, in order, and what else the driver is to do.
#[derive(Debug, Clone, PartialEq, Eq)]
pub struct HandlerStep {
    pub control: SessionControl,
    pub commands: Vec<PeerCommand>,
    pub effect: HandlerEffect,
}

/// A `HandlerStep` as a mathematical value.
pub struct HandlerStepView {
    pub control: SessionControl,
    pub commands: Seq<PeerCommandView>,
    pub effect: HandlerEffectView,
}

impl View for HandlerStep {
    type V = HandlerStepView;

    open spec fn view(&self) -> HandlerStepView {
        HandlerStepView {
            control: self.control,
            commands: command_views(self.commands@),
            effect: self.effect@,
        }
    }
}

impl HandlerStepView {
    /// A step that only says how the session goes on.
    pub open spec fn only(control: SessionControl) -> HandlerStepView {
        HandlerStepView { control, commands: Seq::empty(), effect: HandlerEffectView::Nothing }
    }

    /// A step that goes on after sending one command.
    pub open spec fn send(command: PeerCommandView) -> HandlerStepView {
        HandlerStepView {
            control: SessionControl::Continue,
            commands: seq![command],
            effect: HandlerEffectView::Nothing,
        }
    }
}

impl HandlerStep {
    /// A step that only says how the session goes on.
    pub fn only(control: SessionControl) -> (step: HandlerStep)
        ensures
            step@ == HandlerStepView::only(control),
    {
        let step = HandlerStep { control, commands: Vec::new(), effect: HandlerEffect::Nothing };
        assert(step@.commands =~= Seq::empty());
        step
    }

    /// A step that goes on after sending one command.
    pub fn send(command: PeerCommand) -> (step: HandlerStep)
        ensures
            step@ == HandlerStepView::send(command@),
    {
        let mut commands: Vec<PeerCommand> = Vec::new();
        commands.push(command);
        let step = HandlerStep {
            control: SessionControl::Continue,
            commands,
            effect: HandlerEffect::Nothing,
        };
        assert(step@.commands =~= seq![command@]);
        step
    }
}

/// Retry policy of a session. Times are in milliseconds.
#[derive(Debug, Clone, Copy, PartialEq, Eq, Structural)]
pub struct PeerSessionConfig {
    /// The delay after the first failure.
    pub backoff_base_ms: u64,
    /// The longest delay.
    pub backoff_cap_ms: u64,
    /// How many failures in a row end the session; 0 for no limit.
    pub max_retries: u8,
}

/// Two to the power `n`.
pub open spec fn pow2(n: nat) -> nat
    decreases n,
{
    if n == 0 {
        1
    } else {
        2 * pow2((n - 1) as nat)
    }
}

/// The delay before the next attempt after `attempts` failures in a row: the
/// base doubled once per failure, ten times at most, and never more than the
/// cap.
pub open spec fn backoff_ms(config: PeerSessionConfig, attempts: u32) -> int {
    let doubled = config.backoff_base_ms * pow2(
        if attempts < 10 {
            attempts as nat
        } else {
            10
        },
    );
    if doubled < config.backoff_cap_ms {
        doubled
    } else {
        config.backoff_cap_ms as int
    }
}

impl PeerSessionConfig {
    /// One second doubling up to three, two failures allowed.
    pub fn default() -> (config: Self)
        ensures
            config == (PeerSessionConfig {
                backoff_base_ms: 1000,
                backoff_cap_ms: 3000,
                max_retries: 2,
            }),
    {
        Self { backoff_base_ms: 1000, backoff_cap_ms: 3000, max_retries: 2 }
    }

    /// Half a second doubling up to one, one failure allowed.
    pub fn aggressive() -> (config: Self)
        ensures
            config == (PeerSessionConfig {
                backoff_base_ms: 500,
                backoff_cap_ms: 1000,
                max_retries: 1,
            }),
    {
        Self { backoff_base_ms: 500, backoff_cap_ms: 1000, max_retries: 1 }
    }

    /// The delay, in milliseconds, before the next attempt after `attempts`
    /// failures in a row.
    pub fn backoff_delay(&self, attempts: u32) -> (delay: u64)
        ensures
            delay == backoff_ms(*self, attempts),
            delay <= self.backoff_cap_ms,
    {
        let shift: u32 = if attempts < 10 {
            attempts
        } else {
            10
        };
        let mut factor: u64 = 1;
        let mut i: u32 = 0;
        assert(pow2(10) == 1024) by {
            reveal_with_fuel(pow2, 11);
        }
        while i < shift
            invariant
                i <= shift <= 10,
                factor == pow2(i as nat),
                factor <= pow2(10),
                pow2(10) == 1024,
            decreases shift - i,
        {
            proof {
                lemma_pow2_monotonic(i as nat + 1, 10);
            }
            factor = factor * 2;
            i += 1;
        }
        match self.backoff_base_ms.checked_mul(factor) {
            Some(doubled) => {
                if doubled < self.backoff_cap_ms {
                    doubled
                } else {
                    self.backoff_cap_ms
                }
            },
            None => self.backoff_cap_ms,
        }
    }
}

proof fn lemma_pow2_monotonic(a: nat, b: nat)
    requires
        a <= b,
    ensures
        pow2(a) <= pow2(b),
    decreases b,
{
    if a < b {
        lemma_pow2_monotonic(a, (b - 1) as nat);
    }
}

/// Where a session stands between two steps.
#[derive(Debug, Clone, Copy, PartialEq, Eq, Structural)]
pub enum SessionPhase {
    /// No connection; the next attempt has not begun.
    Idle,
    /// A connection attempt is under way.
    Connecting,
    /// A connection is open and its handler is being consulted.
    Connected,
    /// The session is over.
    Finished,
}

/// What the driver of a session reports to it.
#[derive(Debug, Clone, Copy, PartialEq, Eq, Structural)]
pub enum SessionEvent {
    /// The session starts, or a delay has passed.
    Wake,
    /// Connecting or the handshake failed.
    ConnectFailed,
    /// The handshake succeeded.
    Connected,
    /// The handler has seen the connection, or an event, and answered.
    Handled(SessionControl),
    /// The event stream of the connection has ended.
    StreamClosed,
    /// The handler failed.
    HandlerFailed,
}

/// Why a session failed.
#[derive(Debug, Clone, Copy, PartialEq, Eq, Structural)]
pub enum SessionError {
    /// As many attempts failed in a row as the configuration allows.
    MaxRetriesExceeded,
    /// The handler returned an error.
    HandlerFailed,
    /// The driver reported something that cannot happen in this phase.
    UnexpectedEvent,
}

/// What the driver of a session does next.
#[derive(Debug, Clone, Copy, PartialEq, Eq, Structural)]
pub enum SessionAction {
    /// Open a connection and shake hands; report `Connected` or
    /// `ConnectFailed`.
    Connect,
    /// Show the new connection to the handler; report `Handled`.
    Greet,
    /// Wait for the next event and show it to the handler; report `Handled`,
    /// or `StreamClosed` if there is none.
    Receive,
    /// Drop the connection, wait so many milliseconds, report `Wake`.
    Sleep(u64),
    /// The session has ended with success.
    Finish,
    /// The session has ended with this error.
    Fail(SessionError),
}

/// The part of a session that changes: its phase and the number of failures
/// in a row.
pub struct SessionState {
    pub phase: SessionPhase,
    pub attempts: u32,
}

/// One more failure, counted up to the largest `u32`.
pub open spec fn one_more(attempts: u32) -> u32 {
    if attempts < u32::MAX {
        (attempts + 1) as u32
    } else {
        attempts
    }
}

/// Backing off: sleep for the delay that the failures so far call for,
/// count one more, and be idle.
pub open spec fn back_off(config: PeerSessionConfig, attempts: u32) -> (SessionState, SessionAction) {
    (
        SessionState { phase: SessionPhase::Idle, attempts: one_more(attempts) },
        SessionAction::Sleep(backoff_ms(config, attempts) as u64),
    )
}

/// Ending: the phase is `Finished` and the count stays.
pub open spec fn end_with(attempts: u32, action: SessionAction) -> (SessionState, SessionAction) {
    (SessionState { phase: SessionPhase::Finished, attempts }, action)
}

/// The session's transition function.
///
/// `should_stop` is the handler's wish to stop, asked when the event is
/// reported. It is honoured before each attempt to connect, between events,
/// and before backing off from an open connection.
pub open spec fn session_step(
    config: PeerSessionConfig,
    state: SessionState,
    event: SessionEvent,
    should_stop: bool,
) -> (SessionState, SessionAction) {
    let attempts = state.attempts;
    match (state.phase, event) {
        (SessionPhase::Finished, _) => end_with(
            attempts,
            SessionAction::Fail(SessionError::UnexpectedEvent),
        ),
        (_, SessionEvent::HandlerFailed) => end_with(
            attempts,
            SessionAction::Fail(SessionError::HandlerFailed),
        ),
        (SessionPhase::Idle, SessionEvent::Wake) => {
            if should_stop {
                end_with(attempts, SessionAction::Finish)
            } else if config.max_retries > 0 && attempts >= config.max_retries {
                end_with(attempts, SessionAction::Fail(SessionError::MaxRetriesExceeded))
            } else {
                (SessionState { phase: SessionPhase::Connecting, attempts }, SessionAction::Connect)
            }
        },
        (SessionPhase::Connecting, SessionEvent::ConnectFailed) => back_off(config, attempts),
        (SessionPhase::Connecting, SessionEvent::Connected) => (
            SessionState { phase: SessionPhase::Connected, attempts: 0 },
            SessionAction::Greet,
        ),
        (SessionPhase::Connected, SessionEvent::Handled(SessionControl::Stop)) => end_with(
            attempts,
            SessionAction::Finish,
        ),
        (SessionPhase::Connected, SessionEvent::Handled(SessionControl::Continue)) => {
            if should_stop {
                end_with(attempts, SessionAction::Finish)
            } else {
                (SessionState { phase: SessionPhase::Connected, attempts }, SessionAction::Receive)
            }
        },
        (SessionPhase::Connected, SessionEvent::Handled(SessionControl::Reconnect)) | (
            SessionPhase::Connected,
            SessionEvent::StreamClosed,
        ) => {
            if should_stop {
                end_with(attempts, SessionAction::Finish)
            } else {
                back_off(config, attempts)
            }
        },
        _ => end_with(attempts, SessionAction::Fail(SessionError::UnexpectedEvent)),
    }
}

/// One peer's session: whom to reach, for which torrent, under which id and
/// retry policy, and how far the reconnect loop has come.
pub struct PeerSession {
    peer: Peer,
    info_hash: Vec<u8>,
    client_id: String,
    config: PeerSessionConfig,
    phase: SessionPhase,
    attempts: u32,
}

impl PeerSession {
    /// The peer of this session.
    pub closed spec fn spec_peer(&self) -> Peer {
        self.peer
    }

    /// The info hash that the session shakes hands for.
    pub closed spec fn spec_info_hash(&self) -> Seq<u8> {
        self.info_hash@
    }

    /// The id under which the session presents itself.
    pub closed spec fn spec_client_id(&self) -> Seq<char> {
        self.client_id@
    }

    /// The retry policy.
    pub closed spec fn spec_config(&self) -> PeerSessionConfig {
        self.config
    }

    /// Phase and failure count.
    pub closed spec fn state(&self) -> SessionState {
        SessionState { phase: self.phase, attempts: self.attempts }
    }

    /// A session that has not begun: idle, with no failure counted.
    pub fn new(peer: Peer, info_hash: Vec<u8>, client_id: String, config: PeerSessionConfig) -> (session:
        Self)
        ensures
            session.spec_peer() == peer,
            session.spec_info_hash() == info_hash@,
            session.spec_client_id() == client_id@,
            session.spec_config() == config,
            session.state() == (SessionState { phase: SessionPhase::Idle, attempts: 0 }),
    {
        Self { peer, info_hash, client_id, config, phase: SessionPhase::Idle, attempts: 0 }
    }

    /// The peer of this session.
    pub fn peer(&self) -> (peer: Peer)
        ensures
            peer == self.spec_peer(),
    {
        self.peer
    }

    /// How many attempts have failed in a row.
    pub fn attempts(&self) -> (attempts: u32)
        ensures
            attempts == self.state().attempts,
    {
        self.attempts
    }

    /// The handshake that each attempt sends: ours, with the extension
    /// protocol advertised and the client id taken byte by character.
    pub fn handshake_request(&self) -> (request: HandshakeRequest)
        ensures
            request.pstr@ == PROTOCOL_NAME@,
            request.reserved@ == extension_reserved(),
            request.info_hash@ == self.spec_info_hash(),
            request.peer_id@ == raw_bytes(self.spec_client_id()),
    {
        HandshakeRequest::new_with_extension_support(
            self.info_hash.clone(),
            self.client_id.as_str().to_raw_bytes(),
        )
    }

    /// The delay, in milliseconds, before the next attempt after `attempts`
    /// failures in a row, under this session's retry policy.
    pub fn backoff_delay(&self, attempts: u32) -> (delay: u64)
        ensures
            delay == backoff_ms(self.spec_config(), attempts),
            delay <= self.spec_config().backoff_cap_ms,
    {
        self.config.backoff_delay(attempts)
    }

    /// Takes what the driver reports and says what it does next.
    ///
    /// The new state and the action are those of `session_step`; peer, info
    /// hash, client id and configuration never change.
    pub fn step(&mut self, event: SessionEvent, should_stop: bool) -> (action: SessionAction)
        ensures
            (final(self).state(), action) == session_step(
                old(self).spec_config(),
                old(self).state(),
                event,
                should_stop,
            ),
            final(self).spec_config() == old(self).spec_config(),
            final(self).spec_peer() == old(self).spec_peer(),
            final(self).spec_info_hash() == old(self).spec_info_hash(),
            final(self).spec_client_id() == old(self).spec_client_id(),
    {
        let attempts = self.attempts;
        let retry: bool = match (self.phase, event) {
            (SessionPhase::Finished, _) => {
                return self.end(SessionAction::Fail(SessionError::UnexpectedEvent));
            },
            (_, SessionEvent::HandlerFailed) => {
                return self.end(SessionAction::Fail(SessionError::HandlerFailed));
            },
            (SessionPhase::Idle, SessionEvent::Wake) => {
                if should_stop {
                    return self.end(SessionAction::Finish);
                }
                if self.config.max_retries > 0 && attempts >= self.config.max_retries as u32 {
                    return self.end(SessionAction::Fail(SessionError::MaxRetriesExceeded));
                }
                self.phase = SessionPhase::Connecting;
                return SessionAction::Connect;
            },
            (SessionPhase::Connecting, SessionEvent::ConnectFailed) => true,
            (SessionPhase::Connecting, SessionEvent::Connected) => {
                self.phase = SessionPhase::Connected;
                self.attempts = 0;
                return SessionAction::Greet;
            },
            (SessionPhase::Connected, SessionEvent::Handled(SessionControl::Stop)) => {
                return self.end(SessionAction::Finish);
            },
            (SessionPhase::Connected, SessionEvent::Handled(SessionControl::Continue)) => {
                if should_stop {
                    return self.end(SessionAction::Finish);
                }
                return SessionAction::Receive;
            },
            (SessionPhase::Connected, SessionEvent::Handled(SessionControl::Reconnect)) => {
                !should_stop
            },
            (SessionPhase::Connected, SessionEvent::StreamClosed) => !should_stop,
            _ => {
                return self.end(SessionAction::Fail(SessionError::UnexpectedEvent));
            },
        };
        if !retry {
            return self.end(SessionAction::Finish);
        }
        let delay = self.config.backoff_delay(attempts);
        self.phase = SessionPhase::Idle;
        if attempts < u32::MAX {
            self.attempts = attempts + 1;
        }
        SessionAction::Sleep(delay)
    }

    fn end(&mut self, action: SessionAction) -> (same: SessionAction)
        ensures
            same == action,
            final(self).state() == (SessionState {
                phase: SessionPhase::Finished,
                attempts: old(self).state().attempts,
            }),
            final(self).spec_config() == old(self).spec_config(),
            final(self).spec_peer() == old(self).spec_peer(),
            final(self).spec_info_hash() == old(self).spec_info_hash(),
            final(self).spec_client_id() == old(self).spec_client_id(),
    {
        self.phase = SessionPhase::Finished;
        action
    }
}

/// What a handler is told: a new connection with the id that the peer gave
/// itself, an event of the connection, or the end of the effect that it
/// asked for, with its success.
pub enum HandlerInputView {
    Connected(Seq<u8>),
    Event(PeerEventView),
    EffectDone(bool),
}

/// A handler's answer as a mathematical value.
pub open spec fn answer_view<E>(answer: Result<HandlerStep, E>) -> Result<HandlerStepView, E> {
    match answer {
        Ok(step) => Ok(step@),
        Err(error) => Err(error),
    }
}

/// What drives a session: it is shown each connection and each event, and
/// says how the session goes on.
///
/// A handler may work on state that it shares with other handlers; the
/// driver of the session gives it access for the length of each call.
pub trait PeerSessionHandler: Sized {
    /// The state shared with other handlers.
    type Shared;

    /// Why the handler gives up.
    type Error;

    /// The handler's invariant.
    spec fn valid(&self) -> bool;

    /// Whether the handler wishes the session to end.
    spec fn stops(&self, shared: Self::Shared) -> bool;

    /// The handler's answer to what it is told.
    spec fn answer(&self, shared: Self::Shared, input: HandlerInputView) -> Result<
        HandlerStepView,
        Self::Error,
    >;

    /// Whether `after` and `shared_after` are what the handler and the
    /// shared state become when the handler is told `input`.
    spec fn becomes(
        &self,
        shared: Self::Shared,
        input: HandlerInputView,
        after: Self,
        shared_after: Self::Shared,
    ) -> bool;

    /// Whether the session should end. Asked before each attempt to
    /// connect and between events.
    fn should_stop(&self, shared: &Self::Shared) -> (stop: bool)
        requires
            self.valid(),
        ensures
            stop == self.stops(*shared),
    ;

    /// Called once for each connection, after the handshake, with the id
    /// that the peer gave itself.
    fn on_connect(&mut self, shared: &mut Self::Shared, peer_id: &[u8]) -> (answer: Result<
        HandlerStep,
        Self::Error,
    >)
        requires
            old(self).valid(),
        ensures
            final(self).valid(),
            answer_view(answer) == old(self).answer(
                *old(shared),
                HandlerInputView::Connected(peer_id@),
            ),
            old(self).becomes(
                *old(shared),
                HandlerInputView::Connected(peer_id@),
                *final(self),
                *final(shared),
            ),
    ;

    /// Called for each event of the connection.
    fn on_event(&mut self, shared: &mut Self::Shared, event: PeerEvent) -> (answer: Result<
        HandlerStep,
        Self::Error,
    >)
        requires
            old(self).valid(),
        ensures
            final(self).valid(),
            answer_view(answer) == old(self).answer(*old(shared), HandlerInputView::Event(event@)),
            old(self).becomes(
                *old(shared),
                HandlerInputView::Event(event@),
                *final(self),
                *final(shared),
            ),
    ;

    /// Called when the effect that the handler asked for has been carried
    /// out, with its success.
    fn on_effect_done(&mut self, shared: &mut Self::Shared, succeeded: bool) -> (answer: Result<
        HandlerStep,
        Self::Error,
    >)
        requires
            old(self).valid(),
        ensures
            final(self).valid(),
            answer_view(answer) == old(self).answer(
                *old(shared),
                HandlerInputView::EffectDone(succeeded),
            ),
            old(self).becomes(
                *old(shared),
                HandlerInputView::EffectDone(succeeded),
                *final(self),
                *final(shared),
            ),
    ;
}

/// What the driver of a session reports to `advance`.
#[derive(Debug, Clone, PartialEq, Eq)]
pub enum SessionInput {
    /// The session starts, or a delay has passed.
    Wake,
    /// Connecting or the handshake failed.
    ConnectFailed,
    /// The handshake succeeded; the peer gave itself this id.
    Connected(Vec<u8>),
    /// The connection has this event.
    Event(PeerEvent),
    /// The event stream of the connection has ended.
    StreamClosed,
    /// The effect that was asked for has been carried out, with this
    /// success.
    EffectDone(bool),
}

/// A `SessionInput` as a mathematical value.
pub enum SessionInputView {
    Wake,
    ConnectFailed,
    Connected(Seq<u8>),
    Event(PeerEventView),
    StreamClosed,
    EffectDone(bool),
}

impl View for SessionInput {
    type V = SessionInputView;

    open spec fn view(&self) -> SessionInputView {
        match *self {
            SessionInput::Wake => SessionInputView::Wake,
            SessionInput::ConnectFailed => SessionInputView::ConnectFailed,
            SessionInput::Connected(peer_id) => SessionInputView::Connected(peer_id@),
            SessionInput::Event(event) => SessionInputView::Event(event@),
            SessionInput::StreamClosed => SessionInputView::StreamClosed,
            SessionInput::EffectDone(succeeded) => SessionInputView::EffectDone(succeeded),
        }
    }
}

/// What `advance` tells the driver of a session.
#[derive(Debug, PartialEq, Eq)]
pub enum SessionOutput<E> {
    /// Send the commands, then do what the action says.
    Act { action: SessionAction, commands: Vec<PeerCommand> },
    /// Send the commands, carry out the effect, and report `EffectDone`.
    /// The session has not moved.
    Effect { commands: Vec<PeerCommand>, effect: HandlerEffect },
    /// The handler has failed with this error, and the session with it.
    Failed { action: SessionAction, error: E },
}

/// A `SessionOutput` as a mathematical value.
pub enum SessionOutputView<E> {
    Act { action: SessionAction, commands: Seq<PeerCommandView> },
    Effect { commands: Seq<PeerCommandView>, effect: HandlerEffectView },
    Failed { action: SessionAction, error: E },
}

impl<E> View for SessionOutput<E> {
    type V = SessionOutputView<E>;

    open spec fn view(&self) -> SessionOutputView<E> {
        match *self {
            SessionOutput::Act { action, commands } => SessionOutputView::Act {
                action,
                commands: command_views(commands@),
            },
            SessionOutput::Effect { commands, effect } => SessionOutputView::Effect {
                commands: command_views(commands@),
                effect: effect@,
            },
            SessionOutput::Failed { action, error } => SessionOutputView::Failed { action, error },
        }
    }
}

/// What the handler is told for an input, if the session has the
/// connection for it: the connection itself while the session is
/// connecting, and an event or the end of an effect while it is connected.
/// For every other input, and in every other phase, nobody is told
/// anything.
pub open spec fn told(state: SessionState, input: SessionInputView) -> Option<HandlerInputView> {
    match input {
        SessionInputView::Connected(peer_id) => if state.phase == SessionPhase::Connecting {
            Some(HandlerInputView::Connected(peer_id))
        } else {
            None
        },
        SessionInputView::Event(event) => if state.phase == SessionPhase::Connected {
            Some(HandlerInputView::Event(event))
        } else {
            None
        },
        SessionInputView::EffectDone(succeeded) => if state.phase == SessionPhase::Connected {
            Some(HandlerInputView::EffectDone(succeeded))
        } else {
            None
        },
        _ => None,
    }
}

/// What an input reports to the session when nobody is told anything. An
/// event, or the end of an effect, for which there is no connection is
/// reported as an answer that nobody was asked for.
pub open spec fn reported(input: SessionInputView) -> SessionEvent {
    match input {
        SessionInputView::Wake => SessionEvent::Wake,
        SessionInputView::ConnectFailed => SessionEvent::ConnectFailed,
        SessionInputView::Connected(_) => SessionEvent::Connected,
        SessionInputView::StreamClosed => SessionEvent::StreamClosed,
        SessionInputView::Event(_) => SessionEvent::Handled(SessionControl::Continue),
        SessionInputView::EffectDone(_) => SessionEvent::Handled(SessionControl::Continue),
    }
}

/// The state in which the handler is told: after a handshake the session
/// has first noted the connection.
pub open spec fn consulted_in(
    config: PeerSessionConfig,
    state: SessionState,
    input: SessionInputView,
) -> SessionState {
    match input {
        SessionInputView::Connected(_) => session_step(
            config,
            state,
            SessionEvent::Connected,
            false,
        ).0,
        _ => state,
    }
}

/// What a session makes of its handler's answer.
///
/// An error fails the session. An answer that asks for an effect leaves
/// the session where it is and passes commands and effect on. Any other
/// answer moves the session by the step for its control, taken with the
/// handler's wish to stop, and passes the commands on.
pub open spec fn settled<E>(
    config: PeerSessionConfig,
    state: SessionState,
    answer: Result<HandlerStepView, E>,
    stop: bool,
) -> (SessionState, SessionOutputView<E>) {
    match answer {
        Err(error) => (
            session_step(config, state, SessionEvent::HandlerFailed, false).0,
            SessionOutputView::Failed {
                action: session_step(config, state, SessionEvent::HandlerFailed, false).1,
                error,
            },
        ),
        Ok(step) => if step.effect is Nothing {
            (
                session_step(config, state, SessionEvent::Handled(step.control), stop).0,
                SessionOutputView::Act {
                    action: session_step(
                        config,
                        state,
                        SessionEvent::Handled(step.control),
                        stop,
                    ).1,
                    commands: step.commands,
                },
            )
        } else {
            (state, SessionOutputView::Effect { commands: step.commands, effect: step.effect })
        },
    }
}

/// What a session makes of an input for which nobody is told anything: the
/// step for what the input reports, taken with the handler's wish to stop,
/// and no command.
pub open spec fn passed<E>(
    config: PeerSessionConfig,
    state: SessionState,
    input: SessionInputView,
    stop: bool,
) -> (SessionState, SessionOutputView<E>) {
    (
        session_step(config, state, reported(input), stop).0,
        SessionOutputView::Act {
            action: session_step(config, state, reported(input), stop).1,
            commands: Seq::empty(),
        },
    )
}

impl PeerSession {
    fn settle<H: PeerSessionHandler>(
        &mut self,
        handler: &H,
        shared: &H::Shared,
        answer: Result<HandlerStep, H::Error>,
    ) -> (output: SessionOutput<H::Error>)
        requires
            handler.valid(),
        ensures
            final(self).spec_config() == old(self).spec_config(),
            final(self).spec_peer() == old(self).spec_peer(),
            final(self).spec_info_hash() == old(self).spec_info_hash(),
            final(self).spec_client_id() == old(self).spec_client_id(),
            (final(self).state(), output@) == settled(
                old(self).spec_config(),
                old(self).state(),
                answer_view(answer),
                handler.stops(*shared),
            ),
    {
        match answer {
            Err(error) => {
                let action = self.step(SessionEvent::HandlerFailed, false);
                SessionOutput::Failed { action, error }
            },
            Ok(step) => {
                match step.effect {
                    HandlerEffect::Nothing => {
                        let stop = handler.should_stop(shared);
                        let action = self.step(SessionEvent::Handled(step.control), stop);
                        SessionOutput::Act { action, commands: step.commands }
                    },
                    effect => SessionOutput::Effect { commands: step.commands, effect },
                }
            },
        }
    }

    /// Takes what the driver reports, tells the handler where there is a
    /// connection for it, and says what the driver does next.
    ///
    /// Where nobody is told anything (`told`), handler and shared state
    /// stay as they are, and the session and the output are those of
    /// `passed`. Where the handler is told, it and the shared state become
    /// what the handler says (`becomes`), and the session and the output
    /// are what `settled` makes of the handler's answer.
    pub fn advance<H: PeerSessionHandler>(
        &mut self,
        handler: &mut H,
        shared: &mut H::Shared,
        input: SessionInput,
    ) -> (output: SessionOutput<H::Error>)
        requires
            old(handler).valid(),
        ensures
            final(handler).valid(),
            final(self).spec_config() == old(self).spec_config(),
            final(self).spec_peer() == old(self).spec_peer(),
            final(self).spec_info_hash() == old(self).spec_info_hash(),
            final(self).spec_client_id() == old(self).spec_client_id(),
            match told(old(self).state(), input@) {
                None => {
                    &&& *final(handler) == *old(handler)
                    &&& *final(shared) == *old(shared)
                    &&& (final(self).state(), output@) == passed::<H::Error>(
                        old(self).spec_config(),
                        old(self).state(),
                        input@,
                        old(handler).stops(*old(shared)),
                    )
                },
                Some(message) => {
                    &&& old(handler).becomes(
                        *old(shared),
                        message,
                        *final(handler),
                        *final(shared),
                    )
                    &&& (final(self).state(), output@) == settled(
                        old(self).spec_config(),
                        consulted_in(old(self).spec_config(), old(self).state(), input@),
                        old(handler).answer(*old(shared), message),
                        final(handler).stops(*final(shared)),
                    )
                },
            },
    {
        let consults: bool = match (&input, self.phase) {
            (SessionInput::Connected(_), SessionPhase::Connecting) => true,
            (SessionInput::Event(_), SessionPhase::Connected) => true,
            (SessionInput::EffectDone(_), SessionPhase::Connected) => true,
            _ => false,
        };
        if !consults {
            let event: SessionEvent = match input {
                SessionInput::Wake => SessionEvent::Wake,
                SessionInput::ConnectFailed => SessionEvent::ConnectFailed,
                SessionInput::Connected(_) => SessionEvent::Connected,
                SessionInput::StreamClosed => SessionEvent::StreamClosed,
                SessionInput::Event(_) => SessionEvent::Handled(SessionControl::Continue),
                SessionInput::EffectDone(_) => SessionEvent::Handled(SessionControl::Continue),
            };
            let stop = handler.should_stop(shared);
            let action = self.step(event, stop);
            let output = SessionOutput::Act { action, commands: Vec::new() };
            assert(output@->Act_commands =~= Seq::empty());
            return output;
        }
        let answer = match input {
            SessionInput::Connected(peer_id) => {
                let _greet = self.step(SessionEvent::Connected, false);
                handler.on_connect(shared, peer_id.as_slice())
            },
            SessionInput::Event(event) => handler.on_event(shared, event),
            SessionInput::EffectDone(succeeded) => handler.on_effect_done(shared, succeeded),
            // For the other inputs nobody is told anything.
            _ => vstd::pervasive::unreached(),
        };
        self.settle(&*handler, &*shared, answer)
    }
}

/// A session that has ended stays ended, and the failure count of a
/// session only returns to zero through a successful handshake.
pub proof fn lemma_session_step_laws(
    config: PeerSessionConfig,
    state: SessionState,
    event: SessionEvent,
    should_stop: bool,
)
    ensures
        ({
            let (next, action) = session_step(config, state, event, should_stop);
            &&& state.phase == SessionPhase::Finished ==> next.phase == SessionPhase::Finished
            &&& (action is Finish || action is Fail) <==> next.phase == SessionPhase::Finished
            &&& next.attempts < state.attempts ==> event == SessionEvent::Connected
                && next.attempts == 0
            &&& action matches SessionAction::Sleep(ms) ==> ms <= config.backoff_cap_ms
            &&& action == SessionAction::Fail(SessionError::MaxRetriesExceeded) ==> config.max_retries
                > 0 && state.attempts >= config.max_retries
        }),
{
}

/// What a session is told while attempt after attempt fails: to wake, and
/// that connecting failed, `rounds` times over.
pub open spec fn failing_events(rounds: nat) -> Seq<SessionEvent>
    decreases rounds,
{
    if rounds == 0 {
        Seq::empty()
    } else {
        failing_events((rounds - 1) as nat).push(SessionEvent::Wake).push(
            SessionEvent::ConnectFailed,
        )
    }
}

/// What a session does while attempt after attempt fails: it connects and
/// then sleeps for the delay that the failures before call for, `rounds`
/// times over.
pub open spec fn failing_actions(config: PeerSessionConfig, rounds: nat) -> Seq<SessionAction>
    decreases rounds,
{
    if rounds == 0 {
        Seq::empty()
    } else {
        failing_actions(config, (rounds - 1) as nat).push(SessionAction::Connect).push(
            SessionAction::Sleep(backoff_ms(config, (rounds - 1) as u32) as u64),
        )
    }
}

/// The delays after each of the first `rounds` failures, added up.
pub open spec fn total_backoff(config: PeerSessionConfig, rounds: nat) -> int
    decreases rounds,
{
    if rounds == 0 {
        0
    } else {
        total_backoff(config, (rounds - 1) as nat) + backoff_ms(config, (rounds - 1) as u32)
    }
}

/// The milliseconds of sleep among actions, added up.
pub open spec fn total_sleep(actions: Seq<SessionAction>) -> int
    decreases actions.len(),
{
    if actions.len() == 0 {
        0
    } else {
        total_sleep(actions.drop_last()) + match actions.last() {
            SessionAction::Sleep(ms) => ms as int,
            _ => 0,
        }
    }
}

/// Where a session stands, and what it has done, after it has been told a
/// run of events while its handler never wished to stop.
pub open spec fn session_run(
    config: PeerSessionConfig,
    state: SessionState,
    events: Seq<SessionEvent>,
) -> (SessionState, Seq<SessionAction>)
    decreases events.len(),
{
    if events.len() == 0 {
        (state, Seq::empty())
    } else {
        let before = session_run(config, state, events.drop_last());
        let step = session_step(config, before.0, events.last(), false);
        (step.0, before.1.push(step.1))
    }
}

/// A session whose attempts all fail gives up after as many attempts as
/// its policy allows: as long as the policy allows another attempt, each
/// round connects once and then sleeps for the delay of the failures so
/// far, so that the sleeps add up to the sum of those delays; and once as
/// many attempts have failed as the policy allows, waking fails with
/// `MaxRetriesExceeded`, without another attempt.
pub proof fn lemma_failing_attempts(config: PeerSessionConfig, rounds: nat)
    requires
        rounds <= u32::MAX,
        config.max_retries == 0 || rounds <= config.max_retries,
    ensures
        ({
            let fresh = SessionState { phase: SessionPhase::Idle, attempts: 0 };
            let run = session_run(config, fresh, failing_events(rounds));
            &&& run.0 == (SessionState { phase: SessionPhase::Idle, attempts: rounds as u32 })
            &&& run.1 == failing_actions(config, rounds)
            &&& total_sleep(run.1) == total_backoff(config, rounds)
            &&& config.max_retries > 0 && rounds == config.max_retries ==> session_step(
                config,
                run.0,
                SessionEvent::Wake,
                false,
            ) == (
                SessionState { phase: SessionPhase::Finished, attempts: rounds as u32 },
                SessionAction::Fail(SessionError::MaxRetriesExceeded),
            )
        }),
    decreases rounds,
{
    let fresh = SessionState { phase: SessionPhase::Idle, attempts: 0 };
    if rounds > 0 {
        let earlier = (rounds - 1) as nat;
        lemma_failing_attempts(config, earlier);
        let before = failing_events(earlier);
        let woken = before.push(SessionEvent::Wake);
        let failed = woken.push(SessionEvent::ConnectFailed);
        assert(failing_events(rounds) == failed);
        assert(failed.drop_last() =~= woken);
        assert(woken.drop_last() =~= before);
        let idle = SessionState { phase: SessionPhase::Idle, attempts: earlier as u32 };
        assert(session_run(config, fresh, before).0 == idle);
        let connecting = SessionState { phase: SessionPhase::Connecting, attempts: earlier as u32 };
        assert(session_step(config, idle, SessionEvent::Wake, false) == (
            connecting,
            SessionAction::Connect,
        ));
        assert(session_run(config, fresh, woken) == (
            connecting,
            failing_actions(config, earlier).push(SessionAction::Connect),
        ));
        let sleep = SessionAction::Sleep(backoff_ms(config, earlier as u32) as u64);
        assert(session_step(config, connecting, SessionEvent::ConnectFailed, false) == (
            SessionState { phase: SessionPhase::Idle, attempts: rounds as u32 },
            sleep,
        ));
        let actions = failing_actions(config, rounds);
        assert(actions.drop_last() =~= failing_actions(config, earlier).push(
            SessionAction::Connect,
        ));
        assert(actions.drop_last().drop_last() =~= failing_actions(config, earlier));
        assert(0 <= backoff_ms(config, earlier as u32) <= config.backoff_cap_ms) by {
            lemma_backoff_bounds(config, earlier as u32);
        }
        assert(total_sleep(actions.drop_last()) == total_sleep(failing_actions(config, earlier)));
    }
}

/// While attempts fail the handler is told nothing: neither waking nor a
/// failed attempt reaches it, in whatever phase the session is.
pub proof fn lemma_failures_tell_nobody(state: SessionState)
    ensures
        told(state, SessionInputView::Wake) is None,
        told(state, SessionInputView::ConnectFailed) is None,
        told(state, SessionInputView::StreamClosed) is None,
{
}

proof fn lemma_backoff_bounds(config: PeerSessionConfig, attempts: u32)
    ensures
        0 <= backoff_ms(config, attempts) <= config.backoff_cap_ms,
{
    let shift: nat = if attempts < 10 {
        attempts as nat
    } else {
        10
    };
    lemma_pow2_monotonic(0, shift);
    assert(0 <= config.backoff_base_ms * pow2(shift)) by (nonlinear_arith)
        requires
            pow2(shift) >= 1,
            config.backoff_base_ms >= 0,
    ;
}

} // verus!
