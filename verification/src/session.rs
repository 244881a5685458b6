//! The per-connection session: a state machine that takes one event at a
//! time, from the client or from the broadcast hub, and answers with the one
//! action that the connection's task has to perform.
//!
//! The session never touches the connection or the hub itself. Its owner
//! waits on both, hands each event in, and carries the action out.

use crate::authorization::{
    get_username_from_token_if_valid_at, verified, Token, TokenAuthority, TokenView,
};
use crate::crypto::unix_time;
use vstd::prelude::*;

verus! {

/// How many undelivered messages the hub keeps for one subscriber before it
/// drops the oldest.
pub const HUB_CAPACITY: usize = 32;

/// A chat message in transit through the hub, and the record that is written
/// to every client.
#[derive(Clone, Debug, PartialEq, Eq)]
pub struct ChatMessage {
    pub author: String,
    pub message: String,
}

/// What a chat message holds.
pub struct ChatMessageView {
    pub author: Seq<char>,
    pub message: Seq<char>,
}

impl View for ChatMessage {
    type V = ChatMessageView;

    open spec fn view(&self) -> ChatMessageView {
        ChatMessageView { author: self.author@, message: self.message@ }
    }
}

/// Where a session stands.
#[derive(Clone, Debug, PartialEq, Eq)]
pub enum SessionState {
    /// Nobody has proved an identity yet: the initial state.
    Unauthenticated,
    /// The client proved to be this user.
    Authenticated(String),
    /// The session is over.
    Terminated,
}

/// What a session state holds.
pub enum SessionStateView {
    Unauthenticated,
    Authenticated(Seq<char>),
    Terminated,
}

impl View for SessionState {
    type V = SessionStateView;

    open spec fn view(&self) -> SessionStateView {
        match self {
            SessionState::Unauthenticated => SessionStateView::Unauthenticated,
            SessionState::Authenticated(username) => SessionStateView::Authenticated(username@),
            SessionState::Terminated => SessionStateView::Terminated,
        }
    }
}

/// A decoded frame from the client.
#[derive(Clone, Debug, PartialEq, Eq)]
pub enum WebsocketSignal {
    /// The client presents a token; `None` where the text it sent does not
    /// decode as one.
    Authorization(Option<Token>),
    /// The client posts a text.
    Message(String),
}

/// What a signal holds.
pub enum WebsocketSignalView {
    Authorization(Option<TokenView>),
    Message(Seq<char>),
}

impl View for WebsocketSignal {
    type V = WebsocketSignalView;

    open spec fn view(&self) -> WebsocketSignalView {
        match self {
            WebsocketSignal::Authorization(Some(token)) => WebsocketSignalView::Authorization(
                Some(token@),
            ),
            WebsocketSignal::Authorization(None) => WebsocketSignalView::Authorization(None),
            WebsocketSignal::Message(text) => WebsocketSignalView::Message(text@),
        }
    }
}

/// What waiting on the connection gave.
#[derive(Clone, Debug, PartialEq, Eq)]
pub enum Inbound {
    /// The client closed the connection.
    Closed,
    /// Reading from the connection failed.
    Failed,
    /// A frame arrived that does not decode as a signal.
    Undecodable,
    /// A signal arrived.
    Signal(WebsocketSignal),
}

/// What waiting on the hub gave.
#[derive(Clone, Debug, PartialEq, Eq)]
pub enum Delivery {
    /// A message that somebody published.
    Message(ChatMessage),
    /// The subscriber fell behind and the hub dropped this many messages.
    Lagged(u64),
    /// The hub is gone.
    Closed,
}

/// One event in the life of a session.
#[derive(Clone, Debug, PartialEq, Eq)]
pub enum Event {
    Inbound(Inbound),
    Delivery(Delivery),
    /// Writing the last forwarded message to the client failed.
    WriteFailed,
}

/// What an event holds.
pub enum EventView {
    ConnectionClosed,
    ReadFailed,
    Undecodable,
    Signal(WebsocketSignalView),
    Delivered(ChatMessageView),
    Lagged(u64),
    HubClosed,
    WriteFailed,
}

impl View for Event {
    type V = EventView;

    open spec fn view(&self) -> EventView {
        match self {
            Event::Inbound(Inbound::Closed) => EventView::ConnectionClosed,
            Event::Inbound(Inbound::Failed) => EventView::ReadFailed,
            Event::Inbound(Inbound::Undecodable) => EventView::Undecodable,
            Event::Inbound(Inbound::Signal(signal)) => EventView::Signal(signal@),
            Event::Delivery(Delivery::Message(message)) => EventView::Delivered(message@),
            Event::Delivery(Delivery::Lagged(missed)) => EventView::Lagged(*missed),
            Event::Delivery(Delivery::Closed) => EventView::HubClosed,
            Event::WriteFailed => EventView::WriteFailed,
        }
    }
}

/// What the owner of a session has to do after an event.
#[derive(Clone, Debug, PartialEq, Eq)]
pub enum Action {
    /// Nothing: wait for the next event.
    Wait,
    /// Publish this message to the hub.
    Publish(ChatMessage),
    /// Write this message to the client.
    Forward(ChatMessage),
    /// Close the connection and stop.
    Close,
}

/// What an action holds.
pub enum ActionView {
    Wait,
    Publish(ChatMessageView),
    Forward(ChatMessageView),
    Close,
}

impl View for Action {
    type V = ActionView;

    open spec fn view(&self) -> ActionView {
        match self {
            Action::Wait => ActionView::Wait,
            Action::Publish(message) => ActionView::Publish(message@),
            Action::Forward(message) => ActionView::Forward(message@),
            Action::Close => ActionView::Close,
        }
    }
}

/// The state after a signal from the client, and the action it calls for.
/// A valid token authenticates a session that is not authenticated yet; an
/// authenticated session may post; everything else ends the session.
pub open spec fn on_signal(
    state: SessionStateView,
    signal: WebsocketSignalView,
    key: Seq<u8>,
    now: i64,
) -> (SessionStateView, ActionView) {
    match (state, signal) {
        (SessionStateView::Unauthenticated, WebsocketSignalView::Authorization(Some(token))) => {
            match verified(key, token, now) {
                Some(username) => (SessionStateView::Authenticated(username), ActionView::Wait),
                None => (SessionStateView::Terminated, ActionView::Close),
            }
        },
        (SessionStateView::Authenticated(username), WebsocketSignalView::Message(text)) => (
            SessionStateView::Authenticated(username),
            ActionView::Publish(ChatMessageView { author: username, message: text }),
        ),
        _ => (SessionStateView::Terminated, ActionView::Close),
    }
}

/// The transition table of a session: the state after `event`, and the
/// action that the event calls for. `key` is the authority's key and `now`
/// the time at which a presented token is checked.
pub open spec fn transition(state: SessionStateView, event: EventView, key: Seq<u8>, now: i64) -> (
    SessionStateView,
    ActionView,
) {
    if state is Terminated {
        (SessionStateView::Terminated, ActionView::Close)
    } else {
        match event {
            EventView::ConnectionClosed => (SessionStateView::Terminated, ActionView::Close),
            EventView::ReadFailed => (SessionStateView::Terminated, ActionView::Close),
            EventView::WriteFailed => (SessionStateView::Terminated, ActionView::Close),
            EventView::HubClosed => (SessionStateView::Terminated, ActionView::Close),
            EventView::Undecodable => (state, ActionView::Wait),
            EventView::Lagged(_) => (state, ActionView::Wait),
            EventView::Delivered(message) => (state, ActionView::Forward(message)),
            EventView::Signal(signal) => on_signal(state, signal, key, now),
        }
    }
}

/// One connection's session.
pub struct Session {
    state: SessionState,
}

impl View for Session {
    type V = SessionStateView;

    closed spec fn view(&self) -> SessionStateView {
        self.state@
    }
}

impl Session {
    /// A session for a connection that has just been accepted.
    pub fn new() -> (session: Session)
        ensures
            session@ == SessionStateView::Unauthenticated,
    {
        Session { state: SessionState::Unauthenticated }
    }

    /// Where the session stands.
    pub fn state(&self) -> (state: &SessionState)
        ensures
            state@ == self@,
    {
        &self.state
    }

    /// Whether the session is over.
    pub fn is_terminated(&self) -> (over: bool)
        ensures
            over == (self@ is Terminated),
    {
        match &self.state {
            SessionState::Terminated => true,
            _ => false,
        }
    }

    /// Takes one event, checking a presented token at time `now`, and moves
    /// as the transition table says.
    pub fn step_at(&mut self, authority: &TokenAuthority, event: Event, now: i64) -> (action:
        Action)
        ensures
            (final(self)@, action@) == transition(old(self)@, event@, authority.key(), now),
    {
        if self.is_terminated() {
            return Action::Close;
        }
        match event {
            Event::Inbound(Inbound::Undecodable) => Action::Wait,
            Event::Delivery(Delivery::Lagged(_)) => Action::Wait,
            Event::Delivery(Delivery::Message(message)) => Action::Forward(message),
            Event::Inbound(Inbound::Signal(signal)) => self.signal_at(authority, signal, now),
            _ => {
                self.state = SessionState::Terminated;
                Action::Close
            },
        }
    }

    /// Takes one event, checking a presented token against the clock: the
    /// session moves as `step_at` does for the time that the clock showed.
    /// The clock is read only where a token was presented.
    pub fn step(&mut self, authority: &TokenAuthority, event: Event) -> (action: Action)
        ensures
            exists|now: i64|
                (final(self)@, action@) == #[trigger] transition(
                    old(self)@,
                    event@,
                    authority.key(),
                    now,
                ),
    {
        let now = match &event {
            Event::Inbound(Inbound::Signal(WebsocketSignal::Authorization(Some(_)))) => unix_time(),
            _ => 0,
        };
        let action = self.step_at(authority, event, now);
        proof {
            assert((self@, action@) == transition(old(self)@, event@, authority.key(), now));
        }
        action
    }

    /// Takes a signal from the client in a session that is not over.
    fn signal_at(&mut self, authority: &TokenAuthority, signal: WebsocketSignal, now: i64) -> (action:
        Action)
        requires
            !(old(self)@ is Terminated),
        ensures
            (final(self)@, action@) == on_signal(old(self)@, signal@, authority.key(), now),
    {
        let mut publish: Option<ChatMessage> = None;
        let mut next: SessionState = SessionState::Terminated;
        match (&self.state, signal) {
            (SessionState::Unauthenticated, WebsocketSignal::Authorization(Some(token))) => {
                match get_username_from_token_if_valid_at(authority, &token, now) {
                    Some(username) => {
                        next = SessionState::Authenticated(username.to_owned());
                    },
                    None => {},
                }
            },
            (SessionState::Authenticated(username), WebsocketSignal::Message(text)) => {
                next = SessionState::Authenticated(username.clone());
                publish = Some(ChatMessage { author: username.clone(), message: text });
            },
            _ => {},
        }
        self.state = next;
        match publish {
            Some(message) => Action::Publish(message),
            None => {
                if self.is_terminated() {
                    Action::Close
                } else {
                    Action::Wait
                }
            },
        }
    }
}

/// The states and actions that a session goes through from `state` when it
/// takes `events` in order, the `i`-th of them at time `times[i]`: the state
/// it ends in, and one action for each event.
pub open spec fn run(
    state: SessionStateView,
    events: Seq<EventView>,
    key: Seq<u8>,
    times: Seq<i64>,
) -> (SessionStateView, Seq<ActionView>)
    recommends
        times.len() == events.len(),
    decreases events.len(),
{
    if events.len() == 0 {
        (state, Seq::empty())
    } else {
        let before = run(state, events.drop_last(), key, times.drop_last());
        let last = transition(before.0, events.last(), key, times.last());
        (last.0, before.1.push(last.1))
    }
}

/// A client that posts before it has authenticated is cut off, and nothing
/// is published.
pub proof fn lemma_post_before_authentication_closes(text: Seq<char>, key: Seq<u8>, now: i64)
    ensures
        transition(
            SessionStateView::Unauthenticated,
            EventView::Signal(WebsocketSignalView::Message(text)),
            key,
            now,
        ) == (SessionStateView::Terminated, ActionView::Close),
{
}

/// A token that does not verify, or a text that is no token, ends the
/// session; a token that verifies authenticates it as the token's user.
pub proof fn lemma_authorization_decides(token: Option<TokenView>, key: Seq<u8>, now: i64)
    ensures
        transition(
            SessionStateView::Unauthenticated,
            EventView::Signal(WebsocketSignalView::Authorization(token)),
            key,
            now,
        ) == (if token is Some && verified(key, token->Some_0, now) is Some {
            (SessionStateView::Authenticated(token->Some_0.username), ActionView::Wait)
        } else {
            (SessionStateView::Terminated, ActionView::Close)
        }),
{
}

/// A client that presents a token after it has authenticated is cut off,
/// whatever the token.
pub proof fn lemma_second_authorization_terminates(
    username: Seq<char>,
    token: Option<TokenView>,
    key: Seq<u8>,
    now: i64,
)
    ensures
        transition(
            SessionStateView::Authenticated(username),
            EventView::Signal(WebsocketSignalView::Authorization(token)),
            key,
            now,
        ) == (SessionStateView::Terminated, ActionView::Close),
{
}

/// A post of an authenticated client is published under the name it
/// authenticated with, and the session stays authenticated.
pub proof fn lemma_authenticated_post_is_published(
    username: Seq<char>,
    text: Seq<char>,
    key: Seq<u8>,
    now: i64,
)
    ensures
        transition(
            SessionStateView::Authenticated(username),
            EventView::Signal(WebsocketSignalView::Message(text)),
            key,
            now,
        ) == (
            SessionStateView::Authenticated(username),
            ActionView::Publish(ChatMessageView { author: username, message: text }),
        ),
{
}

/// Publishing is gated by authentication: a message is published only for a
/// post of an authenticated client, and under that client's name.
pub proof fn lemma_only_authenticated_sessions_publish(
    state: SessionStateView,
    event: EventView,
    key: Seq<u8>,
    now: i64,
)
    ensures
        transition(state, event, key, now).1 matches ActionView::Publish(message) ==> {
            &&& state == SessionStateView::Authenticated(message.author)
            &&& event == EventView::Signal(WebsocketSignalView::Message(message.message))
            &&& transition(state, event, key, now).0 == state
        },
{
}

/// A session that is not over forwards every delivery of the hub to its
/// client, authenticated or not, and stays as it is; a lag notice changes
/// nothing and asks for nothing.
pub proof fn lemma_deliveries_reach_live_sessions(
    state: SessionStateView,
    message: ChatMessageView,
    missed: u64,
    key: Seq<u8>,
    now: i64,
)
    requires
        !(state is Terminated),
    ensures
        transition(state, EventView::Delivered(message), key, now) == (
            state,
            ActionView::Forward(message),
        ),
        transition(state, EventView::Lagged(missed), key, now) == (state, ActionView::Wait),
        transition(state, EventView::Undecodable, key, now) == (state, ActionView::Wait),
{
}

/// The state changes only by authenticating or by ending: a session never
/// changes the name it authenticated with, and never falls back to being
/// unauthenticated.
pub proof fn lemma_state_moves_forward(
    state: SessionStateView,
    event: EventView,
    key: Seq<u8>,
    now: i64,
)
    ensures
        ({
            let next = transition(state, event, key, now).0;
            &&& next == state || next is Terminated || (state is Unauthenticated
                && next is Authenticated)
            &&& next is Authenticated && state is Unauthenticated ==> {
                &&& event matches EventView::Signal(
                    WebsocketSignalView::Authorization(Some(token)),
                )
                &&& verified(key, token, now) == Some(next->Authenticated_0)
            }
        }),
{
}

/// The action is `Close` exactly when the session is over after the event.
pub proof fn lemma_close_means_terminated(
    state: SessionStateView,
    event: EventView,
    key: Seq<u8>,
    now: i64,
)
    ensures
        transition(state, event, key, now).1 is Close <==> transition(
            state,
            event,
            key,
            now,
        ).0 is Terminated,
{
}

/// A session that is over stays over: whatever events follow, it asks for
/// nothing but to close, and so never publishes nor forwards again.
pub proof fn lemma_terminated_is_final(events: Seq<EventView>, key: Seq<u8>, times: Seq<i64>)
    requires
        times.len() == events.len(),
    ensures
        run(SessionStateView::Terminated, events, key, times).0 is Terminated,
        run(SessionStateView::Terminated, events, key, times).1.len() == events.len(),
        forall|i: int|
            0 <= i < events.len() ==> run(SessionStateView::Terminated, events, key, times).1[i]
                is Close,
    decreases events.len(),
{
    if events.len() > 0 {
        lemma_terminated_is_final(events.drop_last(), key, times.drop_last());
    }
}

/// A session that starts unauthenticated and is sent a post as its first
/// signal never publishes, whatever follows.
pub proof fn lemma_early_post_never_publishes(
    text: Seq<char>,
    rest: Seq<EventView>,
    key: Seq<u8>,
    times: Seq<i64>,
)
    requires
        times.len() == rest.len() + 1,
    ensures
        ({
            let events = seq![EventView::Signal(WebsocketSignalView::Message(text))] + rest;
            let actions = run(SessionStateView::Unauthenticated, events, key, times).1;
            &&& actions.len() == events.len()
            &&& forall|i: int| 0 <= i < actions.len() ==> actions[i] is Close
        }),
    decreases rest.len(),
{
    let first = EventView::Signal(WebsocketSignalView::Message(text));
    let events = seq![first] + rest;
    if rest.len() == 0 {
        assert(events.drop_last() =~= Seq::<EventView>::empty());
        assert(run(SessionStateView::Unauthenticated, events.drop_last(), key, times.drop_last())
            == (SessionStateView::Unauthenticated, Seq::<ActionView>::empty()));
        assert(events.last() == first);
    } else {
        lemma_early_post_never_publishes(text, rest.drop_last(), key, times.drop_last());
        assert(events.drop_last() =~= seq![first] + rest.drop_last());
        lemma_run_ends_closed(
            SessionStateView::Unauthenticated,
            events.drop_last(),
            key,
            times.drop_last(),
        );
    }
}

/// After a run whose last action was `Close`, the session is over.
pub proof fn lemma_run_ends_closed(
    state: SessionStateView,
    events: Seq<EventView>,
    key: Seq<u8>,
    times: Seq<i64>,
)
    requires
        times.len() == events.len(),
        events.len() > 0,
    ensures
        run(state, events, key, times).1.len() == events.len(),
        run(state, events, key, times).1.last() is Close <==> run(
            state,
            events,
            key,
            times,
        ).0 is Terminated,
    decreases events.len(),
{
    if events.len() > 1 {
        lemma_run_ends_closed(state, events.drop_last(), key, times.drop_last());
    } else {
        assert(events.drop_last().len() == 0);
    }
    let before = run(state, events.drop_last(), key, times.drop_last());
    lemma_close_means_terminated(before.0, events.last(), key, times.last());
}

} // verus!
