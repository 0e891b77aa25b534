//! The registry of open chat connections, one per peer nickname.

pub mod connection;

use vstd::prelude::*;
use tokio::sync::mpsc::Sender;
use crate::nickmap::NickMap;
use crate::ui::AppEvent;

verus! {

/// tokio's bounded channel sender, carried through unopened.
#[verifier::external_type_specification]
#[verifier::external_body]
#[verifier::reject_recursive_types(T)]
pub struct ExSender<T>(Sender<T>);

/// tokio's `Sender::try_send`: queues `event` when the channel is open and has
/// room, and gives it back as an error otherwise; the error is dropped here.
/// Which of the two happens depends on the receiving side, so nothing is
/// stated of it.
#[verifier::external_body]
fn try_deliver(tx: &Sender<AppEvent>, event: AppEvent) {
    let _ = tx.try_send(event);
}

/// Why a message could not be handed to a peer's connection.
#[derive(Clone, Copy, Debug, PartialEq, Eq, Structural)]
pub enum SendError {
    /// No connection is registered under that nickname.
    NoConnection,
    /// The connection's channel was closed.
    Closed,
}

impl SendError {
    /// The message shown to the user for this error.
    pub fn message(&self) -> (r: &'static str)
        ensures
            *self == SendError::NoConnection ==> r@ == "немає з'єднання з цим піром"@,
            *self == SendError::Closed ==> r@ == "з'єднання закрито"@,
    {
        match self {
            SendError::NoConnection => "немає з'єднання з цим піром",
            SendError::Closed => "з'єднання закрито",
        }
    }
}

/// The outgoing channels of the open connections, by peer nickname, and the
/// channel that feeds events to the interface.
pub struct ConnectionManager {
    connections: NickMap<Sender<String>>,
    event_tx: Sender<AppEvent>,
}

impl View for ConnectionManager {
    type V = Map<Seq<char>, Sender<String>>;

    closed spec fn view(&self) -> Map<Seq<char>, Sender<String>> {
        self.connections@
    }
}

impl ConnectionManager {
    /// The channel that events go to.
    pub closed spec fn event_sender(&self) -> Sender<AppEvent> {
        self.event_tx
    }

    /// A registry with no connections that reports events on `event_tx`.
    pub fn new(event_tx: Sender<AppEvent>) -> (r: Self)
        ensures
            r@ == Map::<Seq<char>, Sender<String>>::empty(),
            r.event_sender() == event_tx,
    {
        ConnectionManager { connections: NickMap::new(), event_tx }
    }

    /// Hands an event to the interface if its channel takes it; otherwise the
    /// event is dropped (the interface may already have closed).
    pub fn send_event(&self, event: AppEvent) {
        try_deliver(&self.event_tx, event);
    }

    /// Whether a connection is registered for `nickname`.
    pub fn has_connection(&self, nickname: &str) -> (r: bool)
        ensures
            r == self@.contains_key(nickname@),
    {
        self.connections.contains_key(nickname)
    }

    /// Registers `sender` as the connection of `nickname`, replacing any other.
    pub fn add(&mut self, nickname: String, sender: Sender<String>)
        ensures
            final(self)@ == old(self)@.insert(nickname@, sender),
            final(self).event_sender() == old(self).event_sender(),
    {
        self.connections.insert(nickname, sender);
    }

    /// Forgets the connection of `nickname`, if any.
    pub fn remove(&mut self, nickname: &str)
        ensures
            final(self)@ == old(self)@.remove(nickname@),
            final(self).event_sender() == old(self).event_sender(),
    {
        self.connections.remove(nickname);
    }

    /// The channel that a message for `nickname` goes to, or
    /// [`SendError::NoConnection`] when there is none.
    pub fn route(&self, nickname: &str) -> (r: Result<&Sender<String>, SendError>)
        ensures
            match r {
                Ok(tx) => self@.contains_key(nickname@) && *tx == self@[nickname@],
                Err(e) => !self@.contains_key(nickname@) && e == SendError::NoConnection,
            },
    {
        match self.connections.get(nickname) {
            Some(tx) => Ok(tx),
            None => Err(SendError::NoConnection),
        }
    }
}

/// A connection that was just registered is found under its nickname, and one
/// that was just forgotten is not.
pub proof fn law_registered_connection_routed(
    m: Map<Seq<char>, Sender<String>>,
    nickname: Seq<char>,
    tx: Sender<String>,
)
    ensures
        m.insert(nickname, tx).contains_key(nickname),
        m.insert(nickname, tx)[nickname] == tx,
        !m.remove(nickname).contains_key(nickname),
{
}

} // verus!
