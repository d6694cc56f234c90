//! The reconnecting client to one upstream hub, as a state machine: the
//! caller performs each action and reports what happened.
use vstd::prelude::*;

verus! {

/// Fixed back-off after a failure, in milliseconds.
pub const BACKOFF_MS: u64 = 500;

#[derive(Debug, Clone, Copy, PartialEq, Eq, Structural)]
pub enum OutgoingConnectionState {
    Start,
    Connecting,
    Waiting,
    Connected,
}

/// What happened since the last step.
#[derive(Debug, Clone, Copy, PartialEq, Eq, Structural)]
pub enum OutgoingEvent {
    /// The consumer asks for the next item.
    Poll,
    ConnectOk,
    ConnectFailed,
    TimerElapsed,
    /// A whole payload arrived on the connection.
    Message,
    /// The peer closed the connection.
    Closed,
    ReadError,
    WriteError,
}

/// What the caller does next.
#[derive(Debug, Clone, Copy, PartialEq, Eq, Structural)]
pub enum OutgoingAction {
    /// Nothing to do until the next event.
    Wait,
    /// No address is set: stay parked for good.
    Park,
    /// Open a connection to the address.
    Connect,
    /// Start a timer of `BACKOFF_MS`.
    Sleep(u64),
    /// Hand the payload that arrived to the consumer.
    Yield,
}

/// The transition table of the client.
pub open spec fn outgoing_next(
    s: OutgoingConnectionState,
    has_address: bool,
    e: OutgoingEvent,
) -> (OutgoingConnectionState, OutgoingAction) {
    match (s, e) {
        (OutgoingConnectionState::Start, OutgoingEvent::Poll) => if has_address {
            (OutgoingConnectionState::Connecting, OutgoingAction::Connect)
        } else {
            (OutgoingConnectionState::Start, OutgoingAction::Park)
        },
        (OutgoingConnectionState::Connecting, OutgoingEvent::ConnectOk) => (
            OutgoingConnectionState::Connected,
            OutgoingAction::Wait,
        ),
        (OutgoingConnectionState::Connecting, OutgoingEvent::ConnectFailed) => (
            OutgoingConnectionState::Waiting,
            OutgoingAction::Sleep(BACKOFF_MS),
        ),
        (OutgoingConnectionState::Waiting, OutgoingEvent::TimerElapsed) => (
            OutgoingConnectionState::Start,
            OutgoingAction::Wait,
        ),
        (OutgoingConnectionState::Connected, OutgoingEvent::Message) => (
            OutgoingConnectionState::Connected,
            OutgoingAction::Yield,
        ),
        (OutgoingConnectionState::Connected, OutgoingEvent::Closed) => (
            OutgoingConnectionState::Waiting,
            OutgoingAction::Sleep(BACKOFF_MS),
        ),
        (OutgoingConnectionState::Connected, OutgoingEvent::ReadError) => (
            OutgoingConnectionState::Waiting,
            OutgoingAction::Sleep(BACKOFF_MS),
        ),
        (OutgoingConnectionState::Connected, OutgoingEvent::WriteError) => (
            OutgoingConnectionState::Waiting,
            OutgoingAction::Sleep(BACKOFF_MS),
        ),
        _ => (s, OutgoingAction::Wait),
    }
}

/// The client: its state and whether it has an address to connect to.
pub struct OutgoingConnection {
    pub connection: OutgoingConnectionState,
    pub address: Option<String>,
}

impl OutgoingConnection {
    pub fn new(address: Option<String>) -> (r: OutgoingConnection)
        ensures
            r.connection == OutgoingConnectionState::Start,
            r.address == address,
    {
        OutgoingConnection { connection: OutgoingConnectionState::Start, address }
    }

    /// Takes one event and returns the action it calls for.
    pub fn on_event(&mut self, e: OutgoingEvent) -> (r: OutgoingAction)
        ensures
            (final(self).connection, r) == outgoing_next(
                old(self).connection,
                old(self).address is Some,
                e,
            ),
            final(self).address == old(self).address,
    {
        let has_address = self.address.is_some();
        let (s, a) = match (self.connection, e) {
            (OutgoingConnectionState::Start, OutgoingEvent::Poll) => if has_address {
                (OutgoingConnectionState::Connecting, OutgoingAction::Connect)
            } else {
                (OutgoingConnectionState::Start, OutgoingAction::Park)
            },
            (OutgoingConnectionState::Connecting, OutgoingEvent::ConnectOk) => (
                OutgoingConnectionState::Connected,
                OutgoingAction::Wait,
            ),
            (OutgoingConnectionState::Connecting, OutgoingEvent::ConnectFailed) => (
                OutgoingConnectionState::Waiting,
                OutgoingAction::Sleep(BACKOFF_MS),
            ),
            (OutgoingConnectionState::Waiting, OutgoingEvent::TimerElapsed) => (
                OutgoingConnectionState::Start,
                OutgoingAction::Wait,
            ),
            (OutgoingConnectionState::Connected, OutgoingEvent::Message) => (
                OutgoingConnectionState::Connected,
                OutgoingAction::Yield,
            ),
            (OutgoingConnectionState::Connected, OutgoingEvent::Closed) => (
                OutgoingConnectionState::Waiting,
                OutgoingAction::Sleep(BACKOFF_MS),
            ),
            (OutgoingConnectionState::Connected, OutgoingEvent::ReadError) => (
                OutgoingConnectionState::Waiting,
                OutgoingAction::Sleep(BACKOFF_MS),
            ),
            (OutgoingConnectionState::Connected, OutgoingEvent::WriteError) => (
                OutgoingConnectionState::Waiting,
                OutgoingAction::Sleep(BACKOFF_MS),
            ),
            (c, _) => (c, OutgoingAction::Wait),
        };
        self.connection = s;
        a
    }

    /// Whether a message may be written now: only while connected. A write
    /// that fails is reported with `on_event(WriteError)`.
    pub fn try_send_message(&self) -> (r: bool)
        ensures
            r == (self.connection == OutgoingConnectionState::Connected),
    {
        self.connection == OutgoingConnectionState::Connected
    }
}

/// The states and actions the client goes through on `evs`.
pub open spec fn outgoing_run(
    s: OutgoingConnectionState,
    has_address: bool,
    evs: Seq<OutgoingEvent>,
) -> Seq<OutgoingAction>
    decreases evs.len(),
{
    if evs.len() == 0 {
        Seq::empty()
    } else {
        let (s2, a) = outgoing_next(s, has_address, evs[0]);
        seq![a] + outgoing_run(s2, has_address, evs.drop_first())
    }
}

proof fn lemma_run_len(s: OutgoingConnectionState, has_address: bool, evs: Seq<OutgoingEvent>)
    ensures
        outgoing_run(s, has_address, evs).len() == evs.len(),
    decreases evs.len(),
{
    if evs.len() > 0 {
        let (s2, a) = outgoing_next(s, has_address, evs[0]);
        lemma_run_len(s2, has_address, evs.drop_first());
    }
}

/// Reconnect: while no connection attempt succeeds, the client yields no
/// item, and every failed attempt is followed by the fixed back-off.
pub proof fn lemma_unreachable_yields_nothing(
    s: OutgoingConnectionState,
    has_address: bool,
    evs: Seq<OutgoingEvent>,
)
    requires
        s != OutgoingConnectionState::Connected,
        forall|i: int| 0 <= i < evs.len() ==> evs[i] != OutgoingEvent::ConnectOk,
    ensures
        forall|i: int|
            0 <= i < evs.len() ==> #[trigger] outgoing_run(s, has_address, evs)[i]
                != OutgoingAction::Yield,
    decreases evs.len(),
{
    if evs.len() > 0 {
        let (s2, a) = outgoing_next(s, has_address, evs[0]);
        let tail = evs.drop_first();
        assert forall|i: int| 0 <= i < tail.len() implies tail[i] != OutgoingEvent::ConnectOk by {
            assert(tail[i] == evs[i + 1]);
        }
        lemma_unreachable_yields_nothing(s2, has_address, tail);
        lemma_run_len(s2, has_address, tail);
        let run = outgoing_run(s, has_address, evs);
        assert forall|i: int| 0 <= i < evs.len() implies #[trigger] run[i]
            != OutgoingAction::Yield by {
            if i > 0 {
                assert(run[i] == outgoing_run(s2, has_address, tail)[i - 1]);
            }
        }
    }
}

/// Reconnect: a connection that comes up yields the first message the peer sends.
pub proof fn lemma_connected_yields_first_message(has_address: bool)
    ensures
        outgoing_run(
            OutgoingConnectionState::Connecting,
            has_address,
            seq![OutgoingEvent::ConnectOk, OutgoingEvent::Message],
        ) == seq![OutgoingAction::Wait, OutgoingAction::Yield],
        outgoing_next(OutgoingConnectionState::Connecting, has_address, OutgoingEvent::ConnectFailed)
            == (OutgoingConnectionState::Waiting, OutgoingAction::Sleep(BACKOFF_MS)),
{
    let evs = seq![OutgoingEvent::ConnectOk, OutgoingEvent::Message];
    reveal_with_fuel(outgoing_run, 3);
    assert(evs.drop_first() =~= seq![OutgoingEvent::Message]);
    assert(evs.drop_first().drop_first() =~= Seq::<OutgoingEvent>::empty());
    assert(outgoing_run(OutgoingConnectionState::Connecting, has_address, evs) =~= seq![
        OutgoingAction::Wait,
        OutgoingAction::Yield,
    ]);
}

} // verus!
