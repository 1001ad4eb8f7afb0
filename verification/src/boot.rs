//! How the client reaches the daemon: connect; if that fails, start the
//! daemon and connect once more. The connecting and the starting are done
//! by the caller, which reports each outcome back as an event.
use vstd::prelude::*;

verus! {

/// Where the client stands while reaching the daemon.
#[derive(Debug, PartialEq, Eq, Structural, Clone, Copy)]
pub enum BootState {
    /// Nothing tried yet.
    Idle,
    /// First connection attempt under way.
    Connecting,
    /// The daemon was not reachable and is being started.
    StartingDaemon,
    /// Second connection attempt, after the daemon was started.
    Reconnecting,
    /// A connection to the daemon is established.
    Connected,
    /// The daemon could not be reached.
    Failed,
}

/// What the caller reports back.
#[derive(Debug, PartialEq, Eq, Structural, Clone, Copy)]
pub enum BootEvent {
    /// Start reaching the daemon.
    Begin,
    /// The connection attempt succeeded.
    ConnectOk,
    /// The connection attempt failed.
    ConnectErr,
    /// The daemon was started.
    DaemonOk,
    /// The daemon could not be started.
    DaemonErr,
}

/// What the caller is asked to do next.
#[derive(Debug, PartialEq, Eq, Structural, Clone, Copy)]
pub enum BootAction {
    /// Try to connect to the daemon.
    Connect,
    /// Start the daemon and wait for it.
    StartDaemon,
    /// Use the established connection.
    Ready,
    /// Report that the daemon could not be reached.
    GiveUp,
    /// The event does not apply in this state; do nothing.
    Ignore,
}

/// The transition table.
pub open spec fn boot_transition(state: BootState, event: BootEvent) -> (BootState, BootAction) {
    match (state, event) {
        (BootState::Idle, BootEvent::Begin) => (BootState::Connecting, BootAction::Connect),
        (BootState::Connecting, BootEvent::ConnectOk) => (BootState::Connected, BootAction::Ready),
        (BootState::Connecting, BootEvent::ConnectErr) => (
            BootState::StartingDaemon,
            BootAction::StartDaemon,
        ),
        (BootState::StartingDaemon, BootEvent::DaemonOk) => (
            BootState::Reconnecting,
            BootAction::Connect,
        ),
        (BootState::StartingDaemon, BootEvent::DaemonErr) => (BootState::Failed, BootAction::GiveUp),
        (BootState::Reconnecting, BootEvent::ConnectOk) => (BootState::Connected, BootAction::Ready),
        (BootState::Reconnecting, BootEvent::ConnectErr) => (BootState::Failed, BootAction::GiveUp),
        _ => (state, BootAction::Ignore),
    }
}

/// One step of reaching the daemon: the next state and what to do.
pub fn boot_step(state: BootState, event: BootEvent) -> (next: (BootState, BootAction))
    ensures
        next == boot_transition(state, event),
{
    match (state, event) {
        (BootState::Idle, BootEvent::Begin) => (BootState::Connecting, BootAction::Connect),
        (BootState::Connecting, BootEvent::ConnectOk) => (BootState::Connected, BootAction::Ready),
        (BootState::Connecting, BootEvent::ConnectErr) => (
            BootState::StartingDaemon,
            BootAction::StartDaemon,
        ),
        (BootState::StartingDaemon, BootEvent::DaemonOk) => (
            BootState::Reconnecting,
            BootAction::Connect,
        ),
        (BootState::StartingDaemon, BootEvent::DaemonErr) => (BootState::Failed, BootAction::GiveUp),
        (BootState::Reconnecting, BootEvent::ConnectOk) => (BootState::Connected, BootAction::Ready),
        (BootState::Reconnecting, BootEvent::ConnectErr) => (BootState::Failed, BootAction::GiveUp),
        _ => (state, BootAction::Ignore),
    }
}

/// The state reached from `state` after the events `events`.
pub open spec fn boot_run(state: BootState, events: Seq<BootEvent>) -> BootState
    decreases events.len(),
{
    if events.len() == 0 {
        state
    } else {
        boot_run(boot_transition(state, events[0]).0, events.drop_first())
    }
}

/// How many times `action` is asked for along the events `events` from `state`.
pub open spec fn action_count(state: BootState, events: Seq<BootEvent>, action: BootAction) -> nat
    decreases events.len(),
{
    if events.len() == 0 {
        0
    } else {
        let (next, act) = boot_transition(state, events[0]);
        (if act == action {
            1nat
        } else {
            0nat
        }) + action_count(next, events.drop_first(), action)
    }
}

/// How many more times the daemon may be started from `state`.
pub open spec fn start_budget(state: BootState) -> nat {
    match state {
        BootState::Idle | BootState::Connecting => 1,
        _ => 0,
    }
}

/// How many more connection attempts may be asked for from `state`.
pub open spec fn connect_budget(state: BootState) -> nat {
    match state {
        BootState::Idle => 2,
        BootState::Connecting | BootState::StartingDaemon => 1,
        _ => 0,
    }
}

/// Whatever the caller reports, reaching the daemon starts it at most
/// once and tries to connect at most twice.
pub proof fn lemma_bounded_attempts(state: BootState, events: Seq<BootEvent>)
    ensures
        action_count(state, events, BootAction::StartDaemon) <= start_budget(state),
        action_count(state, events, BootAction::Connect) <= connect_budget(state),
    decreases events.len(),
{
    if events.len() > 0 {
        lemma_bounded_attempts(boot_transition(state, events[0]).0, events.drop_first());
    }
}

/// Once connected or failed, nothing changes any more.
pub proof fn lemma_final_states_absorb(state: BootState, events: Seq<BootEvent>)
    requires
        state == BootState::Connected || state == BootState::Failed,
    ensures
        boot_run(state, events) == state,
        action_count(state, events, BootAction::Connect) == 0,
        action_count(state, events, BootAction::StartDaemon) == 0,
    decreases events.len(),
{
    if events.len() > 0 {
        lemma_final_states_absorb(state, events.drop_first());
    }
}

/// The client only ever uses a connection that an attempt reported as
/// established: `Ready` is asked for exactly when a connection attempt
/// under way succeeds.
pub proof fn lemma_ready_only_after_connect(state: BootState, event: BootEvent)
    ensures
        boot_transition(state, event).1 == BootAction::Ready <==> (event == BootEvent::ConnectOk
            && (state == BootState::Connecting || state == BootState::Reconnecting)),
        boot_transition(state, event).1 == BootAction::Ready ==> boot_transition(state, event).0
            == BootState::Connected,
{
}

} // verus!
