//! The receive pump of a candidate: what it waits for, and what it does with
//! each thing that happens.

use crate::candidate_base::RECEIVE_MTU;
use crate::error::Error;
use vstd::prelude::*;

verus! {

/// Where a receive pump stands.
#[derive(Clone, Copy, Debug, PartialEq, Eq, Structural)]
pub enum PumpState {
    /// The pump waits to be told that its connection is ready.
    AwaitingInit,
    /// The pump reads datagrams.
    Receiving,
    /// The pump has ended.
    Stopped,
}

/// What can happen to a receive pump.
#[derive(Clone, Copy, Debug, PartialEq, Eq, Structural)]
pub enum PumpEvent {
    /// The connection is ready.
    Initialized,
    /// The candidate was closed.
    CloseSignal,
    /// A datagram of `len` bytes was read into the buffer.
    Datagram { len: usize },
    /// Reading failed.
    ReceiveFailed,
}

/// What a receive pump does next.
#[derive(Clone, Copy, Debug, PartialEq, Eq, Structural)]
pub enum PumpAction {
    /// Wait for the connection to be ready, or for the candidate to close.
    AwaitInit,
    /// Read the next datagram, or learn that the candidate closed.
    Receive,
    /// Hand the first `len` bytes of the buffer to the agent, then read on.
    Dispatch { len: usize },
    /// End, with the error that the pump returns.
    Exit { error: Error },
}

/// The state in which a pump starts: it waits for its connection where the
/// candidate was given a signal to wait for, and reads at once where not.
pub open spec fn pump_start(waits_for_init: bool) -> PumpState {
    if waits_for_init {
        PumpState::AwaitingInit
    } else {
        PumpState::Receiving
    }
}

/// The state that follows an event, and the action that the event calls for.
///
/// A waiting pump starts to read when its connection is ready. A reading pump
/// hands on each datagram and reads again; a datagram said to be longer than
/// the buffer is handed on as the whole buffer. A close signal ends the pump
/// with `Closed`, a failed read with `Io`. An event that the state does not
/// wait for changes nothing, and a stopped pump stays stopped.
pub open spec fn pump_step(state: PumpState, event: PumpEvent) -> (PumpState, PumpAction) {
    match state {
        PumpState::AwaitingInit => match event {
            PumpEvent::Initialized => (PumpState::Receiving, PumpAction::Receive),
            PumpEvent::CloseSignal => (
                PumpState::Stopped,
                PumpAction::Exit { error: Error::Closed },
            ),
            _ => (PumpState::AwaitingInit, PumpAction::AwaitInit),
        },
        PumpState::Receiving => match event {
            PumpEvent::Datagram { len } => (
                PumpState::Receiving,
                PumpAction::Dispatch {
                    len: if len <= RECEIVE_MTU {
                        len
                    } else {
                        RECEIVE_MTU
                    },
                },
            ),
            PumpEvent::ReceiveFailed => (PumpState::Stopped, PumpAction::Exit { error: Error::Io }),
            PumpEvent::CloseSignal => (
                PumpState::Stopped,
                PumpAction::Exit { error: Error::Closed },
            ),
            PumpEvent::Initialized => (PumpState::Receiving, PumpAction::Receive),
        },
        PumpState::Stopped => (PumpState::Stopped, PumpAction::Exit { error: Error::Closed }),
    }
}

/// Starts a receive pump: returns its first state and what it does first.
pub fn recv_loop_start(waits_for_init: bool) -> (r: (PumpState, PumpAction))
    ensures
        r.0 == pump_start(waits_for_init),
        r.1 == if waits_for_init {
            PumpAction::AwaitInit
        } else {
            PumpAction::Receive
        },
{
    if waits_for_init {
        (PumpState::AwaitingInit, PumpAction::AwaitInit)
    } else {
        (PumpState::Receiving, PumpAction::Receive)
    }
}

/// One turn of a receive pump: takes what happened and returns the next
/// state and the next action.
pub fn recv_loop(state: PumpState, event: PumpEvent) -> (r: (PumpState, PumpAction))
    ensures
        r == pump_step(state, event),
{
    match state {
        PumpState::AwaitingInit => match event {
            PumpEvent::Initialized => (PumpState::Receiving, PumpAction::Receive),
            PumpEvent::CloseSignal => (
                PumpState::Stopped,
                PumpAction::Exit { error: Error::Closed },
            ),
            _ => (PumpState::AwaitingInit, PumpAction::AwaitInit),
        },
        PumpState::Receiving => match event {
            PumpEvent::Datagram { len } => {
                let len = if len <= RECEIVE_MTU {
                    len
                } else {
                    RECEIVE_MTU
                };
                (PumpState::Receiving, PumpAction::Dispatch { len })
            },
            PumpEvent::ReceiveFailed => (PumpState::Stopped, PumpAction::Exit { error: Error::Io }),
            PumpEvent::CloseSignal => (
                PumpState::Stopped,
                PumpAction::Exit { error: Error::Closed },
            ),
            PumpEvent::Initialized => (PumpState::Receiving, PumpAction::Receive),
        },
        PumpState::Stopped => (PumpState::Stopped, PumpAction::Exit { error: Error::Closed }),
    }
}

/// A pump that has stopped never reads or hands on a datagram again, and a
/// close signal stops any pump.
pub proof fn lemma_pump_stops(state: PumpState, event: PumpEvent)
    ensures
        pump_step(state, PumpEvent::CloseSignal).0 == PumpState::Stopped,
        pump_step(PumpState::Stopped, event).0 == PumpState::Stopped,
        pump_step(PumpState::Stopped, event).1 is Exit,
        pump_step(state, event).1 matches PumpAction::Dispatch { len } ==> len <= RECEIVE_MTU
            && state == PumpState::Receiving,
{
}

} // verus!
