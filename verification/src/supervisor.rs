//! The host's main loop: what to do on each tick and on an interrupt.
use vstd::prelude::*;

verus! {

/// What the main loop waits for.
#[derive(Debug, Clone, Copy, PartialEq, Eq)]
pub enum HostEvent {
    /// The periodic tick.
    Tick,
    /// The user asked the host to stop (Ctrl-C).
    Interrupt,
}

/// What the main loop does in answer to an event.
#[derive(Debug, Clone, PartialEq, Eq)]
pub struct HostStep {
    /// The message to log.
    pub message: String,
    /// Whether to stop the hosted server.
    pub stop_server: bool,
    /// Whether to leave the loop.
    pub exit: bool,
}

/// On a tick, log that the host is working and go on; on an interrupt, log
/// that the server is being stopped, stop it and leave the loop.
pub fn on_event(event: HostEvent) -> (step: HostStep)
    ensures
        event is Tick ==> step.message@ == "Working!"@ && !step.stop_server && !step.exit,
        event is Interrupt ==> step.message@ == "Stopping Factorio Server."@ && step.stop_server
            && step.exit,
{
    match event {
        HostEvent::Tick => HostStep {
            message: String::from_str("Working!"),
            stop_server: false,
            exit: false,
        },
        HostEvent::Interrupt => HostStep {
            message: String::from_str("Stopping Factorio Server."),
            stop_server: true,
            exit: true,
        },
    }
}

} // verus!
