//! What can go wrong around the engine, and what is done about it.

use vstd::prelude::*;

verus! {

/// A failure met while the engine runs or is set up.
#[derive(Clone, Copy, Debug, PartialEq, Eq, Structural)]
pub enum Fault {
    /// An input event could not be understood as a trade.
    Deserialization,
    /// An input message carried no payload.
    MissingPayload,
    /// A result could not be handed to the publishing side.
    Publish,
    /// The ingestion or the publishing side could not be set up.
    AdapterConstruction,
}

/// What is done about a failure.
#[derive(Clone, Copy, Debug, PartialEq, Eq, Structural)]
pub enum Recovery {
    /// Drop the event silently and go on.
    Skip,
    /// Report the failure and go on.
    Report,
    /// End the process: it cannot do its work.
    Terminate,
}

/// The recovery that each failure calls for.
///
/// Nothing that concerns a single event ends the run: an event that cannot
/// be read is dropped, and a result that cannot be published is reported
/// and lost.  Only without its input or output channel does the process
/// give up.
pub open spec fn recovery_of(fault: Fault) -> Recovery {
    match fault {
        Fault::Deserialization | Fault::MissingPayload => Recovery::Skip,
        Fault::Publish => Recovery::Report,
        Fault::AdapterConstruction => Recovery::Terminate,
    }
}

/// Decides what is done about `fault`.
pub fn recovery(fault: Fault) -> (recovery: Recovery)
    ensures
        recovery == recovery_of(fault),
        recovery is Terminate <==> fault is AdapterConstruction,
{
    match fault {
        Fault::Deserialization => Recovery::Skip,
        Fault::MissingPayload => Recovery::Skip,
        Fault::Publish => Recovery::Report,
        Fault::AdapterConstruction => Recovery::Terminate,
    }
}

} // verus!
