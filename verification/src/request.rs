//! The requests that the library asks its caller to put to the engine.

use vstd::prelude::*;
use crate::event::{Format, LogLevel};

verus! {

/// One request to the engine. The library decides which requests are due;
/// the caller puts them to the engine, in the order given.
#[derive(Clone, Debug, PartialEq, Eq)]
pub enum EngineRequest {
    /// Switch delivery of the events with the engine number `id` on or off.
    RequestEvent { id: u32, enable: bool },
    /// Deliver log messages of `min_level` and above.
    RequestLogMessages { min_level: LogLevel },
    /// Report changes of the property `name`, in `format`, under the
    /// observation number `id`.
    ObserveProperty { id: u64, name: String, format: Format },
    /// End the observation with the number `id`.
    UnobserveProperty { id: u64 },
}

/// The first engine event number that is switched off at start-up.
pub const FIRST_SWITCHABLE_ID: u32 = 2;

/// The engine event number at which switching off at start-up ends; it is
/// itself left alone.
pub const END_SWITCHABLE_ID: u32 = 24;

/// The requests that silence the engine at start-up: one for each event
/// number from the first switchable one up to, not including, the end.
pub open spec fn silencing() -> Seq<EngineRequest> {
    Seq::new(
        (END_SWITCHABLE_ID - FIRST_SWITCHABLE_ID) as nat,
        |i: int| EngineRequest::RequestEvent { id: (FIRST_SWITCHABLE_ID + i) as u32, enable: false },
    )
}

/// The requests that silence the engine at start-up, in rising order of
/// the event number.
pub fn silencing_requests() -> (requests: Vec<EngineRequest>)
    ensures
        requests@ == silencing(),
{
    let mut requests: Vec<EngineRequest> = Vec::new();
    let mut id: u32 = FIRST_SWITCHABLE_ID;
    while id < END_SWITCHABLE_ID
        invariant
            FIRST_SWITCHABLE_ID <= id <= END_SWITCHABLE_ID,
            requests@.len() == id - FIRST_SWITCHABLE_ID,
            forall|i: int|
                0 <= i < requests@.len() ==> requests@[i] == (EngineRequest::RequestEvent {
                    id: (FIRST_SWITCHABLE_ID + i) as u32,
                    enable: false,
                }),
        decreases END_SWITCHABLE_ID - id,
    {
        requests.push(EngineRequest::RequestEvent { id, enable: false });
        id = id + 1;
    }
    assert(requests@ =~= silencing());
    requests
}

} // verus!
