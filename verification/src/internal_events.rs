//! What the pipeline counts about itself.

use vstd::prelude::*;

verus! {

/// An increment of a named counter, with the labels that tell whose it is.
#[derive(Debug, Clone, Copy, PartialEq, Eq)]
pub struct CounterIncrement {
    pub name: &'static str,
    pub value: u64,
    pub component_kind: &'static str,
    pub component_type: &'static str,
}

/// A sampler has processed one event.
#[derive(Debug)]
pub struct SamplerEventProcessed;

impl SamplerEventProcessed {
    /// What is counted when the event is emitted: one more processed event,
    /// on the account of the sampler transform.
    pub fn emit_metrics(&self) -> (increment: CounterIncrement)
        ensures
            increment.name@ == "events_processed"@,
            increment.value == 1,
            increment.component_kind@ == "transform"@,
            increment.component_type@ == "sampler"@,
    {
        CounterIncrement {
            name: "events_processed",
            value: 1,
            component_kind: "transform",
            component_type: "sampler",
        }
    }
}

} // verus!
