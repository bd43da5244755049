//! The data a run carries: hop observations, probe results, the
//! observer-facing event taxonomy, and the probing configuration.

use vstd::prelude::*;
use crate::addr::IpAddress;
use crate::resolve::ResolutionError;

verus! {

/// Role of the responding node in one hop observation.
#[derive(Clone, Copy, PartialEq, Eq, Structural, Debug)]
pub enum NodeKind {
    Intermediate,
    Destination,
    Unknown,
}

/// One probe observation handed over by the Probe Engine. The source address
/// is absent when no reply arrived for the probe, and the round-trip time is
/// absent when none was measured.
#[derive(Clone, Copy, PartialEq, Eq, Debug)]
pub struct HopMessage {
    pub sequence: u32,
    pub source_ip: Option<IpAddress>,
    pub hop_index: u8,
    pub time_to_live: u8,
    pub node_kind: NodeKind,
    pub rtt_millis: Option<u64>,
}

/// Completion status reported by the Probe Engine for a finished run.
#[derive(Clone, Copy, PartialEq, Eq, Structural, Debug)]
pub enum ProbeStatus {
    Done,
    Error,
    Timeout,
}

/// What the prober context's run-to-completion call produced: a result, an
/// error description, or an abnormal termination without any value.
#[derive(Clone, PartialEq, Eq, Debug)]
pub enum ProbeResult {
    Finished { status: ProbeStatus, probe_time_millis: u64 },
    Errored { description: String },
    Crashed,
}

/// Why a run failed while probing.
#[derive(Clone, PartialEq, Eq, Debug)]
pub enum TraceFailure {
    /// The Probe Engine returned an error.
    ProbeError { description: String },
    /// The prober context terminated abnormally without producing a value.
    InternalFault,
}

/// One observer-facing event of a run.
#[derive(Clone, PartialEq, Eq, Debug)]
pub enum TraceEvent {
    /// Hostname input was resolved; carries the chosen address.
    ResolvedViaDns { address: IpAddress },
    /// Resolution failed; no probing was started.
    ResolutionFailed { reason: ResolutionError },
    /// The Probe Engine could not be constructed; no probing was started.
    EngineUnavailable,
    /// One hop observation, forwarded in receive order.
    Hop { message: HopMessage },
    /// Normal termination; carries the engine's status and total probe time.
    Completed { status: ProbeStatus, probe_time_millis: u64 },
    /// The probing failed; carries the failure.
    TraceError { failure: TraceFailure },
    /// Cancellation was observed; the run is over.
    Cancelled,
}

/// The terminal events: the one event that ends the stream of every run that
/// reached probing.
pub open spec fn is_terminal(e: TraceEvent) -> bool {
    match e {
        TraceEvent::Completed { .. } => true,
        TraceEvent::TraceError { .. } => true,
        TraceEvent::Cancelled => true,
        _ => false,
    }
}

/// Events after which a run emits nothing more: the terminal events plus the
/// resolution and construction failures that stop a run before probing.
pub open spec fn closes_run(e: TraceEvent) -> bool {
    match e {
        TraceEvent::ResolutionFailed { .. } => true,
        TraceEvent::EngineUnavailable => true,
        _ => is_terminal(e),
    }
}

/// No event of `s` closes the run.
pub open spec fn none_closing(s: Seq<TraceEvent>) -> bool {
    forall|i: int| 0 <= i < s.len() ==> !closes_run(s[i])
}

/// The hop messages carried by the hop events of `s`, in emission order.
pub open spec fn hops_of(s: Seq<TraceEvent>) -> Seq<HopMessage>
    decreases s.len(),
{
    if s.len() == 0 {
        Seq::empty()
    } else {
        let rest = hops_of(s.drop_last());
        match s.last() {
            TraceEvent::Hop { message } => rest.push(message),
            _ => rest,
        }
    }
}

/// Appending a hop event appends its message to the hop projection;
/// appending any other event leaves the projection unchanged.
pub proof fn lemma_hops_of_push(s: Seq<TraceEvent>, e: TraceEvent)
    ensures
        (match e {
            TraceEvent::Hop { message } => hops_of(s.push(e)) == hops_of(s).push(message),
            _ => hops_of(s.push(e)) == hops_of(s),
        }),
{
    assert(s.push(e).drop_last() =~= s);
    assert(s.push(e).last() == e);
}

/// Probing configuration applied to a run: the hop limit comes from the
/// caller; send rate and the two timeouts are fixed policy.
#[derive(Clone, Copy, PartialEq, Eq, Structural, Debug)]
pub struct TraceConfig {
    pub max_hops: u8,
    pub send_rate_millis: u64,
    pub receive_timeout_millis: u64,
    pub overall_timeout_millis: u64,
}

impl TraceConfig {
    /// A well-formed configuration: a positive hop limit and the policy
    /// timings (2 s between probes, 15 s per probe, 60 s overall).
    pub open spec fn wf(self) -> bool {
        &&& 1 <= self.max_hops
        &&& self.send_rate_millis == 2000
        &&& self.receive_timeout_millis == 15000
        &&& self.overall_timeout_millis == 60000
    }

    /// Builds the policy configuration for the requested hop limit; a hop
    /// limit of zero is raised to one to keep the invariant.
    pub fn for_hop_limit(hops: u8) -> (c: TraceConfig)
        ensures
            c.wf(),
            c.max_hops == (if hops == 0 { 1u8 } else { hops }),
    {
        TraceConfig {
            max_hops: if hops == 0 { 1 } else { hops },
            send_rate_millis: 2000,
            receive_timeout_millis: 15000,
            overall_timeout_millis: 60000,
        }
    }
}

} // verus!
