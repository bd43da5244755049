//! The Trace Orchestrator: one run's lifecycle as a verified state machine.
//!
//! The Probe Engine, the hostname lookup and the observer sink perform I/O
//! and live outside the library. The caller performs that outside work and
//! drives a `TraceRun` with what came back; each step decides the next phase
//! and returns the events the observer is owed, in order. A ghost history of
//! everything emitted and received ties the steps to the run-wide laws: at
//! most one closing event, and hop events exactly in receive order.

use vstd::prelude::*;
use vstd::pervasive::unreached;
use crate::addr::IpAddress;
use crate::addr::spec_parse_ip;
use crate::event::HopMessage;
use crate::event::ProbeResult;
use crate::event::TraceEvent;
use crate::event::TraceFailure;
use crate::event::closes_run;
use crate::event::hops_of;
use crate::event::is_terminal;
use crate::event::lemma_hops_of_push;
use crate::event::none_closing;
use crate::resolve::LiteralResolution;
use crate::resolve::ResolutionError;
use crate::resolve::resolve_from_lookup;
use crate::resolve::resolve_literal;

verus! {

/// How a finished run ended.
#[derive(Clone, Copy, PartialEq, Eq, Structural, Debug)]
pub enum Outcome {
    Completed,
    Failed,
    Cancelled,
}

/// The phases of a run. Terminal phases are absorbing: no step leaves
/// `Done`.
#[derive(Clone, Copy, PartialEq, Eq, Structural, Debug)]
pub enum Phase {
    /// Created; no input submitted yet.
    Idle,
    /// The input was no literal; a hostname lookup is outstanding.
    AwaitingLookup,
    /// A destination is fixed; the Probe Engine is to be constructed.
    Configuring { destination: IpAddress },
    /// Probing runs; the progress stream is being drained.
    Draining { destination: IpAddress },
    /// The stream closed without cancellation; the prober's result is
    /// awaited.
    Joining { destination: IpAddress },
    /// Terminal: the closing event has been emitted.
    Done { outcome: Outcome },
}

/// The closing event each outcome stands for.
pub open spec fn outcome_event(o: Outcome, e: TraceEvent) -> bool {
    match o {
        Outcome::Completed => e is Completed,
        Outcome::Cancelled => e is Cancelled,
        Outcome::Failed => e is ResolutionFailed || e is EngineUnavailable || e is TraceError,
    }
}

/// A single run of the trace orchestrator.
pub struct TraceRun {
    phase: Phase,
    emitted: Ghost<Seq<TraceEvent>>,
    received: Ghost<Seq<HopMessage>>,
}

impl TraceRun {
    /// The run's current phase.
    pub closed spec fn phase(self) -> Phase {
        self.phase
    }

    /// Every event handed to the observer so far, in emission order.
    pub closed spec fn emitted(self) -> Seq<TraceEvent> {
        self.emitted@
    }

    /// Every hop message taken from the progress stream so far, in receive
    /// order.
    pub closed spec fn received(self) -> Seq<HopMessage> {
        self.received@
    }

    /// The run's well-formedness: a closing event is emitted exactly when
    /// the run is done, nothing follows it, the closing event agrees with
    /// the outcome, and the hop events are the received messages in order.
    pub open spec fn inv(self) -> bool {
        &&& (match self.phase() {
            Phase::Done { outcome } => {
                &&& self.emitted().len() > 0
                &&& closes_run(self.emitted().last())
                &&& none_closing(self.emitted().drop_last())
                &&& outcome_event(outcome, self.emitted().last())
            },
            _ => none_closing(self.emitted()),
        })
        &&& hops_of(self.emitted()) == self.received()
    }

    /// A fresh run: idle, nothing emitted, nothing received.
    pub fn new() -> (r: TraceRun)
        ensures
            r.inv(),
            r.phase() == Phase::Idle,
            r.emitted() == Seq::<TraceEvent>::empty(),
            r.received() == Seq::<HopMessage>::empty(),
    {
        TraceRun {
            phase: Phase::Idle,
            emitted: Ghost(Seq::empty()),
            received: Ghost(Seq::empty()),
        }
    }

    /// The run's current phase, for the caller's control flow.
    pub fn current_phase(&self) -> (p: Phase)
        ensures
            p == self.phase(),
    {
        self.phase
    }

    /// Submits the caller's destination text: the Resolving step. A literal
    /// address fixes the destination directly, with no resolution event; a
    /// literal unspecified address fails the run at once; any other text
    /// leaves the run awaiting a hostname lookup.
    pub fn submit_input(&mut self, input: &str) -> (out: Vec<TraceEvent>)
        requires
            old(self).inv(),
            old(self).phase() == Phase::Idle,
        ensures
            final(self).inv(),
            final(self).emitted() == old(self).emitted() + out@,
            final(self).received() == old(self).received(),
            (match spec_parse_ip(input@) {
                Some(a) => if a.spec_is_unspecified() {
                    &&& out@ =~= seq![
                        (TraceEvent::ResolutionFailed { reason: ResolutionError::Unspecified }),
                    ]
                    &&& final(self).phase() == (Phase::Done { outcome: Outcome::Failed })
                } else {
                    &&& out@ =~= Seq::<TraceEvent>::empty()
                    &&& final(self).phase() == (Phase::Configuring { destination: a })
                },
                None => {
                    &&& out@ =~= Seq::<TraceEvent>::empty()
                    &&& final(self).phase() == Phase::AwaitingLookup
                },
            }),
    {
        let mut out: Vec<TraceEvent> = Vec::new();
        match resolve_literal(input) {
            Ok(LiteralResolution::Resolved(a)) => {
                self.phase = Phase::Configuring { destination: a };
            }
            Ok(LiteralResolution::NotALiteral) => {
                self.phase = Phase::AwaitingLookup;
            }
            Err(reason) => {
                out.push(TraceEvent::ResolutionFailed { reason });
                self.phase = Phase::Done { outcome: Outcome::Failed };
            }
        }
        let ghost out0 = out@;
        self.emitted = Ghost(self.emitted@ + out@);
        proof {
            if out0.len() == 0 {
                assert(self.emitted@ =~= old(self).emitted());
            } else {
                assert(self.emitted@ =~= old(self).emitted().push(out0[0]));
                lemma_hops_of_push(old(self).emitted(), out0[0]);
            }
        }
        out
    }

    /// Hands the orchestrator the hostname lookup's answer, empty when the
    /// lookup failed: the rest of the Resolving step. A non-empty answer is
    /// announced with a resolution event before its first address is
    /// examined.
    pub fn submit_lookup(&mut self, addresses: &Vec<IpAddress>) -> (out: Vec<TraceEvent>)
        requires
            old(self).inv(),
            old(self).phase() == Phase::AwaitingLookup,
        ensures
            final(self).inv(),
            final(self).emitted() == old(self).emitted() + out@,
            final(self).received() == old(self).received(),
            (if addresses@.len() == 0 {
                &&& out@ =~= seq![
                    (TraceEvent::ResolutionFailed { reason: ResolutionError::Invalid }),
                ]
                &&& final(self).phase() == (Phase::Done { outcome: Outcome::Failed })
            } else if addresses@[0].spec_is_unspecified() {
                &&& out@ =~= seq![
                    (TraceEvent::ResolvedViaDns { address: addresses@[0] }),
                    (TraceEvent::ResolutionFailed { reason: ResolutionError::Unspecified }),
                ]
                &&& final(self).phase() == (Phase::Done { outcome: Outcome::Failed })
            } else {
                &&& out@ =~= seq![(TraceEvent::ResolvedViaDns { address: addresses@[0] })]
                &&& final(self).phase() == (Phase::Configuring { destination: addresses@[0] })
            }),
    {
        let mut out: Vec<TraceEvent> = Vec::new();
        if addresses.len() > 0 {
            out.push(TraceEvent::ResolvedViaDns { address: addresses[0] });
        }
        match resolve_from_lookup(addresses) {
            Ok(a) => {
                self.phase = Phase::Configuring { destination: a };
            }
            Err(reason) => {
                out.push(TraceEvent::ResolutionFailed { reason });
                self.phase = Phase::Done { outcome: Outcome::Failed };
            }
        }
        let ghost out0 = out@;
        self.emitted = Ghost(self.emitted@ + out@);
        proof {
            let h = old(self).emitted();
            if out0.len() == 1 {
                assert(self.emitted@ =~= h.push(out0[0]));
                lemma_hops_of_push(h, out0[0]);
            } else {
                assert(self.emitted@ =~= h.push(out0[0]).push(out0[1]));
                lemma_hops_of_push(h, out0[0]);
                lemma_hops_of_push(h.push(out0[0]), out0[1]);
                assert(self.emitted@.drop_last() =~= h.push(out0[0]));
            }
        }
        out
    }

    /// Reports whether the Probe Engine could be constructed and configured
    /// for the destination: the Configuring step. Construction failure ends
    /// the run; no probing was started.
    pub fn engine_started(&mut self, ok: bool) -> (out: Vec<TraceEvent>)
        requires
            old(self).inv(),
            old(self).phase() is Configuring,
        ensures
            final(self).inv(),
            final(self).emitted() == old(self).emitted() + out@,
            final(self).received() == old(self).received(),
            (match old(self).phase() {
                Phase::Configuring { destination } => if ok {
                    &&& out@ =~= Seq::<TraceEvent>::empty()
                    &&& final(self).phase() == (Phase::Draining { destination })
                } else {
                    &&& out@ =~= seq![TraceEvent::EngineUnavailable]
                    &&& final(self).phase() == (Phase::Done { outcome: Outcome::Failed })
                },
                _ => true,
            }),
    {
        let mut out: Vec<TraceEvent> = Vec::new();
        if ok {
            let destination = match self.phase {
                Phase::Configuring { destination } => destination,
                _ => unreached(),
            };
            self.phase = Phase::Draining { destination };
        } else {
            out.push(TraceEvent::EngineUnavailable);
            self.phase = Phase::Done { outcome: Outcome::Failed };
        }
        let ghost out0 = out@;
        self.emitted = Ghost(self.emitted@ + out@);
        proof {
            if out0.len() == 0 {
                assert(self.emitted@ =~= old(self).emitted());
            } else {
                assert(self.emitted@ =~= old(self).emitted().push(out0[0]));
                lemma_hops_of_push(old(self).emitted(), out0[0]);
            }
        }
        out
    }

    /// One drain-loop step for a received hop message: the hop event is
    /// emitted, then the cancellation flag, as read after this message,
    /// decides whether the run ends with the cancellation event.
    pub fn on_message(&mut self, message: HopMessage, cancel_requested: bool) -> (out: Vec<
        TraceEvent,
    >)
        requires
            old(self).inv(),
            old(self).phase() is Draining,
        ensures
            final(self).inv(),
            final(self).emitted() == old(self).emitted() + out@,
            final(self).received() == old(self).received().push(message),
            (if cancel_requested {
                &&& out@ =~= seq![(TraceEvent::Hop { message }), TraceEvent::Cancelled]
                &&& final(self).phase() == (Phase::Done { outcome: Outcome::Cancelled })
            } else {
                &&& out@ =~= seq![(TraceEvent::Hop { message })]
                &&& final(self).phase() == old(self).phase()
            }),
    {
        let mut out: Vec<TraceEvent> = Vec::new();
        out.push(TraceEvent::Hop { message });
        if cancel_requested {
            out.push(TraceEvent::Cancelled);
            self.phase = Phase::Done { outcome: Outcome::Cancelled };
        }
        let ghost out0 = out@;
        self.emitted = Ghost(self.emitted@ + out@);
        self.received = Ghost(self.received@.push(message));
        proof {
            let h = old(self).emitted();
            if out0.len() == 1 {
                assert(self.emitted@ =~= h.push(out0[0]));
                lemma_hops_of_push(h, out0[0]);
            } else {
                assert(self.emitted@ =~= h.push(out0[0]).push(out0[1]));
                lemma_hops_of_push(h, out0[0]);
                lemma_hops_of_push(h.push(out0[0]), out0[1]);
                assert(self.emitted@.drop_last() =~= h.push(out0[0]));
            }
        }
        out
    }

    /// One drain-loop step for stream closure: with no cancellation observed
    /// the run moves on to joining the prober's result; with cancellation
    /// observed it ends with the cancellation event, and the prober is
    /// abandoned to its own timeout.
    pub fn on_stream_closed(&mut self, cancel_requested: bool) -> (out: Vec<TraceEvent>)
        requires
            old(self).inv(),
            old(self).phase() is Draining,
        ensures
            final(self).inv(),
            final(self).emitted() == old(self).emitted() + out@,
            final(self).received() == old(self).received(),
            (match old(self).phase() {
                Phase::Draining { destination } => if cancel_requested {
                    &&& out@ =~= seq![TraceEvent::Cancelled]
                    &&& final(self).phase() == (Phase::Done { outcome: Outcome::Cancelled })
                } else {
                    &&& out@ =~= Seq::<TraceEvent>::empty()
                    &&& final(self).phase() == (Phase::Joining { destination })
                },
                _ => true,
            }),
    {
        let mut out: Vec<TraceEvent> = Vec::new();
        if cancel_requested {
            out.push(TraceEvent::Cancelled);
            self.phase = Phase::Done { outcome: Outcome::Cancelled };
        } else {
            let destination = match self.phase {
                Phase::Draining { destination } => destination,
                _ => unreached(),
            };
            self.phase = Phase::Joining { destination };
        }
        let ghost out0 = out@;
        self.emitted = Ghost(self.emitted@ + out@);
        proof {
            if out0.len() == 0 {
                assert(self.emitted@ =~= old(self).emitted());
            } else {
                assert(self.emitted@ =~= old(self).emitted().push(out0[0]));
                lemma_hops_of_push(old(self).emitted(), out0[0]);
            }
        }
        out
    }

    /// Joins the prober context's outcome after the stream closed cleanly:
    /// exactly one terminal event carries the result, and an abnormal prober
    /// exit is surfaced as an internal fault, never swallowed.
    pub fn on_join(&mut self, result: ProbeResult) -> (out: Vec<TraceEvent>)
        requires
            old(self).inv(),
            old(self).phase() is Joining,
        ensures
            final(self).inv(),
            final(self).emitted() == old(self).emitted() + out@,
            final(self).received() == old(self).received(),
            (match result {
                ProbeResult::Finished { status, probe_time_millis } => {
                    &&& out@ =~= seq![(TraceEvent::Completed { status, probe_time_millis })]
                    &&& final(self).phase() == (Phase::Done { outcome: Outcome::Completed })
                },
                ProbeResult::Errored { description } => {
                    &&& out@ =~= seq![
                        (TraceEvent::TraceError {
                            failure: TraceFailure::ProbeError { description },
                        }),
                    ]
                    &&& final(self).phase() == (Phase::Done { outcome: Outcome::Failed })
                },
                ProbeResult::Crashed => {
                    &&& out@ =~= seq![
                        (TraceEvent::TraceError { failure: TraceFailure::InternalFault }),
                    ]
                    &&& final(self).phase() == (Phase::Done { outcome: Outcome::Failed })
                },
            }),
    {
        let mut out: Vec<TraceEvent> = Vec::new();
        match result {
            ProbeResult::Finished { status, probe_time_millis } => {
                out.push(TraceEvent::Completed { status, probe_time_millis });
                self.phase = Phase::Done { outcome: Outcome::Completed };
            }
            ProbeResult::Errored { description } => {
                out.push(TraceEvent::TraceError {
                    failure: TraceFailure::ProbeError { description },
                });
                self.phase = Phase::Done { outcome: Outcome::Failed };
            }
            ProbeResult::Crashed => {
                out.push(TraceEvent::TraceError { failure: TraceFailure::InternalFault });
                self.phase = Phase::Done { outcome: Outcome::Failed };
            }
        }
        let ghost out0 = out@;
        self.emitted = Ghost(self.emitted@ + out@);
        proof {
            assert(self.emitted@ =~= old(self).emitted().push(out0[0]));
            lemma_hops_of_push(old(self).emitted(), out0[0]);
        }
        out
    }
}

/// At most one closing event is ever emitted for a run, and once one has
/// been emitted it is the last event and the run is done.
pub proof fn lemma_single_closing_event(r: TraceRun)
    requires
        r.inv(),
    ensures
        forall|i: int|
            0 <= i < r.emitted().len() && closes_run(r.emitted()[i]) ==> i == r.emitted().len() - 1
                && r.phase() is Done,
{
    match r.phase() {
        Phase::Done { outcome } => {
            assert forall|i: int|
                0 <= i < r.emitted().len() && closes_run(r.emitted()[i]) implies i == r.emitted().len()
                - 1 && r.phase() is Done by {
                if i < r.emitted().len() - 1 {
                    assert(r.emitted().drop_last()[i] == r.emitted()[i]);
                }
            }
        }
        _ => {
            assert(none_closing(r.emitted()));
        }
    }
}

/// The stream of events of a run holds at most one terminal event, and when
/// one was emitted it is the last event of the run.
pub proof fn lemma_terminal_is_last(r: TraceRun)
    requires
        r.inv(),
    ensures
        forall|i: int|
            0 <= i < r.emitted().len() && is_terminal(r.emitted()[i]) ==> i == r.emitted().len()
                - 1,
{
    lemma_single_closing_event(r);
    assert forall|i: int|
        0 <= i < r.emitted().len() && is_terminal(r.emitted()[i]) implies i == r.emitted().len()
        - 1 by {
        assert(closes_run(r.emitted()[i]));
    }
}

/// Hop events are emitted exactly in the order the messages came off the
/// progress stream: the hop projection of the event history is the receive
/// history.
pub proof fn lemma_hops_in_receive_order(r: TraceRun)
    requires
        r.inv(),
    ensures
        hops_of(r.emitted()) == r.received(),
{
}

/// A finished run's last event is the cancellation marker exactly when the
/// run was cancelled; a run that ended by joining the prober's result never
/// carries it.
pub proof fn lemma_cancelled_iff_cancellation_event(r: TraceRun)
    requires
        r.inv(),
        r.phase() is Done,
    ensures
        r.emitted().len() > 0,
        (r.phase() == (Phase::Done { outcome: Outcome::Cancelled })) <==> (r.emitted().last()
            is Cancelled),
{
}

} // verus!
