use pathtrace::addr::IpAddress;
use pathtrace::event::HopMessage;
use pathtrace::event::NodeKind;
use pathtrace::event::ProbeResult;
use pathtrace::event::ProbeStatus;
use pathtrace::event::TraceConfig;
use pathtrace::event::TraceEvent;
use pathtrace::event::TraceFailure;
use pathtrace::orchestrator::Outcome;
use pathtrace::orchestrator::Phase;
use pathtrace::orchestrator::TraceRun;
use pathtrace::resolve::ResolutionError;

fn hop(sequence: u32, hop_index: u8, rtt_millis: u64) -> HopMessage {
    HopMessage {
        sequence,
        source_ip: Some(IpAddress::V4(10, 0, 0, hop_index)),
        hop_index,
        time_to_live: 64,
        node_kind: NodeKind::Intermediate,
        rtt_millis: Some(rtt_millis),
    }
}

fn run_to_draining(input: &str) -> TraceRun {
    let mut run = TraceRun::new();
    assert_eq!(run.submit_input(input), vec![]);
    assert_eq!(run.engine_started(true), vec![]);
    assert!(matches!(run.current_phase(), Phase::Draining { .. }));
    run
}

#[test]
fn literal_input_proceeds_without_resolution_event() {
    let mut run = TraceRun::new();
    assert_eq!(run.current_phase(), Phase::Idle);
    let events = run.submit_input("8.8.8.8");
    assert_eq!(events, vec![]);
    assert_eq!(
        run.current_phase(),
        Phase::Configuring { destination: IpAddress::V4(8, 8, 8, 8) }
    );
    let events = run.engine_started(true);
    assert_eq!(events, vec![]);
    assert_eq!(
        run.current_phase(),
        Phase::Draining { destination: IpAddress::V4(8, 8, 8, 8) }
    );
}

#[test]
fn unspecified_input_fails_immediately() {
    let mut run = TraceRun::new();
    let events = run.submit_input("0.0.0.0");
    assert_eq!(
        events,
        vec![TraceEvent::ResolutionFailed { reason: ResolutionError::Unspecified }]
    );
    assert_eq!(run.current_phase(), Phase::Done { outcome: Outcome::Failed });
}

#[test]
fn unspecified_v6_input_fails_immediately() {
    let mut run = TraceRun::new();
    let events = run.submit_input("::");
    assert_eq!(
        events,
        vec![TraceEvent::ResolutionFailed { reason: ResolutionError::Unspecified }]
    );
    assert_eq!(run.current_phase(), Phase::Done { outcome: Outcome::Failed });
}

#[test]
fn name_without_addresses_fails_as_invalid() {
    let mut run = TraceRun::new();
    let events = run.submit_input("nonexistent.invalid.test");
    assert_eq!(events, vec![]);
    assert_eq!(run.current_phase(), Phase::AwaitingLookup);
    let events = run.submit_lookup(&vec![]);
    assert_eq!(
        events,
        vec![TraceEvent::ResolutionFailed { reason: ResolutionError::Invalid }]
    );
    assert_eq!(run.current_phase(), Phase::Done { outcome: Outcome::Failed });
}

#[test]
fn name_with_addresses_announces_the_first() {
    let mut run = TraceRun::new();
    assert_eq!(run.submit_input("example.test"), vec![]);
    let addrs = vec![IpAddress::V4(93, 184, 216, 34), IpAddress::V4(93, 184, 216, 35)];
    let events = run.submit_lookup(&addrs);
    assert_eq!(
        events,
        vec![TraceEvent::ResolvedViaDns { address: IpAddress::V4(93, 184, 216, 34) }]
    );
    assert_eq!(
        run.current_phase(),
        Phase::Configuring { destination: IpAddress::V4(93, 184, 216, 34) }
    );
}

#[test]
fn name_resolving_to_unspecified_fails_after_announcement() {
    let mut run = TraceRun::new();
    assert_eq!(run.submit_input("zero.test"), vec![]);
    let addrs = vec![IpAddress::V4(0, 0, 0, 0)];
    let events = run.submit_lookup(&addrs);
    assert_eq!(
        events,
        vec![
            TraceEvent::ResolvedViaDns { address: IpAddress::V4(0, 0, 0, 0) },
            TraceEvent::ResolutionFailed { reason: ResolutionError::Unspecified },
        ]
    );
    assert_eq!(run.current_phase(), Phase::Done { outcome: Outcome::Failed });
}

#[test]
fn engine_construction_failure_ends_the_run() {
    let mut run = TraceRun::new();
    assert_eq!(run.submit_input("8.8.8.8"), vec![]);
    let events = run.engine_started(false);
    assert_eq!(events, vec![TraceEvent::EngineUnavailable]);
    assert_eq!(run.current_phase(), Phase::Done { outcome: Outcome::Failed });
}

#[test]
fn hops_are_forwarded_in_receive_order() {
    let mut run = run_to_draining("8.8.8.8");
    // Receive order is stream order, not hop order: out-of-order hop indices
    // are forwarded exactly as they arrived.
    let first = hop(1, 3, 12);
    let second = hop(2, 1, 4);
    let third = hop(3, 2, 9);
    assert_eq!(run.on_message(first, false), vec![TraceEvent::Hop { message: first }]);
    assert_eq!(run.on_message(second, false), vec![TraceEvent::Hop { message: second }]);
    assert_eq!(run.on_message(third, false), vec![TraceEvent::Hop { message: third }]);
    assert!(matches!(run.current_phase(), Phase::Draining { .. }));
}

#[test]
fn normal_completion_emits_single_terminal_event() {
    let mut run = run_to_draining("8.8.8.8");
    assert_eq!(run.on_message(hop(1, 1, 5), false), vec![TraceEvent::Hop { message: hop(1, 1, 5) }]);
    assert_eq!(run.on_stream_closed(false), vec![]);
    assert!(matches!(run.current_phase(), Phase::Joining { .. }));
    let events = run.on_join(ProbeResult::Finished {
        status: ProbeStatus::Done,
        probe_time_millis: 1234,
    });
    assert_eq!(
        events,
        vec![TraceEvent::Completed { status: ProbeStatus::Done, probe_time_millis: 1234 }]
    );
    assert_eq!(run.current_phase(), Phase::Done { outcome: Outcome::Completed });
}

#[test]
fn probe_error_is_surfaced_as_trace_error() {
    let mut run = run_to_draining("8.8.8.8");
    assert_eq!(run.on_stream_closed(false), vec![]);
    let events = run.on_join(ProbeResult::Errored { description: String::from("send failed") });
    assert_eq!(
        events,
        vec![TraceEvent::TraceError {
            failure: TraceFailure::ProbeError { description: String::from("send failed") },
        }]
    );
    assert_eq!(run.current_phase(), Phase::Done { outcome: Outcome::Failed });
}

#[test]
fn prober_crash_is_surfaced_as_internal_fault() {
    let mut run = run_to_draining("8.8.8.8");
    assert_eq!(run.on_stream_closed(false), vec![]);
    let events = run.on_join(ProbeResult::Crashed);
    assert_eq!(
        events,
        vec![TraceEvent::TraceError { failure: TraceFailure::InternalFault }]
    );
    assert_eq!(run.current_phase(), Phase::Done { outcome: Outcome::Failed });
}

#[test]
fn cancel_between_messages_emits_one_final_cancellation() {
    let mut run = run_to_draining("8.8.8.8");
    assert_eq!(run.on_message(hop(1, 1, 5), false), vec![TraceEvent::Hop { message: hop(1, 1, 5) }]);
    // cancel() was requested between the two messages: the flag reads true
    // when the next message is processed.
    let events = run.on_message(hop(2, 2, 8), true);
    assert_eq!(
        events,
        vec![TraceEvent::Hop { message: hop(2, 2, 8) }, TraceEvent::Cancelled]
    );
    assert_eq!(run.current_phase(), Phase::Done { outcome: Outcome::Cancelled });
}

#[test]
fn cancel_observed_at_stream_close_emits_cancellation() {
    let mut run = run_to_draining("8.8.8.8");
    let events = run.on_stream_closed(true);
    assert_eq!(events, vec![TraceEvent::Cancelled]);
    assert_eq!(run.current_phase(), Phase::Done { outcome: Outcome::Cancelled });
}

#[test]
fn dns_path_runs_to_completion() {
    let mut run = TraceRun::new();
    assert_eq!(run.submit_input("example.test"), vec![]);
    let addrs = vec![IpAddress::V6(0x2001, 0xdb8, 0, 0, 0, 0, 0, 7)];
    assert_eq!(
        run.submit_lookup(&addrs),
        vec![TraceEvent::ResolvedViaDns { address: IpAddress::V6(0x2001, 0xdb8, 0, 0, 0, 0, 0, 7) }]
    );
    assert_eq!(run.engine_started(true), vec![]);
    // A probe that got no reply carries no source address and no round trip.
    let silent = HopMessage {
        sequence: 1,
        source_ip: None,
        hop_index: 1,
        time_to_live: 1,
        node_kind: NodeKind::Unknown,
        rtt_millis: None,
    };
    assert_eq!(run.on_message(silent, false), vec![TraceEvent::Hop { message: silent }]);
    assert_eq!(run.on_stream_closed(false), vec![]);
    let events = run.on_join(ProbeResult::Finished {
        status: ProbeStatus::Timeout,
        probe_time_millis: 60000,
    });
    assert_eq!(
        events,
        vec![TraceEvent::Completed { status: ProbeStatus::Timeout, probe_time_millis: 60000 }]
    );
    assert_eq!(run.current_phase(), Phase::Done { outcome: Outcome::Completed });
}

#[test]
fn config_carries_hop_limit_and_policy_timings() {
    let c = TraceConfig::for_hop_limit(30);
    assert_eq!(c.max_hops, 30);
    assert_eq!(c.send_rate_millis, 2000);
    assert_eq!(c.receive_timeout_millis, 15000);
    assert_eq!(c.overall_timeout_millis, 60000);
    let c = TraceConfig::for_hop_limit(0);
    assert_eq!(c.max_hops, 1);
}
