use geosync::config::SyncConfig;
use geosync::error::{FormatError, SyncError};
use geosync::fetch::decode_body;
use geosync::scheduler::{Decision, Event, Next, Phase, Reply, Scheduler, Trigger};
use geosync::scheduler::DEFAULT_INTERVAL_SECONDS;

fn quiet(next: Next) -> Decision {
    Decision { next, reply: Reply::Silent, failure: None }
}

#[test]
fn new_scheduler_is_idle() {
    let scheduler = Scheduler::new(60);
    assert_eq!(scheduler.interval_seconds, 60);
    assert_eq!(scheduler.phase, Phase::Idle);
    assert!(!scheduler.manual_waiting);
    assert!(!scheduler.stopping);
}

#[test]
fn tick_starts_a_cycle_of_the_timer() {
    let mut scheduler = Scheduler::new(60);
    assert_eq!(scheduler.on_event(Event::Tick), quiet(Next::Run(Trigger::Timer)));
    assert_eq!(scheduler.phase, Phase::Running(Trigger::Timer));
    assert_eq!(scheduler.on_event(Event::CycleSucceeded), quiet(Next::Wait));
    assert_eq!(scheduler.phase, Phase::Idle);
}

#[test]
fn failed_cycle_is_reported_and_the_next_tick_runs() {
    let mut scheduler = Scheduler::new(60);
    scheduler.on_event(Event::Tick);
    let decision = scheduler.on_event(Event::CycleFailed(SyncError::Network));
    assert_eq!(
        decision,
        Decision { next: Next::Wait, reply: Reply::Silent, failure: Some(SyncError::Network) }
    );
    assert_eq!(scheduler.phase, Phase::Idle);
    assert_eq!(scheduler.on_event(Event::Tick), quiet(Next::Run(Trigger::Timer)));
}

#[test]
fn manual_request_runs_at_once_and_its_caller_is_told() {
    let mut scheduler = Scheduler::new(60);
    assert_eq!(scheduler.on_event(Event::ManualRequest), quiet(Next::Run(Trigger::Manual)));
    let failure = SyncError::Format(FormatError::MissingFeatures);
    assert_eq!(
        scheduler.on_event(Event::CycleFailed(failure)),
        Decision { next: Next::Wait, reply: Reply::Failed(failure), failure: Some(failure) }
    );
    scheduler.on_event(Event::ManualRequest);
    assert_eq!(
        scheduler.on_event(Event::CycleSucceeded),
        Decision { next: Next::Wait, reply: Reply::Succeeded, failure: None }
    );
}

#[test]
fn manual_request_during_a_cycle_waits_for_its_own() {
    let mut scheduler = Scheduler::new(60);
    scheduler.on_event(Event::Tick);
    assert_eq!(scheduler.on_event(Event::ManualRequest), quiet(Next::Wait));
    assert_eq!(scheduler.on_event(Event::Tick), quiet(Next::Wait));
    assert!(scheduler.manual_waiting);
    assert_eq!(scheduler.on_event(Event::CycleSucceeded), quiet(Next::Run(Trigger::Manual)));
    assert_eq!(scheduler.phase, Phase::Running(Trigger::Manual));
    assert!(!scheduler.manual_waiting);
    assert_eq!(
        scheduler.on_event(Event::CycleSucceeded),
        Decision { next: Next::Wait, reply: Reply::Succeeded, failure: None }
    );
    assert_eq!(scheduler.phase, Phase::Idle);
}

#[test]
fn shutdown_while_idle_stops_at_once() {
    let mut scheduler = Scheduler::new(60);
    assert_eq!(scheduler.on_event(Event::Shutdown), quiet(Next::Halt));
    assert_eq!(scheduler.phase, Phase::Stopped);
    assert_eq!(scheduler.on_event(Event::Tick), quiet(Next::Halt));
    assert_eq!(
        scheduler.on_event(Event::ManualRequest),
        Decision { next: Next::Halt, reply: Reply::Refused, failure: None }
    );
    assert_eq!(scheduler.phase, Phase::Stopped);
}

#[test]
fn shutdown_lets_the_cycle_in_flight_finish() {
    let mut scheduler = Scheduler::new(60);
    scheduler.on_event(Event::Tick);
    scheduler.on_event(Event::ManualRequest);
    assert_eq!(
        scheduler.on_event(Event::Shutdown),
        Decision { next: Next::Wait, reply: Reply::Refused, failure: None }
    );
    assert_eq!(scheduler.phase, Phase::Running(Trigger::Timer));
    assert_eq!(
        scheduler.on_event(Event::ManualRequest),
        Decision { next: Next::Wait, reply: Reply::Refused, failure: None }
    );
    assert_eq!(
        scheduler.on_event(Event::CycleFailed(SyncError::Storage)),
        Decision { next: Next::Halt, reply: Reply::Silent, failure: Some(SyncError::Storage) }
    );
    assert_eq!(scheduler.phase, Phase::Stopped);
}

#[test]
fn end_of_a_cycle_that_never_ran_is_ignored() {
    let mut scheduler = Scheduler::new(60);
    assert_eq!(scheduler.on_event(Event::CycleSucceeded), quiet(Next::Wait));
    assert_eq!(scheduler.on_event(Event::CycleFailed(SyncError::Config)), quiet(Next::Wait));
    assert_eq!(scheduler.phase, Phase::Idle);
}

#[test]
fn configuration_defaults() {
    let config = SyncConfig::resolve(None, None, None);
    assert_eq!(config.endpoint_url, "http://localhost:5000/getdata");
    assert_eq!(config.store_path, "local_data.db");
    assert_eq!(config.interval_seconds, 3600);
    assert_eq!(DEFAULT_INTERVAL_SECONDS, 3600);
}

#[test]
fn configuration_keeps_what_is_given() {
    let config = SyncConfig::resolve(
        Some("https://example.org/data".to_string()),
        Some("/tmp/store.db".to_string()),
        Some(0),
    );
    assert_eq!(config.endpoint_url, "https://example.org/data");
    assert_eq!(config.store_path, "/tmp/store.db");
    assert_eq!(config.interval_seconds, 0);
    let config = SyncConfig::resolve(None, Some("x.db".to_string()), Some(15));
    assert_eq!(config.endpoint_url, "http://localhost:5000/getdata");
    assert_eq!(config.store_path, "x.db");
    assert_eq!(config.interval_seconds, 15);
}

#[test]
fn body_that_is_text_becomes_the_payload() {
    assert_eq!(decode_body(b"{\"features\":[]}".to_vec()), Ok("{\"features\":[]}".to_string()));
    assert_eq!(decode_body(vec![0xe2, 0x82, 0xac]), Ok("\u{20ac}".to_string()));
    assert_eq!(decode_body(vec![]), Ok(String::new()));
}

#[test]
fn body_that_is_no_text_is_a_protocol_error() {
    assert_eq!(decode_body(vec![0xff, 0xfe]), Err(SyncError::Protocol));
    assert_eq!(decode_body(vec![0x7b, 0xc3]), Err(SyncError::Protocol));
}

#[test]
fn messages_of_the_failures() {
    assert_eq!(FormatError::MissingFeatures.message(), "missing features array");
    assert_eq!(FormatError::MissingType.message(), "missing type");
    assert_eq!(FormatError::Unencodable.message(), "value without JSON text");
    assert_eq!(SyncError::Config.message(), "store path cannot be read");
    assert_eq!(SyncError::Network.message(), "transport failure");
    assert_eq!(SyncError::Protocol.message(), "malformed response body");
    assert_eq!(SyncError::Storage.message(), "storage failure");
    assert_eq!(
        SyncError::Format(FormatError::MissingFeatures).message(),
        "missing features array"
    );
    assert_eq!(SyncError::Format(FormatError::MissingType).message(), "missing type");
}
