use bgpstream::element::{ElementData, RawAddr, RawElement, RawPath, RawPrefix, RawRecord};
use bgpstream::stream::{
    teardown_steps, BGPStreamError, PullOutcome, PullRequest, Stream, StreamState, TeardownStep,
    FOREVER,
};

fn v4_addr(octets: [u8; 4]) -> RawAddr {
    let mut bytes = [0u8; 16];
    bytes[0] = octets[0];
    bytes[1] = octets[1];
    bytes[2] = octets[2];
    bytes[3] = octets[3];
    RawAddr { version: 4, bytes }
}

fn rib_element() -> RawElement {
    RawElement {
        elem_type: 1,
        timestamp: 1567756800,
        peer_address: v4_addr([192, 0, 2, 1]),
        peer_asnumber: 64512,
        prefix: RawPrefix {
            address: v4_addr([203, 0, 113, 0]),
            mask_len: 24,
        },
        nexthop: v4_addr([192, 0, 2, 254]),
        aspath: RawPath {
            written: 3,
            bytes: b"100".to_vec(),
        },
        communities: vec![Some((65000, 100))],
        old_state: 0,
        new_state: 0,
    }
}

fn raw_record() -> RawRecord {
    RawRecord {
        dump_collector: b"rrc00\0".to_vec(),
        dump_project: b"ris\0".to_vec(),
    }
}

#[test]
fn forever_is_zero() {
    assert_eq!(FOREVER, 0);
}

#[test]
fn configuration_succeeds_any_number_of_times_before_start() {
    let mut s = Stream::new();
    assert_eq!(s.state(), StreamState::New);
    for _ in 0..3 {
        assert!(s.add_filter("collector rrc00".to_string(), true).is_ok());
        assert!(s.add_interval_filter(10, 20).is_ok());
    }
    assert_eq!(s.state(), StreamState::IntervalSet);
    assert_eq!(s.filters().len(), 3);
    assert_eq!(s.interval(), Some((10, 20)));
}

#[test]
fn configuration_fails_out_of_order_after_start() {
    let mut s = Stream::new();
    assert!(s.iter(true).is_ok());
    assert_eq!(s.state(), StreamState::Started);
    match s.add_filter("collector rrc00".to_string(), true) {
        Err(BGPStreamError::OperationOutOfOrder(_)) => {}
        other => panic!("expected out-of-order error, got {:?}", other),
    }
    match s.add_interval_filter(1, 2) {
        Err(BGPStreamError::OperationOutOfOrder(_)) => {}
        other => panic!("expected out-of-order error, got {:?}", other),
    }
}

#[test]
fn iteration_starts_at_most_once() {
    let mut s = Stream::new();
    assert!(s.iter(true).is_ok());
    match s.iter(true) {
        Err(BGPStreamError::OperationOutOfOrder(_)) => {}
        other => panic!("expected out-of-order error, got {:?}", other),
    }
}

#[test]
fn start_failure_is_terminal() {
    let mut s = Stream::new();
    assert_eq!(s.iter(false), Err(BGPStreamError::StartFailed));
    assert_eq!(s.state(), StreamState::Failed);
    match s.iter(true) {
        Err(BGPStreamError::OperationOutOfOrder(_)) => {}
        other => panic!("expected out-of-order error, got {:?}", other),
    }
}

#[test]
fn rejected_filter_reports_its_text() {
    let mut s = Stream::new();
    match s.add_filter("no such keyword".to_string(), false) {
        Err(BGPStreamError::InvalidFilter(f)) => assert_eq!(f, "no such keyword"),
        other => panic!("expected invalid-filter error, got {:?}", other),
    }
    assert!(s.filters().is_empty());
}

#[test]
fn nul_in_filter_is_rejected_locally() {
    let mut s = Stream::new();
    match s.add_filter("bad\0filter".to_string(), true) {
        Err(BGPStreamError::InvalidFilter(f)) => {
            assert_eq!(f, "Null character in filter string")
        }
        other => panic!("expected invalid-filter error, got {:?}", other),
    }
    assert!(s.filters().is_empty());
}

#[test]
fn exhaustion_then_every_pull_yields_end() {
    let mut s = Stream::new();
    assert!(s.iter(true).is_ok());
    assert_eq!(s.next_request(), PullRequest::NeedRecord);
    match s.on_record(0) {
        Some(PullOutcome::EndOfStream) => {}
        other => panic!("expected end of stream, got {:?}", other),
    }
    assert_eq!(s.state(), StreamState::Complete);
    for _ in 0..5 {
        assert_eq!(s.next_request(), PullRequest::Done);
    }
}

#[test]
fn record_failure_yields_error_once_then_end() {
    let mut s = Stream::new();
    assert!(s.iter(true).is_ok());
    match s.on_record(-1) {
        Some(PullOutcome::Failure(BGPStreamError::RecordGetFailure)) => {}
        other => panic!("expected record failure, got {:?}", other),
    }
    assert_eq!(s.state(), StreamState::Complete);
    assert_eq!(s.next_request(), PullRequest::Done);
}

#[test]
fn empty_record_regresses_to_record_pulls() {
    let mut s = Stream::new();
    assert!(s.iter(true).is_ok());
    assert!(s.on_record(1).is_none());
    assert_eq!(s.next_request(), PullRequest::NeedElement);
    assert!(s.on_element(None, &raw_record()).is_none());
    assert_eq!(s.next_request(), PullRequest::NeedRecord);
}

#[test]
fn element_decode_failure_is_not_terminal() {
    let mut s = Stream::new();
    assert!(s.iter(true).is_ok());
    assert!(s.on_record(1).is_none());
    let mut bad = rib_element();
    bad.elem_type = 9;
    match s.on_element(Some(bad), &raw_record()) {
        Some(PullOutcome::Failure(BGPStreamError::ElementFailure(_))) => {}
        other => panic!("expected element failure, got {:?}", other),
    }
    assert_eq!(s.state(), StreamState::Ongoing);
    match s.on_element(Some(rib_element()), &raw_record()) {
        Some(PullOutcome::Item(_)) => {}
        other => panic!("expected an element, got {:?}", other),
    }
}

#[test]
fn interval_and_filter_scenario_pulls_ten_ribs() {
    let mut s = Stream::new();
    s.add_interval_filter(1567756800, 1567756801).unwrap();
    s.add_filter("collector rrc00 and type ribs".to_string(), true).unwrap();
    assert_eq!(s.interval(), Some((1567756800, 1567756801)));
    assert_eq!(s.filters()[0], "collector rrc00 and type ribs");
    s.iter(true).unwrap();

    // A scripted engine: records keep coming, each carrying two elements.
    let record = raw_record();
    let mut elements_left_in_record = 0;
    let mut pulled = Vec::new();
    while pulled.len() < 10 {
        match s.next_request() {
            PullRequest::Done => break,
            PullRequest::NeedRecord => {
                assert!(s.on_record(1).is_none());
                elements_left_in_record = 2;
            }
            PullRequest::NeedElement => {
                let answer = if elements_left_in_record == 0 {
                    None
                } else {
                    elements_left_in_record -= 1;
                    Some(rib_element())
                };
                match s.on_element(answer, &record) {
                    None => {}
                    Some(PullOutcome::Item(e)) => pulled.push(e),
                    Some(other) => panic!("unexpected failure mid-stream: {:?}", other),
                }
            }
        }
    }
    assert_eq!(pulled.len(), 10);
    for e in &pulled {
        assert!(matches!(e.data, ElementData::Rib(_)));
        assert_eq!(e.collector, "rrc00");
    }
}

#[test]
fn teardown_full_stream_stops_then_destroys_once_each() {
    assert_eq!(
        teardown_steps(true, true),
        vec![
            TeardownStep::StopStream,
            TeardownStep::DestroyStream,
            TeardownStep::DestroyRecord,
        ]
    );
}

#[test]
fn teardown_skips_resources_never_allocated() {
    assert_eq!(teardown_steps(false, true), vec![TeardownStep::DestroyRecord]);
    assert_eq!(
        teardown_steps(true, false),
        vec![TeardownStep::StopStream, TeardownStep::DestroyStream]
    );
    assert_eq!(teardown_steps(false, false), vec![]);
}
