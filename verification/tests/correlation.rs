use traceroute_rust::address::Ipv4Address;
use traceroute_rust::generator::ProbeGenerator;
use traceroute_rust::probe::{ProbeError, ProbeMethod, ProbeResponse};
use traceroute_rust::task::{Awaited, ProbeTask};

fn run() -> ProbeGenerator {
    ProbeGenerator::new(ProbeMethod::UDP, 33434, 30, 3).unwrap()
}

fn response(id: &str, last: u8) -> ProbeResponse {
    ProbeResponse::new(id.to_string(), Ipv4Address::new(10, 0, 0, last))
}

#[test]
fn empty_table_knows_no_probe() {
    let mut task = ProbeTask::new();
    assert!(!task.contains("33434"));
    assert!(task.complete(response("33434", 1), 10).is_none());
    assert!(matches!(task.await_one("33434", 10, 5), Awaited::Unknown));
}

#[test]
fn registered_probe_waits() {
    let to = Ipv4Address::new(93, 184, 216, 34);
    let mut task = ProbeTask::new();
    task.register(&run().generate(2, 1, to, 1000));
    assert!(task.contains("33438"));
    assert!(!task.contains("33437"));
    assert!(matches!(task.await_one("33438", 1500, 4000), Awaited::Waiting));
}

#[test]
fn completion_is_at_most_once() {
    let to = Ipv4Address::new(93, 184, 216, 34);
    let mut task = ProbeTask::new();
    task.register(&run().generate(2, 1, to, 1000));
    let first = task.complete(response("33438", 1), 1800).unwrap();
    let second = task.complete(response("33438", 2), 2900).unwrap();
    assert_eq!(first.rtt(), 800);
    assert_eq!(second.rtt(), 800);
    assert_eq!(first.probe_id(), "33438");
    assert_eq!(second.probe_id(), "33438");
    assert_eq!(first.ttl(), 2);
    assert_eq!(second.ttl(), 2);
    assert_eq!(first.from_address(), Ipv4Address::new(10, 0, 0, 1));
    assert_eq!(second.from_address(), Ipv4Address::new(10, 0, 0, 1));
    match task.await_one("33438", 99999, 4000) {
        Awaited::Completed(result) => {
            assert_eq!(result.rtt(), 800);
            assert_eq!(result.from_address(), Ipv4Address::new(10, 0, 0, 1));
        },
        other => panic!("{:?}", other),
    }
}

#[test]
fn stale_response_is_rejected() {
    let to = Ipv4Address::new(93, 184, 216, 34);
    let mut task = ProbeTask::new();
    task.register(&run().generate(2, 1, to, 1000));
    match task.await_one("33438", 4000, 4000) {
        Awaited::TimedOut(ProbeError::Timeout { ttl }) => assert_eq!(ttl, 2),
        other => panic!("{:?}", other),
    }
    assert!(task.complete(response("33438", 1), 4001).is_none());
    match task.await_one("33438", 0, 4000) {
        Awaited::TimedOut(ProbeError::Timeout { ttl }) => assert_eq!(ttl, 2),
        other => panic!("{:?}", other),
    }
}

#[test]
fn foreign_response_changes_nothing() {
    let to = Ipv4Address::new(93, 184, 216, 34);
    let mut task = ProbeTask::new();
    task.register(&run().generate(2, 1, to, 1000));
    assert!(task.complete(response("33439", 1), 1800).is_none());
    assert!(matches!(task.await_one("33438", 1900, 4000), Awaited::Waiting));
    assert_eq!(task.complete(response("33438", 1), 2000).unwrap().rtt(), 1000);
}

#[test]
fn probes_are_completed_independently() {
    let to = Ipv4Address::new(93, 184, 216, 34);
    let mut task = ProbeTask::new();
    task.register(&run().generate(2, 0, to, 1000));
    task.register(&run().generate(2, 1, to, 1010));
    task.register(&run().generate(2, 2, to, 1020));
    assert_eq!(task.complete(response("33439", 9), 1520).unwrap().rtt(), 500);
    assert!(matches!(task.await_one("33437", 4000, 4000), Awaited::TimedOut(_)));
    assert_eq!(task.complete(response("33438", 8), 4005).unwrap().rtt(), 2995);
    assert!(task.complete(response("33437", 7), 4006).is_none());
    assert!(matches!(task.await_one("33439", 9000, 4020), Awaited::Completed(_)));
    assert!(matches!(task.await_one("33438", 9000, 4010), Awaited::Completed(_)));
    assert!(matches!(task.await_one("33437", 9000, 4000), Awaited::TimedOut(_)));
}

#[test]
fn registering_again_starts_over() {
    let to = Ipv4Address::new(93, 184, 216, 34);
    let mut task = ProbeTask::new();
    task.register(&run().generate(2, 1, to, 1000));
    assert!(matches!(task.await_one("33438", 5000, 4000), Awaited::TimedOut(_)));
    task.register(&run().generate(2, 1, to, 6000));
    assert!(matches!(task.await_one("33438", 6001, 9000), Awaited::Waiting));
    assert_eq!(task.complete(response("33438", 1), 6400).unwrap().rtt(), 400);
}
