use almond::stats_client::{is_benign_connect_failure, frame_line, ConnectFailure, StatsClient, StatsMessage};
use almond::stats_monitor::{extract_coverage_from_stats, ClientStats, StatsMonitor, UserStat};
use almond::observers::coverage_ring::{self, CoverageStream};
use almond::observers::signal_ring::{self, SignalStream};

fn client(key: &str, stat: UserStat) -> ClientStats {
    ClientStats { enabled: true, user_stats: vec![(key.to_string(), stat)] }
}

#[test]
fn test_stats_client_clone() {
    let client = StatsClient::new(0, "test_target", "/tmp/test-stats-clone.sock");
    let cloned = client.clone();

    assert_eq!(client.vm_id, cloned.vm_id);
    assert_eq!(client.target, cloned.target);
    assert_eq!(client.socket_path, cloned.socket_path);
}

#[test]
fn aggregate_message_carries_the_statistics() {
    let client = StatsClient::new(3, "test_target", "/tmp/x.sock");
    match client.aggregate_message(12345, 56, 1234, 999999) {
        StatsMessage::Aggregate(a) => {
            assert_eq!(a.vm_id, 3);
            assert_eq!(a.target, "test_target");
            assert_eq!(a.coverage_signal, 12345);
            assert_eq!(a.corpus_size, 56);
            assert_eq!(a.execs_per_sec, 1234);
            assert_eq!(a.total_execs, 999999);
        }
        StatsMessage::Rings(_) => panic!("expected an aggregate message"),
    }
}

#[test]
fn rings_message_only_when_there_is_data() {
    let client = StatsClient::new(0, "test_target", "/tmp/x.sock");
    assert!(client.rings_message(vec![], vec![], 0, 0).is_none());
    assert!(client.rings_message(vec![], vec![], 0, 1).is_some());
    match client.rings_message(vec![0x1000, 0x2000, 0x3000], vec![42, 100, 8191], 0, 0) {
        Some(StatsMessage::Rings(r)) => {
            assert_eq!(r.bbs, vec![0x1000, 0x2000, 0x3000]);
            assert_eq!(r.signals, vec![42, 100, 8191]);
            assert_eq!(r.target, "test_target");
        }
        _ => panic!("expected a rings message"),
    }
}

#[test]
fn drain_rings_message_empties_the_streams() {
    let client = StatsClient::new(1, "t", "/tmp/x.sock");
    let mut cov = CoverageStream::new();
    let mut sig = SignalStream::new();
    assert!(client.drain_rings_message(&mut cov, &mut sig).is_none());
    assert!(coverage_ring::push_if_new(&mut cov, 0xabc));
    assert!(!coverage_ring::push_if_new(&mut cov, 0xabc));
    assert!(signal_ring::push_if_new(&mut sig, 9));
    match client.drain_rings_message(&mut cov, &mut sig) {
        Some(StatsMessage::Rings(r)) => {
            assert_eq!(r.bbs, vec![0xabc]);
            assert_eq!(r.signals, vec![9]);
            assert_eq!(r.coverage_ring_overflows, 0);
        }
        _ => panic!("expected a rings message"),
    }
    assert!(client.drain_rings_message(&mut cov, &mut sig).is_none());
    // Already seen: not forwarded again.
    assert!(!coverage_ring::push_if_new(&mut cov, 0xabc));
}

#[test]
fn connect_failures() {
    assert!(is_benign_connect_failure(ConnectFailure::NotFound));
    assert!(is_benign_connect_failure(ConnectFailure::ConnectionRefused));
    assert!(!is_benign_connect_failure(ConnectFailure::Other));
    assert_eq!(frame_line("{\"a\":1}"), "{\"a\":1}\n");
}

#[test]
fn test_stats_monitor_rate_limit() {
    let ms: u64 = 1_000_000;
    let mut monitor = StatsMonitor::with_interval(
        0,
        "test_target",
        "/tmp/test-stats-rate.sock",
        100 * ms as u128,
        1000 * ms,
    );
    assert!(monitor.try_send_stats(1000 * ms, 100, 5, 1000, 50000).is_some());
    assert!(monitor.try_send_stats(1000 * ms, 200, 10, 2000, 100000).is_none());
    assert!(monitor.try_send_stats(1099 * ms, 200, 10, 2000, 100000).is_none());
    assert!(monitor.try_send_stats(1150 * ms, 300, 15, 3000, 150000).is_some());
}

#[test]
fn monitor_sends_at_once_with_the_default_interval() {
    let mut monitor = StatsMonitor::new(0, "test_target", "/tmp/s.sock", 0);
    match monitor.try_send_stats(0, 555, 1, 2, 3) {
        Some(StatsMessage::Aggregate(a)) => {
            assert_eq!(a.coverage_signal, 555);
            assert_eq!(a.vm_id, 0);
            assert_eq!(a.target, "test_target");
        }
        _ => panic!("expected an aggregate message"),
    }
    assert!(monitor.try_send_stats(999_999_999, 1, 1, 1, 1).is_none());
    assert!(monitor.try_send_stats(1_000_000_000, 1, 1, 1, 1).is_some());
}

#[test]
fn test_extract_coverage_from_user_stats_ratio() {
    let clients = vec![client("signal", UserStat::Ratio(1234, 10000))];
    let aggregated = vec![("signal".to_string(), UserStat::Other)];
    assert_eq!(extract_coverage_from_stats(&clients, &aggregated, "signal"), Some(1234));
}

#[test]
fn test_extract_coverage_from_user_stats_number() {
    let clients = vec![client("signal", UserStat::Number(5678))];
    let aggregated = vec![("signal".to_string(), UserStat::Number(5678))];
    assert_eq!(extract_coverage_from_stats(&clients, &aggregated, "signal"), Some(5678));
}

#[test]
fn test_extract_coverage_from_aggregated_stats() {
    let clients = vec![client("signal_cov", UserStat::Ratio(9999, 50000))];
    let aggregated = vec![("signal_cov".to_string(), UserStat::Other)];
    assert_eq!(extract_coverage_from_stats(&clients, &aggregated, "signal_cov"), Some(9999));
}

#[test]
fn test_extract_coverage_returns_zero_when_not_found() {
    let clients: Vec<ClientStats> = vec![];
    let aggregated = vec![];
    assert_eq!(extract_coverage_from_stats(&clients, &aggregated, "nonexistent"), Some(0));
}

#[test]
fn test_extract_coverage_multiple_clients() {
    let clients = vec![
        client("signal", UserStat::Ratio(100, 1000)),
        client("signal", UserStat::Ratio(200, 1000)),
    ];
    let aggregated = vec![("signal".to_string(), UserStat::Other)];
    assert_eq!(extract_coverage_from_stats(&clients, &aggregated, "signal"), Some(300));
}

#[test]
fn test_observer_name_fallback() {
    let clients = vec![client("signal_cov", UserStat::Ratio(333, 1000))];
    let aggregated = vec![("signal_cov".to_string(), UserStat::Other)];
    assert_eq!(extract_coverage_from_stats(&clients, &aggregated, "signal"), Some(333));
}

#[test]
fn extract_coverage_skips_disabled_clients_and_falls_back() {
    let mut off = client("signal", UserStat::Number(50));
    off.enabled = false;
    let clients = vec![off];
    let aggregated = vec![
        ("signal".to_string(), UserStat::Other),
        ("signal_cov".to_string(), UserStat::Float(77)),
    ];
    assert_eq!(extract_coverage_from_stats(&clients, &aggregated, "signal"), Some(77));
}

#[test]
fn extract_coverage_reports_overflow() {
    let clients = vec![
        client("signal", UserStat::Number(usize::MAX)),
        client("signal", UserStat::Number(1)),
    ];
    assert_eq!(extract_coverage_from_stats(&clients, &vec![], "signal"), None);
}
