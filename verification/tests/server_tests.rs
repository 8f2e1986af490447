use echors::state::serverstate::ServerState;

#[test]
fn new_counters_are_zero() {
    let s = ServerState::started_at("1.2.3", 5000);
    assert_eq!(s.current_connections, 0);
    assert_eq!(s.total_connections, 0);
    assert_eq!(s.processed_commands, 0);
    assert_eq!(s.version, "1.2.3");
    assert_eq!(s.start_time, 5000);
}

#[test]
fn report_exact() {
    let mut s = ServerState::started_at("0.1.0", 10_000);
    s.current_connections = 3;
    s.total_connections = 12;
    s.processed_commands = 4567;
    assert_eq!(
        s.to_string_at(75_999),
        "current connections: 3\ntotal connections: 12\nprocessed_commands: 4567\nversion: 0.1.0\nuptime: 65"
    );
    assert_eq!(
        s.to_string_at(9_000),
        "current connections: 3\ntotal connections: 12\nprocessed_commands: 4567\nversion: 0.1.0\nuptime: 0"
    );
}

#[test]
fn report_keeps_a_version_that_is_not_ascii() {
    let s = ServerState::started_at("v1-β", 0);
    assert_eq!(
        s.to_string_at(1000),
        "current connections: 0\ntotal connections: 0\nprocessed_commands: 0\nversion: v1-β\nuptime: 1"
    );
}

#[test]
fn admission_stops_at_the_limit() {
    let mut s = ServerState::started_at("v", 0);
    assert!(s.try_admit(2));
    assert!(s.try_admit(2));
    assert!(!s.try_admit(2));
    assert_eq!(s.current_connections, 2);
    assert_eq!(s.total_connections, 2);
    s.release();
    assert_eq!(s.current_connections, 1);
    assert!(s.try_admit(2));
    assert_eq!(s.current_connections, 2);
    assert_eq!(s.total_connections, 3);
    assert!(!s.try_admit(0));
}

#[test]
fn release_does_not_go_below_zero() {
    let mut s = ServerState::started_at("v", 0);
    s.release();
    assert_eq!(s.current_connections, 0);
}

#[test]
fn counters_stop_at_their_greatest_value() {
    let mut s = ServerState::started_at("v", 0);
    s.total_connections = u32::MAX;
    assert!(s.try_admit(5));
    assert_eq!(s.total_connections, u32::MAX);
    s.processed_commands = u64::MAX - 1;
    s.count_command();
    assert_eq!(s.processed_commands, u64::MAX);
    s.count_command();
    assert_eq!(s.processed_commands, u64::MAX);
}
