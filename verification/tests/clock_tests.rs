use echors::commands::commands::Command;
use echors::commands::commands::CommandType;
use echors::commands::commands::Dispatch;
use echors::commands::implcommands::get::GetCmd;
use echors::commands::implcommands::sets::SetSCmd;
use echors::connection::handle_frame;
use echors::connection::handle_frame_at;
use echors::connection::Turn;
use echors::state::clock::clock_reading;
use echors::state::clock::now_ms;
use echors::state::clock::CLOCK_MAX;
use echors::state::datastate::DataState;
use echors::state::datastate::DataType;
use echors::state::datastate::IntType;
use echors::state::expires::ExpireParameter;
use echors::state::serverstate::ServerState;
use std::time::SystemTime;
use std::time::UNIX_EPOCH;

fn wall_clock() -> u64 {
    SystemTime::now().duration_since(UNIX_EPOCH).unwrap().as_millis() as u64
}

fn payload(code: u16, args: &[&[u8]]) -> Vec<u8> {
    let mut p = code.to_le_bytes().to_vec();
    for a in args {
        p.extend((a.len() as u32).to_le_bytes());
        p.extend(a.iter());
    }
    p
}

#[test]
fn clock_is_the_wall_clock() {
    let before = wall_clock();
    let now = now_ms();
    let after = wall_clock();
    assert!(before <= now && now <= after);
    assert!(now > 1_600_000_000_000);
}

#[test]
fn expiry_counts_from_now() {
    let before = wall_clock();
    let e = ExpireParameter::EXPIREIN(5000).get_expire(None).unwrap();
    let after = wall_clock();
    assert!(before + 5000 <= e && e <= after + 5000);
    assert_eq!(ExpireParameter::EXPIREAT(7).get_expire(None), Some(7));
    assert_eq!(ExpireParameter::KEEPTTL.get_expire(Some(9)), Some(9));
    assert_eq!(ExpireParameter::NONE.get_expire(Some(9)), None);
}

#[test]
fn store_goes_by_the_clock() {
    let mut s = DataState::new();
    let far = wall_clock() + 1_000_000;
    let _ = s.set("past", DataType::Int(IntType::new(1)), ExpireParameter::EXPIREAT(1000));
    let _ = s.set("future", DataType::Int(IntType::new(2)), ExpireParameter::EXPIREAT(far));
    let _ = s.set("soon", DataType::Int(IntType::new(3)), ExpireParameter::EXPIREIN(1_000_000));
    assert!(s.get("past").is_none());
    assert!(s.get("future").is_some());
    assert!(s.get("soon").is_some());
    assert!(s.get_at("soon", far + 1).is_none());
    assert_eq!(s.removed_count(), 2);
    let _ = s.set("past", DataType::Int(IntType::new(1)), ExpireParameter::EXPIREAT(1000));
    s.maintenance_work();
    assert!(s.last_expired_cleanup() >= far - 1_000_000);
    assert!(s.take("past", 0).is_none());
    assert!(s.take("future", 0).is_some());
}

#[test]
fn server_starts_now() {
    let before = wall_clock();
    let s = ServerState::new("9.9");
    let after = wall_clock();
    assert!(before <= s.start_time && s.start_time <= after);
    assert_eq!(s.version, "9.9");
    assert_eq!(
        s.to_string(),
        "current connections: 0\ntotal connections: 0\nprocessed_commands: 0\nversion: 9.9\nuptime: 0"
    );
    let old = ServerState::started_at("9.9", before - 7_500);
    assert!(old.to_string().ends_with("\nuptime: 7"));
}

#[test]
fn commands_go_by_the_clock() {
    let mut store = DataState::new();
    let set = Command {
        command_type: CommandType::SetString,
        arguments: vec![b"k", b"v", &[0x40, 0x42, 0x0F, 0x00]],
    };
    assert!(matches!(SetSCmd::execute(&mut store, &set), Ok(None)));
    let get = Command { command_type: CommandType::Get, arguments: vec![b"k"] };
    assert_eq!(GetCmd::execute(&mut store, &get), Ok(Some(vec![3, 1, 0, 0, 0, b'v'])));
    let far = wall_clock() + 2_000_000;
    assert_eq!(GetCmd::execute_at(&mut store, &get, far), Err("Key not found".to_string()));
    let counters = ServerState::new("v");
    let info = Command { command_type: CommandType::Info, arguments: vec![] };
    match info.execute(&mut store, &counters) {
        Dispatch::Reply(Ok(Some(bytes))) => assert_eq!(bytes[0], 3),
        _ => panic!("no report"),
    }
}

#[test]
fn turns_go_by_the_clock() {
    let mut counters = ServerState::new("v");
    let mut store = DataState::new();
    let set = payload(2, &[b"k", b"v", &1_000_000u32.to_le_bytes()]);
    match handle_frame(&set, &mut counters, &mut store) {
        Turn::Respond { response, close } => {
            assert_eq!(response, vec![1, 3, 2, 0, 0, 0, b'O', b'K']);
            assert!(!close);
        }
        _ => panic!("no response"),
    }
    let get = payload(5, &[b"k"]);
    match handle_frame(&get, &mut counters, &mut store) {
        Turn::Respond { response, .. } => assert_eq!(response, vec![1, 3, 1, 0, 0, 0, b'v']),
        _ => panic!("no response"),
    }
    match handle_frame_at(&get, &mut counters, &mut store, wall_clock() + 2_000_000) {
        Turn::Respond { response, .. } => assert_eq!(response[0], 2),
        _ => panic!("no response"),
    }
    assert_eq!(counters.processed_commands, 2);
}

#[test]
fn clock_reading_stays_in_range() {
    assert_eq!(CLOCK_MAX, u64::MAX - u32::MAX as u64);
    assert_eq!(clock_reading(None), 0);
    assert_eq!(clock_reading(Some(0)), 0);
    assert_eq!(clock_reading(Some(1_700_000_000_123)), 1_700_000_000_123);
    assert_eq!(clock_reading(Some(CLOCK_MAX as u128)), CLOCK_MAX);
    assert_eq!(clock_reading(Some(CLOCK_MAX as u128 + 1)), CLOCK_MAX);
    assert_eq!(clock_reading(Some(u64::MAX as u128)), CLOCK_MAX);
    assert_eq!(clock_reading(Some(u128::MAX)), CLOCK_MAX);
}
