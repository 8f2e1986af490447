use echors::connection::handle_frame_at;
use echors::connection::respond;
use echors::connection::respond_malformed;
use echors::connection::resume_estimate;
use echors::connection::resume_sum_at;
use echors::connection::CommandResult;
use echors::connection::Turn;
use echors::state::datastate::DataState;
use echors::state::serverstate::ServerState;

const INFO: u16 = 0;
const TEST: u16 = 1;
const SET_STRING: u16 = 2;
const SET_INT: u16 = 3;
const SET_FLOAT: u16 = 4;
const GET: u16 = 5;
const DELETE: u16 = 6;
const INCR_INT: u16 = 7;
const INCR_FLOAT: u16 = 8;
const LIST_PUSH: u16 = 9;
const LIST_POP: u16 = 10;
const LIST_RANGE: u16 = 11;
const LIST_EXTRACT: u16 = 12;
const LIST_LENGTH: u16 = 13;
const HLL_ADD: u16 = 14;
const HLL_COUNT: u16 = 15;
const HLL_RESET: u16 = 16;
const FLUSH: u16 = 17;

struct Server {
    counters: ServerState,
    store: DataState,
}

fn server() -> Server {
    Server { counters: ServerState::started_at("test", 0), store: DataState::new() }
}

fn payload(code: u16, args: &[&[u8]]) -> Vec<u8> {
    let mut p = code.to_le_bytes().to_vec();
    for a in args {
        p.extend((a.len() as u32).to_le_bytes());
        p.extend(a.iter());
    }
    p
}

fn send(s: &mut Server, now: u64, code: u16, args: &[&[u8]]) -> Vec<u8> {
    match handle_frame_at(&payload(code, args), &mut s.counters, &mut s.store, now) {
        Turn::Respond { response, close } => {
            assert!(!close);
            response
        }
        _ => panic!("the turn stopped for floating-point work"),
    }
}

fn ok_string(text: &[u8]) -> Vec<u8> {
    let mut r = vec![1, 3];
    r.extend((text.len() as u32).to_le_bytes());
    r.extend(text);
    r
}

fn ok_int(n: i32) -> Vec<u8> {
    let mut r = vec![1, 1];
    r.extend(n.to_le_bytes());
    r
}

fn err(message: &str) -> Vec<u8> {
    let mut r = vec![2, 3];
    r.extend((message.len() as u32).to_le_bytes());
    r.extend(message.as_bytes());
    r
}

fn ok() -> Vec<u8> {
    vec![1, 3, 2, 0, 0, 0, b'O', b'K']
}

fn list(items: &[&[u8]]) -> Vec<u8> {
    let mut r = vec![1, 4];
    for i in items {
        r.push(3);
        r.extend((i.len() as u32).to_le_bytes());
        r.extend(i.iter());
    }
    r
}

#[test]
fn status_bytes() {
    assert_eq!(CommandResult::OK.byte(), 1);
    assert_eq!(CommandResult::ERR.byte(), 2);
}

#[test]
fn set_then_get_a_string() {
    let mut s = server();
    let first = payload(SET_STRING, &[b"k", b"hello"]);
    assert_eq!(first, vec![2, 0, 1, 0, 0, 0, b'k', 5, 0, 0, 0, b'h', b'e', b'l', b'l', b'o']);
    assert_eq!(send(&mut s, 1000, SET_STRING, &[b"k", b"hello"]), vec![1, 3, 2, 0, 0, 0, b'O', b'K']);
    assert_eq!(
        send(&mut s, 1000, GET, &[b"k"]),
        vec![1, 3, 5, 0, 0, 0, b'h', b'e', b'l', b'l', b'o']
    );
}

#[test]
fn set_string_replaces_any_value() {
    let mut s = server();
    assert_eq!(send(&mut s, 0, SET_INT, &[b"k", &7i32.to_le_bytes()]), ok());
    assert_eq!(send(&mut s, 0, SET_STRING, &[b"k", b"v1"]), ok());
    assert_eq!(send(&mut s, 0, SET_STRING, &[b"k", b"v2"]), ok());
    assert_eq!(send(&mut s, 0, GET, &[b"k"]), ok_string(b"v2"));
    assert_eq!(send(&mut s, 0, SET_STRING, &[b"k", b""]), ok());
    assert_eq!(send(&mut s, 0, GET, &[b"k"]), ok_string(b""));
}

#[test]
fn incr_int_creates_then_adds() {
    let mut s = server();
    assert_eq!(send(&mut s, 0, INCR_INT, &[b"n"]), vec![1, 1, 1, 0, 0, 0]);
    assert_eq!(send(&mut s, 0, INCR_INT, &[b"n"]), vec![1, 1, 2, 0, 0, 0]);
    assert_eq!(send(&mut s, 0, GET, &[b"n"]), ok_int(2));
    assert_eq!(send(&mut s, 0, INCR_INT, &[b"n", &40i32.to_le_bytes()]), ok_int(42));
    assert_eq!(send(&mut s, 0, INCR_INT, &[b"n", &(-50i32).to_le_bytes()]), ok_int(-8));
    assert_eq!(send(&mut s, 0, GET, &[b"n"]), ok_int(-8));
    assert_eq!(send(&mut s, 0, INCR_INT, &[b"m", &5i32.to_le_bytes()]), ok_int(5));
}

#[test]
fn incr_int_wraps() {
    let mut s = server();
    assert_eq!(send(&mut s, 0, SET_INT, &[b"n", &i32::MAX.to_le_bytes()]), ok());
    assert_eq!(send(&mut s, 0, INCR_INT, &[b"n"]), ok_int(i32::MIN));
    assert_eq!(send(&mut s, 0, GET, &[b"n"]), ok_int(i32::MIN));
    assert_eq!(send(&mut s, 0, INCR_INT, &[b"n", &(-1i32).to_le_bytes()]), ok_int(i32::MAX));
    assert_eq!(
        send(&mut s, 0, INCR_INT, &[b"n", &i32::MAX.to_le_bytes()]),
        ok_int(i32::MAX.wrapping_add(i32::MAX))
    );
}

#[test]
fn incr_int_keeps_the_expiry() {
    let mut s = server();
    assert_eq!(send(&mut s, 1000, INCR_INT, &[b"n"]), ok_int(1));
    let w = s.store.take("n", 1000).unwrap();
    s.store.put("n", echors::state::datastate::DataWrapper::new(w.into_data(), Some(5000)));
    assert_eq!(send(&mut s, 1000, INCR_INT, &[b"n"]), ok_int(2));
    assert_eq!(send(&mut s, 4999, GET, &[b"n"]), ok_int(2));
    assert_eq!(send(&mut s, 5000, INCR_INT, &[b"n"]), ok_int(1));
    assert_eq!(send(&mut s, 99_999, GET, &[b"n"]), ok_int(1));
}

#[test]
fn incr_int_on_an_expired_string_starts_anew() {
    let mut s = server();
    assert_eq!(send(&mut s, 1000, SET_STRING, &[b"k", b"v", &100u32.to_le_bytes()]), ok());
    assert_eq!(send(&mut s, 1000, INCR_INT, &[b"k"]), err("Invalid type"));
    assert_eq!(send(&mut s, 1099, GET, &[b"k"]), ok_string(b"v"));
    assert_eq!(send(&mut s, 1100, INCR_INT, &[b"k"]), ok_int(1));
    assert_eq!(send(&mut s, 99_999, GET, &[b"k"]), ok_int(1));
}

#[test]
fn incr_int_errors() {
    let mut s = server();
    assert_eq!(send(&mut s, 0, INCR_INT, &[]), err("Invalid number of arguments for INCRI command"));
    assert_eq!(send(&mut s, 0, INCR_INT, &[&[0xFF]]), err("Invalid utf8 key"));
    assert_eq!(send(&mut s, 0, INCR_INT, &[b"n", &[1, 2, 3]]), err("Invalid u32 value"));
    assert_eq!(send(&mut s, 0, GET, &[b"n"]), err("Key not found"));
    assert_eq!(send(&mut s, 0, SET_STRING, &[b"s", b"text"]), ok());
    assert_eq!(send(&mut s, 0, INCR_INT, &[b"s"]), err("Invalid type"));
    assert_eq!(send(&mut s, 0, GET, &[b"s"]), ok_string(b"text"));
}

#[test]
fn set_int_and_get() {
    let mut s = server();
    assert_eq!(send(&mut s, 0, SET_INT, &[b"n", &(-7i32).to_le_bytes()]), ok());
    assert_eq!(send(&mut s, 0, GET, &[b"n"]), vec![1, 1, 0xF9, 0xFF, 0xFF, 0xFF]);
    assert_eq!(send(&mut s, 0, SET_INT, &[b"n", &[1, 0, 0, 0, 9, 9]]), ok());
    assert_eq!(send(&mut s, 0, GET, &[b"n"]), ok_int(1));
}

#[test]
fn set_int_errors() {
    let mut s = server();
    let arity = err("Invalid number of arguments for SETI command");
    assert_eq!(send(&mut s, 0, SET_INT, &[]), arity);
    assert_eq!(send(&mut s, 0, SET_INT, &[b"n"]), arity);
    assert_eq!(send(&mut s, 0, SET_INT, &[b"n", &[0; 4], &[0; 4]]), arity);
    assert_eq!(send(&mut s, 0, SET_INT, &[&[0xC0], &[0; 4]]), err("Invalid utf8 key"));
    assert_eq!(send(&mut s, 0, SET_INT, &[b"n", &[0; 3]]), err("Invalid u32 value"));
    assert_eq!(send(&mut s, 0, GET, &[b"n"]), err("Key not found"));
}

#[test]
fn set_float_and_get() {
    let mut s = server();
    assert_eq!(send(&mut s, 0, SET_FLOAT, &[b"f", &2.5f32.to_le_bytes()]), ok());
    let mut expected = vec![1, 2];
    expected.extend(2.5f32.to_le_bytes());
    assert_eq!(send(&mut s, 0, GET, &[b"f"]), expected);
}

#[test]
fn set_float_errors() {
    let mut s = server();
    let arity = err("Invalid number of arguments for SETF command");
    assert_eq!(send(&mut s, 0, SET_FLOAT, &[b"f"]), arity);
    assert_eq!(send(&mut s, 0, SET_FLOAT, &[b"f", &[0; 4], &[0; 4]]), arity);
    assert_eq!(send(&mut s, 0, SET_FLOAT, &[&[0x80], &[0; 4]]), err("Invalid utf8 key"));
    assert_eq!(send(&mut s, 0, SET_FLOAT, &[b"f", &[]]), err("Invalid f32 value"));
}

#[test]
fn set_string_errors() {
    let mut s = server();
    let arity = err("Invalid number of arguments for SETS command");
    assert_eq!(send(&mut s, 0, SET_STRING, &[]), arity);
    assert_eq!(send(&mut s, 0, SET_STRING, &[b"k"]), arity);
    assert_eq!(send(&mut s, 0, SET_STRING, &[b"k", b"v", &[0], b"x"]), arity);
    assert_eq!(send(&mut s, 0, SET_STRING, &[&[0xFF], b"v"]), err("Invalid utf8 key"));
    assert_eq!(send(&mut s, 0, SET_STRING, &[b"k", &[0xFF]]), err("Invalid utf8 value"));
    assert_eq!(send(&mut s, 0, GET, &[b"k"]), err("Key not found"));
}

#[test]
fn get_errors() {
    let mut s = server();
    let arity = err("Invalid number of arguments for GET command");
    assert_eq!(send(&mut s, 0, GET, &[]), arity);
    assert_eq!(send(&mut s, 0, GET, &[b"a", b"b"]), arity);
    assert_eq!(send(&mut s, 0, GET, &[&[0xE2, 0x82]]), err("Invalid utf8 key"));
    assert_eq!(send(&mut s, 0, GET, &[b"missing"]), err("Key not found"));
    assert_eq!(send(&mut s, 0, LIST_PUSH, &[b"l", b"x"]), ok());
    assert_eq!(send(&mut s, 0, GET, &[b"l"]), err("Data type is not simple"));
    assert_eq!(send(&mut s, 0, HLL_ADD, &[b"h", b"x"]), ok());
    assert_eq!(send(&mut s, 0, GET, &[b"h"]), err("Data type is not simple"));
}

#[test]
fn expire_in_is_honoured() {
    let mut s = server();
    assert_eq!(send(&mut s, 10_000, SET_STRING, &[b"k", b"v", &50u32.to_le_bytes()]), ok());
    assert_eq!(send(&mut s, 10_000, GET, &[b"k"]), ok_string(b"v"));
    assert_eq!(send(&mut s, 10_049, GET, &[b"k"]), ok_string(b"v"));
    assert_eq!(send(&mut s, 10_200, GET, &[b"k"]), err("Key not found"));
    assert_eq!(send(&mut s, 10_000, GET, &[b"k"]), err("Key not found"));
}

#[test]
fn expire_at_is_honoured() {
    let mut s = server();
    assert_eq!(send(&mut s, 10_000, SET_STRING, &[b"k", b"v", &20_000u64.to_le_bytes()]), ok());
    assert_eq!(send(&mut s, 19_999, GET, &[b"k"]), ok_string(b"v"));
    assert_eq!(send(&mut s, 20_000, GET, &[b"k"]), err("Key not found"));
}

#[test]
fn keep_ttl_is_honoured() {
    let mut s = server();
    assert_eq!(send(&mut s, 10_000, SET_STRING, &[b"k", b"v", &20_000u64.to_le_bytes()]), ok());
    assert_eq!(send(&mut s, 11_000, SET_STRING, &[b"k", b"w", &[0]]), ok());
    assert_eq!(send(&mut s, 19_999, GET, &[b"k"]), ok_string(b"w"));
    assert_eq!(send(&mut s, 20_000, GET, &[b"k"]), err("Key not found"));
    assert_eq!(send(&mut s, 10_000, SET_STRING, &[b"j", b"v", &20_000u64.to_le_bytes()]), ok());
    assert_eq!(send(&mut s, 11_000, SET_STRING, &[b"j", b"w", &[1, 2]]), ok());
    assert_eq!(send(&mut s, 90_000, GET, &[b"j"]), ok_string(b"w"));
}

#[test]
fn expired_key_counts_as_missing() {
    let mut s = server();
    assert_eq!(send(&mut s, 1000, SET_STRING, &[b"k", b"v", &10u32.to_le_bytes()]), ok());
    assert_eq!(send(&mut s, 2000, LIST_PUSH, &[b"k", b"a"]), ok());
    assert_eq!(send(&mut s, 900_000, LIST_LENGTH, &[b"k"]), ok_int(1));
    assert_eq!(send(&mut s, 1000, SET_STRING, &[b"h", b"v", &10u32.to_le_bytes()]), ok());
    assert_eq!(send(&mut s, 2000, HLL_RESET, &[b"h"]), err("Key not found"));
    assert_eq!(send(&mut s, 1000, SET_STRING, &[b"p", b"v", &10u32.to_le_bytes()]), ok());
    assert_eq!(send(&mut s, 2000, LIST_POP, &[b"p"]), err("Key not found"));
}

#[test]
fn delete_removes_keys() {
    let mut s = server();
    for k in [&b"a"[..], b"b", b"c"] {
        assert_eq!(send(&mut s, 0, SET_STRING, &[k, b"v"]), ok());
    }
    assert_eq!(send(&mut s, 0, DELETE, &[b"a", b"missing", b"c"]), ok());
    assert_eq!(send(&mut s, 0, GET, &[b"a"]), err("Key not found"));
    assert_eq!(send(&mut s, 0, GET, &[b"c"]), err("Key not found"));
    assert_eq!(send(&mut s, 0, GET, &[b"b"]), ok_string(b"v"));
    assert_eq!(send(&mut s, 0, DELETE, &[b"a", b"missing", b"c"]), ok());
    assert_eq!(send(&mut s, 0, GET, &[b"b"]), ok_string(b"v"));
}

#[test]
fn delete_errors() {
    let mut s = server();
    assert_eq!(send(&mut s, 0, SET_STRING, &[b"a", b"v"]), ok());
    assert_eq!(send(&mut s, 0, DELETE, &[]), err("Invalid number of arguments for DELETE command"));
    assert_eq!(send(&mut s, 0, DELETE, &[b"a", &[0xFF]]), err("Invalid utf8 key"));
    assert_eq!(send(&mut s, 0, GET, &[b"a"]), ok_string(b"v"));
}

#[test]
fn list_push_then_range() {
    let mut s = server();
    assert_eq!(send(&mut s, 0, LIST_PUSH, &[b"l", b"a", b"b", b"c"]), ok());
    assert_eq!(
        send(&mut s, 0, LIST_RANGE, &[b"l", &0u32.to_le_bytes(), &2u32.to_le_bytes()]),
        vec![1, 4, 3, 1, 0, 0, 0, b'a', 3, 1, 0, 0, 0, b'b']
    );
    assert_eq!(
        send(&mut s, 0, LIST_RANGE, &[b"l", &1u32.to_le_bytes(), &99u32.to_le_bytes()]),
        list(&[b"b", b"c"])
    );
    assert_eq!(
        send(&mut s, 0, LIST_RANGE, &[b"l", &2u32.to_le_bytes(), &2u32.to_le_bytes()]),
        vec![1, 4]
    );
    assert_eq!(
        send(&mut s, 0, LIST_RANGE, &[b"l", &3u32.to_le_bytes(), &1u32.to_le_bytes()]),
        vec![1, 4]
    );
    assert_eq!(send(&mut s, 0, LIST_LENGTH, &[b"l"]), ok_int(3));
    assert_eq!(send(&mut s, 0, LIST_PUSH, &[b"l", b"d"]), ok());
    assert_eq!(
        send(&mut s, 0, LIST_RANGE, &[b"l", &0u32.to_le_bytes(), &u32::MAX.to_le_bytes()]),
        list(&[b"a", b"b", b"c", b"d"])
    );
}

#[test]
fn list_push_errors() {
    let mut s = server();
    let arity = err("Invalid number of arguments for LPUSH command");
    assert_eq!(send(&mut s, 0, LIST_PUSH, &[]), arity);
    assert_eq!(send(&mut s, 0, LIST_PUSH, &[b"l"]), arity);
    assert_eq!(send(&mut s, 0, LIST_PUSH, &[&[0xFF], b"a"]), err("Invalid utf8 key"));
    assert_eq!(send(&mut s, 0, SET_INT, &[b"n", &[0; 4]]), ok());
    assert_eq!(send(&mut s, 0, LIST_PUSH, &[b"n", b"a"]), err("Data at specified key is not a list"));
    assert_eq!(send(&mut s, 0, GET, &[b"n"]), ok_int(0));
}

#[test]
fn list_push_stops_at_a_value_that_is_not_text() {
    let mut s = server();
    assert_eq!(
        send(&mut s, 0, LIST_PUSH, &[b"l", b"a", &[0xFF], b"c"]),
        err("Invalid utf8 value at index 1")
    );
    assert_eq!(send(&mut s, 0, LIST_LENGTH, &[b"l"]), err("Key not found"));
    assert_eq!(send(&mut s, 0, LIST_PUSH, &[b"l", b"x"]), ok());
    assert_eq!(
        send(&mut s, 0, LIST_PUSH, &[b"l", b"a", b"b", &[0xFF], b"c"]),
        err("Invalid utf8 value at index 2")
    );
    assert_eq!(
        send(&mut s, 0, LIST_RANGE, &[b"l", &0u32.to_le_bytes(), &9u32.to_le_bytes()]),
        list(&[b"x", b"a", b"b"])
    );
    let values: Vec<Vec<u8>> = (0..12).map(|i| if i == 11 { vec![0xFF] } else { vec![b'v'] }).collect();
    let mut args: Vec<&[u8]> = vec![b"l"];
    args.extend(values.iter().map(|v| &v[..]));
    assert_eq!(send(&mut s, 0, LIST_PUSH, &args), err("Invalid utf8 value at index 11"));
}

#[test]
fn list_range_errors() {
    let mut s = server();
    let arity = err("Invalid number of arguments for LRANGE command");
    assert_eq!(send(&mut s, 0, LIST_RANGE, &[b"l"]), arity);
    assert_eq!(send(&mut s, 0, LIST_RANGE, &[b"l", &[0; 4]]), arity);
    assert_eq!(send(&mut s, 0, LIST_RANGE, &[b"l", &[0; 4], &[0; 4], &[0; 4]]), arity);
    assert_eq!(send(&mut s, 0, LIST_RANGE, &[&[0xFF], &[0; 4], &[0; 4]]), err("Invalid utf8 key"));
    assert_eq!(send(&mut s, 0, LIST_RANGE, &[b"l", &[0; 4], &[0; 4]]), err("Key not found"));
    assert_eq!(send(&mut s, 0, LIST_PUSH, &[b"l", b"a"]), ok());
    assert_eq!(send(&mut s, 0, LIST_RANGE, &[b"l", &[0; 3], &[0; 4]]), err("Invalid u32 value"));
    assert_eq!(send(&mut s, 0, LIST_RANGE, &[b"l", &[0; 4], &[0; 2]]), err("Invalid u32 value"));
    assert_eq!(send(&mut s, 0, SET_STRING, &[b"s", b"v"]), ok());
    assert_eq!(
        send(&mut s, 0, LIST_RANGE, &[b"s", &[0; 4], &[1, 0, 0, 0]]),
        err("Data at specified key is not a list")
    );
}

#[test]
fn list_extract_takes_the_range_out() {
    let mut s = server();
    assert_eq!(send(&mut s, 0, LIST_PUSH, &[b"l", b"a", b"b", b"c", b"d"]), ok());
    assert_eq!(
        send(&mut s, 0, LIST_EXTRACT, &[b"l", &1u32.to_le_bytes(), &3u32.to_le_bytes()]),
        list(&[b"b", b"c"])
    );
    assert_eq!(send(&mut s, 0, LIST_LENGTH, &[b"l"]), ok_int(2));
    assert_eq!(
        send(&mut s, 0, LIST_EXTRACT, &[b"l", &2u32.to_le_bytes(), &1u32.to_le_bytes()]),
        vec![1, 4]
    );
    assert_eq!(
        send(&mut s, 0, LIST_EXTRACT, &[b"l", &0u32.to_le_bytes(), &100u32.to_le_bytes()]),
        list(&[b"a", b"d"])
    );
    assert_eq!(send(&mut s, 0, LIST_LENGTH, &[b"l"]), ok_int(0));
}

#[test]
fn list_extract_errors() {
    let mut s = server();
    let arity = err("Invalid number of arguments for LEXTRACT command");
    assert_eq!(send(&mut s, 0, LIST_EXTRACT, &[b"l", &[0; 4]]), arity);
    assert_eq!(send(&mut s, 0, LIST_EXTRACT, &[&[0xFF], &[0; 4], &[0; 4]]), err("Invalid utf8 key"));
    assert_eq!(send(&mut s, 0, LIST_EXTRACT, &[b"l", &[0; 4], &[0; 4]]), err("Key not found"));
    assert_eq!(send(&mut s, 0, LIST_PUSH, &[b"l", b"a"]), ok());
    assert_eq!(send(&mut s, 0, LIST_EXTRACT, &[b"l", &[0; 4], &[9]]), err("Invalid u32 value"));
    assert_eq!(send(&mut s, 0, LIST_LENGTH, &[b"l"]), ok_int(1));
    assert_eq!(send(&mut s, 0, SET_INT, &[b"n", &[5, 0, 0, 0]]), ok());
    assert_eq!(
        send(&mut s, 0, LIST_EXTRACT, &[b"n", &[0; 4], &[1, 0, 0, 0]]),
        err("Data at specified key is not a list")
    );
    assert_eq!(send(&mut s, 0, GET, &[b"n"]), ok_int(5));
}

#[test]
fn list_pop_takes_from_the_end() {
    let mut s = server();
    assert_eq!(send(&mut s, 0, LIST_PUSH, &[b"l", b"a", b"b", b"c", b"d"]), ok());
    assert_eq!(send(&mut s, 0, LIST_POP, &[b"l"]), vec![1, 3, 1, 0, 0, 0, b'd']);
    assert_eq!(
        send(&mut s, 0, LIST_POP, &[b"l", &2u32.to_le_bytes()]),
        vec![1, 3, 1, 0, 0, 0, b'c', 3, 1, 0, 0, 0, b'b']
    );
    assert_eq!(send(&mut s, 0, LIST_LENGTH, &[b"l"]), ok_int(1));
    assert_eq!(
        send(&mut s, 0, LIST_POP, &[b"l", &9u32.to_le_bytes()]),
        vec![1, 3, 1, 0, 0, 0, b'a']
    );
    assert_eq!(send(&mut s, 0, LIST_POP, &[b"l"]), vec![1]);
    assert_eq!(send(&mut s, 0, LIST_POP, &[b"l", &0u32.to_le_bytes()]), vec![1]);
    assert_eq!(send(&mut s, 0, LIST_LENGTH, &[b"l"]), ok_int(0));
}

#[test]
fn list_pop_errors() {
    let mut s = server();
    assert_eq!(send(&mut s, 0, LIST_POP, &[]), err("Invalid number of arguments for LPOP command"));
    assert_eq!(send(&mut s, 0, LIST_POP, &[&[0xFF]]), err("Invalid utf8 key"));
    assert_eq!(send(&mut s, 0, LIST_POP, &[b"l"]), err("Key not found"));
    assert_eq!(send(&mut s, 0, LIST_POP, &[b"l", &[1]]), err("Key not found"));
    assert_eq!(send(&mut s, 0, LIST_PUSH, &[b"l", b"a"]), ok());
    assert_eq!(send(&mut s, 0, LIST_POP, &[b"l", &[1]]), err("Invalid u32 value"));
    assert_eq!(send(&mut s, 0, LIST_LENGTH, &[b"l"]), ok_int(1));
    assert_eq!(send(&mut s, 0, SET_INT, &[b"n", &[5, 0, 0, 0]]), ok());
    assert_eq!(send(&mut s, 0, LIST_POP, &[b"n"]), err("Data at specified key is not a list"));
}

#[test]
fn list_length_follows_pushes_and_pops() {
    let mut s = server();
    let mut expected: i32 = 0;
    for round in 0..20u32 {
        let values: Vec<Vec<u8>> = (0..(round % 4 + 1)).map(|i| vec![b'a' + i as u8]).collect();
        let mut args: Vec<&[u8]> = vec![b"l"];
        args.extend(values.iter().map(|v| &v[..]));
        assert_eq!(send(&mut s, 0, LIST_PUSH, &args), ok());
        expected += values.len() as i32;
        let asked = round % 3;
        let popped = send(&mut s, 0, LIST_POP, &[b"l", &asked.to_le_bytes()]);
        let returned = (popped.len() as i32 - 1) / 6;
        assert_eq!(returned, std::cmp::min(asked as i32, expected));
        expected -= returned;
        if round % 5 == 0 {
            let extracted =
                send(&mut s, 0, LIST_EXTRACT, &[b"l", &1u32.to_le_bytes(), &3u32.to_le_bytes()]);
            expected -= (extracted.len() as i32 - 2) / 6;
        }
        assert_eq!(send(&mut s, 0, LIST_LENGTH, &[b"l"]), ok_int(expected));
    }
}

#[test]
fn list_length_errors() {
    let mut s = server();
    let arity = err("Invalid number of arguments for LLEN command");
    assert_eq!(send(&mut s, 0, LIST_LENGTH, &[]), arity);
    assert_eq!(send(&mut s, 0, LIST_LENGTH, &[b"a", b"b"]), arity);
    assert_eq!(send(&mut s, 0, LIST_LENGTH, &[&[0xFF]]), err("Invalid utf8 key"));
    assert_eq!(send(&mut s, 0, LIST_LENGTH, &[b"l"]), err("Key not found"));
    assert_eq!(send(&mut s, 0, SET_STRING, &[b"s", b"v"]), ok());
    assert_eq!(send(&mut s, 0, LIST_LENGTH, &[b"s"]), err("Data at specified key is not a list"));
}

#[test]
fn incr_float_is_done_in_two_steps() {
    let mut s = server();
    let mut first = vec![1, 2];
    first.extend(1.0f32.to_le_bytes());
    assert_eq!(send(&mut s, 0, INCR_FLOAT, &[b"f"]), first);
    let turn = handle_frame_at(
        &payload(INCR_FLOAT, &[b"f", &2.5f32.to_le_bytes()]),
        &mut s.counters,
        &mut s.store,
        0,
    );
    let (key, current, delta) = match turn {
        Turn::FloatSum { key, current, delta } => (key, current, delta),
        _ => panic!("no sum asked for"),
    };
    assert_eq!(key, "f");
    assert_eq!(f32::from_bits(current), 1.0);
    assert_eq!(f32::from_bits(delta), 2.5);
    assert_eq!(s.counters.processed_commands, 1);
    let sum = (f32::from_bits(current) + f32::from_bits(delta)).to_bits();
    let mut second = vec![1, 2];
    second.extend(3.5f32.to_le_bytes());
    assert_eq!(resume_sum_at(&key, sum, &mut s.counters, &mut s.store, 0), second);
    assert_eq!(s.counters.processed_commands, 2);
    assert_eq!(send(&mut s, 0, GET, &[b"f"]), second);
}

#[test]
fn incr_float_default_amount_is_one() {
    let mut s = server();
    assert_eq!(send(&mut s, 0, SET_FLOAT, &[b"f", &4.0f32.to_le_bytes()]), ok());
    match handle_frame_at(&payload(INCR_FLOAT, &[b"f"]), &mut s.counters, &mut s.store, 0) {
        Turn::FloatSum { key, current, delta } => {
            assert_eq!(key, "f");
            assert_eq!(f32::from_bits(current), 4.0);
            assert_eq!(f32::from_bits(delta), 1.0);
        }
        _ => panic!("no sum asked for"),
    }
}

#[test]
fn incr_float_errors() {
    let mut s = server();
    assert_eq!(send(&mut s, 0, INCR_FLOAT, &[]), err("Invalid number of arguments for INCRF command"));
    assert_eq!(send(&mut s, 0, INCR_FLOAT, &[&[0xFF]]), err("Invalid utf8 key"));
    assert_eq!(send(&mut s, 0, INCR_FLOAT, &[b"f", &[0; 3]]), err("Invalid f32 value"));
    assert_eq!(send(&mut s, 0, SET_INT, &[b"n", &[0; 4]]), ok());
    assert_eq!(send(&mut s, 0, INCR_FLOAT, &[b"n"]), err("Invalid type"));
    assert_eq!(resume_sum_at("n", 0, &mut s.counters, &mut s.store, 0), err("Invalid type"));
    assert_eq!(resume_sum_at("gone", 0, &mut s.counters, &mut s.store, 0), err("Key not found"));
    assert_eq!(send(&mut s, 0, GET, &[b"n"]), ok_int(0));
}

#[test]
fn incr_float_keeps_the_expiry() {
    let mut s = server();
    assert_eq!(send(&mut s, 1000, INCR_FLOAT, &[b"f"]), {
        let mut r = vec![1, 2];
        r.extend(1.0f32.to_le_bytes());
        r
    });
    let w = s.store.take("f", 1000).unwrap();
    s.store.put("f", echors::state::datastate::DataWrapper::new(w.into_data(), Some(5000)));
    let _ = resume_sum_at("f", 7.0f32.to_bits(), &mut s.counters, &mut s.store, 1000);
    let mut seven = vec![1, 2];
    seven.extend(7.0f32.to_le_bytes());
    assert_eq!(send(&mut s, 4999, GET, &[b"f"]), seven);
    assert_eq!(send(&mut s, 5000, GET, &[b"f"]), err("Key not found"));
}

#[test]
fn hll_count_is_done_in_two_steps() {
    let mut s = server();
    assert_eq!(send(&mut s, 0, HLL_ADD, &[b"h", b"a", b"b", b"a"]), ok());
    let before = s.counters.processed_commands;
    match handle_frame_at(&payload(HLL_COUNT, &[b"h"]), &mut s.counters, &mut s.store, 0) {
        Turn::Estimate { bits, registers } => {
            assert_eq!(bits, 14);
            assert_eq!(registers.len(), 16384);
            let touched = registers.iter().filter(|r| **r != 0).count();
            assert!(touched >= 1 && touched <= 2);
        }
        _ => panic!("no estimate asked for"),
    }
    assert_eq!(s.counters.processed_commands, before);
    assert_eq!(resume_estimate(2, &mut s.counters), vec![1, 1, 2, 0, 0, 0]);
    assert_eq!(s.counters.processed_commands, before + 1);
    assert_eq!(
        resume_estimate(1 << 40, &mut s.counters),
        vec![1, 6, 0, 0, 0, 0, 0, 1, 0, 0]
    );
}

#[test]
fn hll_commands_errors() {
    let mut s = server();
    let add_arity = err("Invalid number of arguments for HLLADD command");
    assert_eq!(send(&mut s, 0, HLL_ADD, &[]), add_arity);
    assert_eq!(send(&mut s, 0, HLL_ADD, &[b"h"]), add_arity);
    assert_eq!(send(&mut s, 0, HLL_ADD, &[&[0xFF], b"v"]), err("Invalid utf8 key"));
    assert_eq!(send(&mut s, 0, HLL_ADD, &[b"h", &[0xFF]]), err("Invalid utf8 value at index 0"));
    assert_eq!(send(&mut s, 0, HLL_COUNT, &[b"h"]), err("Key not found"));
    assert_eq!(send(&mut s, 0, HLL_COUNT, &[]), err("Invalid number of arguments for HLLCOUNT command"));
    assert_eq!(send(&mut s, 0, HLL_COUNT, &[&[0xFF]]), err("Invalid utf8 key"));
    assert_eq!(send(&mut s, 0, HLL_RESET, &[]), err("Invalid number of arguments for HLLRESET command"));
    assert_eq!(send(&mut s, 0, HLL_RESET, &[b"a", b"b"]), err("Invalid number of arguments for HLLRESET command"));
    assert_eq!(send(&mut s, 0, HLL_RESET, &[&[0xFF]]), err("Invalid utf8 key"));
    assert_eq!(send(&mut s, 0, HLL_RESET, &[b"h"]), err("Key not found"));
    assert_eq!(send(&mut s, 0, SET_STRING, &[b"s", b"v"]), ok());
    let wrong = err("Data at specified key is not a valid HLL");
    assert_eq!(send(&mut s, 0, HLL_ADD, &[b"s", b"v"]), wrong);
    assert_eq!(send(&mut s, 0, HLL_COUNT, &[b"s"]), wrong);
    assert_eq!(send(&mut s, 0, HLL_RESET, &[b"s"]), wrong);
    assert_eq!(send(&mut s, 0, GET, &[b"s"]), ok_string(b"v"));
}

#[test]
fn hll_add_stops_at_a_value_that_is_not_text() {
    let mut s = server();
    assert_eq!(send(&mut s, 0, HLL_ADD, &[b"h", b"a"]), ok());
    assert_eq!(
        send(&mut s, 0, HLL_ADD, &[b"h", b"b", &[0xFF], b"c"]),
        err("Invalid utf8 value at index 1")
    );
    match handle_frame_at(&payload(HLL_COUNT, &[b"h"]), &mut s.counters, &mut s.store, 0) {
        Turn::Estimate { registers, .. } => {
            assert_eq!(registers.iter().filter(|r| **r != 0).count(), 2);
        }
        _ => panic!("no estimate asked for"),
    }
}

#[test]
fn hll_reset_empties_the_sketch() {
    let mut s = server();
    assert_eq!(send(&mut s, 0, HLL_ADD, &[b"h", b"a", b"b", b"c"]), ok());
    assert_eq!(send(&mut s, 0, HLL_RESET, &[b"h"]), ok());
    match handle_frame_at(&payload(HLL_COUNT, &[b"h"]), &mut s.counters, &mut s.store, 0) {
        Turn::Estimate { bits, registers } => {
            assert_eq!(bits, 14);
            assert_eq!(registers, vec![0u8; 16384]);
        }
        _ => panic!("no estimate asked for"),
    }
}

#[test]
fn unknown_command_keeps_the_connection() {
    let mut s = server();
    let response = send(&mut s, 0, 0xFFFF, &[]);
    assert_eq!(response, err("Unknown command"));
    assert!(response[6..].starts_with(b"Unknown command"));
    assert_eq!(send(&mut s, 0, 18, &[b"x"]), err("Unknown command"));
    let info = send(&mut s, 0, INFO, &[]);
    assert_eq!(info[0], 1);
    assert_eq!(s.counters.processed_commands, 1);
}

#[test]
fn info_is_a_string_payload() {
    let mut s = server();
    s.counters.current_connections = 2;
    s.counters.total_connections = 5;
    assert_eq!(send(&mut s, 3000, TEST, &[]), ok());
    let text = "current connections: 2\ntotal connections: 5\nprocessed_commands: 1\nversion: test\nuptime: 3";
    assert_eq!(send(&mut s, 3000, INFO, &[]), ok_string(text.as_bytes()));
    assert_eq!(s.counters.processed_commands, 2);
}

#[test]
fn test_answers_ok() {
    let mut s = server();
    assert_eq!(send(&mut s, 0, TEST, &[]), ok());
    assert_eq!(send(&mut s, 0, TEST, &[b"ignored"]), ok());
}

#[test]
fn flush_empties_the_store_and_answers_ok() {
    let mut s = server();
    assert_eq!(send(&mut s, 0, SET_STRING, &[b"a", b"v"]), ok());
    assert_eq!(send(&mut s, 0, LIST_PUSH, &[b"l", b"v"]), ok());
    let before = s.counters.processed_commands;
    assert_eq!(send(&mut s, 0, FLUSH, &[]), ok());
    assert_eq!(s.counters.processed_commands, before);
    assert_eq!(send(&mut s, 0, GET, &[b"a"]), err("Key not found"));
    assert_eq!(send(&mut s, 0, LIST_LENGTH, &[b"l"]), err("Key not found"));
    assert_eq!(send(&mut s, 0, FLUSH, &[]), ok());
    assert_eq!(send(&mut s, 0, GET, &[b"a"]), err("Key not found"));
}

#[test]
fn malformed_payload_closes_the_connection() {
    let mut s = server();
    for bad in [&[][..], &[5], &[5, 0, 1, 0], &[5, 0, 3, 0, 0, 0, b'k']] {
        match handle_frame_at(bad, &mut s.counters, &mut s.store, 0) {
            Turn::Respond { response, close } => {
                assert!(close);
                assert_eq!(response, err("Could not process command"));
            }
            _ => panic!("no response"),
        }
    }
    assert_eq!(respond_malformed(), err("Could not process command"));
    assert_eq!(s.counters.processed_commands, 0);
}

#[test]
fn only_successes_are_counted() {
    let mut s = server();
    assert_eq!(send(&mut s, 0, GET, &[b"missing"]), err("Key not found"));
    assert_eq!(s.counters.processed_commands, 0);
    assert_eq!(send(&mut s, 0, SET_STRING, &[b"k", b"v"]), ok());
    assert_eq!(s.counters.processed_commands, 1);
    assert_eq!(send(&mut s, 0, GET, &[b"k"]), ok_string(b"v"));
    assert_eq!(s.counters.processed_commands, 2);
}

#[test]
fn responses_have_status_and_payload() {
    let mut c = ServerState::started_at("v", 0);
    assert_eq!(respond(Ok(Some(vec![9, 8, 7])), &mut c), vec![1, 9, 8, 7]);
    assert_eq!(respond(Ok(None), &mut c), ok());
    assert_eq!(c.processed_commands, 2);
    assert_eq!(respond(Err("nope".to_string()), &mut c), vec![2, 3, 4, 0, 0, 0, b'n', b'o', b'p', b'e']);
    assert_eq!(c.processed_commands, 2);
}
