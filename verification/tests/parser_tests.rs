use echors::commands::commands::Command;
use echors::commands::commands::CommandType;
use echors::commands::parser::Parser;

fn payload(code: u16, args: &[&[u8]]) -> Vec<u8> {
    let mut p = code.to_le_bytes().to_vec();
    for a in args {
        p.extend((a.len() as u32).to_le_bytes());
        p.extend(a.iter());
    }
    p
}

fn parse(bytes: &[u8]) -> Command<'_> {
    match Parser::parse(bytes) {
        Ok(cmd) => cmd,
        Err(()) => panic!("malformed"),
    }
}

#[test]
fn command_numbers() {
    let expected = [
        "Info",
        "Test",
        "SetString",
        "SetInt",
        "SetFloat",
        "Get",
        "Delete",
        "IncrementInt",
        "IncrementFloat",
        "ListPush",
        "ListPop",
        "ListRange",
        "ListExtract",
        "ListLength",
        "HLLAdd",
        "HLLCount",
        "HLLReset",
        "Flush",
    ];
    for (code, name) in expected.iter().enumerate() {
        let t = CommandType::from((code as u16).to_le_bytes());
        assert_eq!(format!("{:?}", t), *name);
    }
    assert!(matches!(CommandType::from([18, 0]), CommandType::Unknown));
    assert!(matches!(CommandType::from([0, 1]), CommandType::Unknown));
    assert!(matches!(CommandType::from([0xFF, 0xFF]), CommandType::Unknown));
}

#[test]
fn request_without_arguments() {
    let p = payload(0, &[]);
    let cmd = parse(&p);
    assert!(matches!(cmd.command_type, CommandType::Info));
    assert!(cmd.arguments.is_empty());
}

#[test]
fn request_with_arguments() {
    let p = payload(2, &[b"k", b"hello", &[]]);
    assert_eq!(p.len(), 20);
    let cmd = parse(&p);
    assert!(matches!(cmd.command_type, CommandType::SetString));
    assert_eq!(cmd.arguments, vec![&b"k"[..], &b"hello"[..], &b""[..]]);
}

#[test]
fn arguments_need_not_be_text() {
    let p = payload(5, &[&[0xFF, 0x00, 0xFE]]);
    let cmd = parse(&p);
    assert_eq!(cmd.arguments, vec![&[0xFFu8, 0x00, 0xFE][..]]);
}

#[test]
fn short_payloads_are_malformed() {
    assert!(Parser::parse(&[]).is_err());
    assert!(Parser::parse(&[5]).is_err());
    assert!(Parser::parse(&[5, 0, 1]).is_err());
    assert!(Parser::parse(&[5, 0, 1, 0, 0]).is_err());
    assert!(Parser::parse(&[5, 0, 1, 0, 0, 0]).is_err());
    assert!(Parser::parse(&[5, 0, 2, 0, 0, 0, b'k']).is_err());
    assert!(Parser::parse(&[5, 0, 1, 0, 0, 0, b'k', 9]).is_err());
    assert!(Parser::parse(&[5, 0, 255, 255, 255, 255, b'k']).is_err());
    assert!(Parser::parse(&[5, 0, 1, 0, 0, 0, b'k']).is_ok());
    assert!(Parser::parse(&[5, 0, 0, 0, 0, 0]).is_ok());
}

#[test]
fn refused_values_are_named_by_index() {
    assert_eq!(
        echors::commands::commands::bad_value(0),
        Err("Invalid utf8 value at index 0".to_string())
    );
    assert_eq!(
        echors::commands::commands::too_long(3),
        Err("Value too long at index 3".to_string())
    );
    assert_eq!(
        echors::commands::commands::too_long(120),
        Err("Value too long at index 120".to_string())
    );
    assert_eq!(echors::data::hll::DIGEST_LIMIT, 0x7FFF_FFFF);
}
