use iota_ledger::blocks::BlockStep;
use iota_ledger::bolos_app_exit;
use iota_ledger::bolos_app_get_name::{self, Response};
use iota_ledger::bolos_app_open;
use iota_ledger::codec::{ByteReader, Error, Unpackable};
use iota_ledger::errors::LedgerError;
use iota_ledger::get_public_key::{self, PublicKeyResult};
use iota_ledger::get_version::{self, Version};
use iota_ledger::path::DerivationPath;

const OK: u16 = 0x9000;

#[test]
fn get_version_scenario() {
    let (mut ex, frame) = get_version::begin();
    assert_eq!(frame.ins, 0x00);
    assert_eq!(frame.data.len(), 33);
    assert_eq!(frame.data[0], 0);
    assert!(frame.data[1..].iter().all(|b| *b == 0), "empty payload has the zero root");
    // the scripted device answers with final bytes [1, 2, 3]
    let result = match ex.handle_answer(OK, vec![1u8, 1, 2, 3]).unwrap() {
        BlockStep::Done(bytes) => bytes,
        BlockStep::Continue(_) => panic!("final answer expected"),
    };
    let version = get_version::finish(result).unwrap();
    assert_eq!(version, Version { major: 1, minor: 2, patch: 3 });
}

#[test]
fn get_version_ignores_trailing_app_name() {
    let mut bytes = vec![0u8, 7, 1];
    bytes.extend_from_slice(b"IOTA");
    let version = get_version::finish(bytes).unwrap();
    assert_eq!(version, Version { major: 0, minor: 7, patch: 1 });
}

#[test]
fn get_version_short_result_is_serialization_failure() {
    assert!(matches!(get_version::finish(vec![1, 2]), Err(LedgerError::Serialization)));
}

fn sample_path() -> DerivationPath {
    let h = 0x8000_0000u32;
    DerivationPath::new(vec![44 | h, 4218 | h, h, h, h]).unwrap()
}

#[test]
fn get_public_key_instruction_selects_display() {
    let path = sample_path();
    let (_ex, silent) = get_public_key::begin(&path, false);
    assert_eq!(silent.ins, 0x02);
    let (_ex, shown) = get_public_key::begin(&path, true);
    assert_eq!(shown.ins, 0x01);
    assert_eq!(silent.data, shown.data, "same path, same root");
}

#[test]
fn public_key_result_decodes_lengths_checked() {
    let mut data = vec![32u8];
    data.extend_from_slice(&[0x11; 32]);
    data.push(32u8);
    data.extend_from_slice(&[0x22; 32]);
    let result = get_public_key::finish(data).unwrap();
    assert_eq!(result.public_key, vec![0x11; 32]);
    assert_eq!(result.address, vec![0x22; 32]);
}

#[test]
fn public_key_result_rejects_wrong_announced_lengths() {
    let mut data = vec![31u8];
    data.extend_from_slice(&[0x11; 31]);
    let mut r = ByteReader::new(data);
    assert!(matches!(
        PublicKeyResult::unpack(&mut r),
        Err(Error::InvalidAnnouncedLen)
    ));

    let mut data = vec![32u8];
    data.extend_from_slice(&[0x11; 32]);
    data.push(16u8);
    data.extend_from_slice(&[0x22; 16]);
    let mut r = ByteReader::new(data);
    assert!(matches!(
        PublicKeyResult::unpack(&mut r),
        Err(Error::InvalidAnnouncedLen)
    ));
}

#[test]
fn public_key_result_short_body_is_serialization_failure() {
    let mut data = vec![32u8];
    data.extend_from_slice(&[0x11; 20]);
    assert!(matches!(get_public_key::finish(data), Err(LedgerError::Serialization)));
}

#[test]
fn app_name_response_decodes_documented_answer() {
    // format 0x01, "IOTA", "0.7.0", then a compatibility tail
    let mut data = vec![0x01u8, 4];
    data.extend_from_slice(b"IOTA");
    data.push(5);
    data.extend_from_slice(b"0.7.0");
    data.extend_from_slice(&[0x01, 0x02]);
    let mut r = ByteReader::new(data);
    let resp = Response::unpack(&mut r).unwrap();
    assert_eq!(resp.app, "IOTA");
    assert_eq!(resp.version, "0.7.0");
    assert!(bolos_app_get_name::is_signing_app(&resp));
}

#[test]
fn dashboard_name_is_not_the_signing_app() {
    let mut data = vec![0x01u8, 5];
    data.extend_from_slice(b"BOLOS");
    data.push(5);
    data.extend_from_slice(b"2.0.0");
    let mut r = ByteReader::new(data);
    let resp = Response::unpack(&mut r).unwrap();
    assert_eq!(resp.app, "BOLOS");
    assert!(!bolos_app_get_name::is_signing_app(&resp));
}

#[test]
fn app_name_query_frame() {
    let frame = bolos_app_get_name::frame();
    assert_eq!((frame.cla, frame.ins, frame.p1, frame.p2), (0xb0, 0x01, 0, 0));
    assert!(frame.data.is_empty());
}

#[test]
fn open_app_frame_strips_the_length_byte() {
    let frame = bolos_app_open::frame("IOTA".to_string()).unwrap();
    assert_eq!((frame.cla, frame.ins, frame.p1, frame.p2), (0xe0, 0xd8, 0, 0));
    assert_eq!(frame.data, b"IOTA".to_vec());
}

#[test]
fn open_app_rejects_overlong_name() {
    let name = "x".repeat(300);
    assert!(matches!(bolos_app_open::frame(name), Err(Error::StringTooLong)));
}

#[test]
fn exit_app_frame() {
    let frame = bolos_app_exit::frame();
    assert_eq!((frame.cla, frame.ins, frame.p1, frame.p2), (0xb0, 0xa7, 0, 0));
    assert!(frame.data.is_empty());
}
