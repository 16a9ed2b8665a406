use iota_ledger::path::DerivationPath;
use iota_ledger::sign_transaction::{self, SignatureBytes};
use iota_ledger::signer::{
    assemble_signature, intent_message_bytes, referenced_object_ids, signed_transaction, InputKind,
    Intent, ObjectId, SignatureScheme,
};
use iota_ledger::get_public_key::PublicKeyResult;
use iota_ledger::errors::LedgerError;

fn sample_path() -> DerivationPath {
    let h = 0x8000_0000u32;
    DerivationPath::new(vec![44 | h, 4218 | h, h, h, h]).unwrap()
}

fn packed_path_bytes() -> Vec<u8> {
    // count byte, then each index little-endian
    let h = 0x8000_0000u32;
    let mut expected = vec![5u8];
    for index in [44u32 | h, 4218 | h, h, h, h] {
        expected.extend_from_slice(&index.to_le_bytes());
    }
    expected
}

#[test]
fn path_packs_with_leading_count_byte() {
    let path = sample_path();
    let payloads =
        sign_transaction::sign_payloads(0, b"tx".to_vec(), &path, Vec::new()).unwrap();
    assert_eq!(payloads[1], packed_path_bytes());
}

#[test]
fn oversized_path_is_rejected() {
    assert!(DerivationPath::new(vec![0u32; 256]).is_none());
    assert!(DerivationPath::new(vec![0u32; 255]).is_some());
}

#[test]
fn transaction_payload_is_length_prefixed() {
    let path = sample_path();
    let tx = b"some transaction".to_vec();
    let payloads = sign_transaction::sign_payloads(1, tx.clone(), &path, Vec::new()).unwrap();
    let mut expected = (tx.len() as u32).to_le_bytes().to_vec();
    expected.extend_from_slice(&tx);
    assert_eq!(payloads[0], expected);
}

#[test]
fn version_gating_omits_objects_on_major_zero() {
    let path = sample_path();
    let objects = vec![b"object one".to_vec(), b"object two".to_vec()];
    let payloads =
        sign_transaction::sign_payloads(0, b"tx".to_vec(), &path, objects.clone()).unwrap();
    assert_eq!(payloads.len(), 2, "no object-blob payload on major version 0");
    for payload in &payloads {
        let needle = b"object one";
        assert!(
            !payload.windows(needle.len()).any(|w| w == needle),
            "object bytes must not appear anywhere in the payloads"
        );
    }
    // and the initial frame carries only the two roots
    let (_ex, frame) =
        sign_transaction::begin(0, b"tx".to_vec(), &path, objects).unwrap();
    assert_eq!(frame.data.len(), 1 + 2 * 32);
}

#[test]
fn objects_are_sent_on_newer_firmware() {
    let path = sample_path();
    let objects = vec![b"object one".to_vec()];
    let payloads =
        sign_transaction::sign_payloads(1, b"tx".to_vec(), &path, objects.clone()).unwrap();
    assert_eq!(payloads.len(), 3);
    let mut expected = 1u32.to_le_bytes().to_vec();
    expected.extend_from_slice(&(objects[0].len() as u32).to_le_bytes());
    expected.extend_from_slice(&objects[0]);
    assert_eq!(payloads[2], expected);
    let (_ex, frame) =
        sign_transaction::begin(1, b"tx".to_vec(), &path, objects).unwrap();
    assert_eq!(frame.data.len(), 1 + 3 * 32);
    assert_eq!(frame.ins, 0x03);
}

#[test]
fn empty_object_list_is_never_sent() {
    let path = sample_path();
    let payloads =
        sign_transaction::sign_payloads(5, b"tx".to_vec(), &path, Vec::new()).unwrap();
    assert_eq!(payloads.len(), 2);
}

#[test]
fn signature_finish_takes_bytes_whole() {
    let sig = sign_transaction::finish(vec![9u8; 64]);
    assert_eq!(sig.bytes, vec![9u8; 64]);
}

#[test]
fn intent_bytes_prefix_the_content() {
    let tx = Intent::iota_transaction();
    assert_eq!(
        intent_message_bytes(tx, &b"abc".to_vec()),
        vec![0u8, 0, 0, b'a', b'b', b'c']
    );
    let personal = Intent::personal_message();
    assert_eq!(intent_message_bytes(personal, &Vec::new()), vec![3u8, 0, 0]);
}

fn id(byte: u8) -> ObjectId {
    ObjectId { bytes: vec![byte; 32] }
}

#[test]
fn referenced_objects_deduplicate_union() {
    let gas = vec![id(1), id(2), id(1)];
    let inputs = vec![
        InputKind::ImmOrOwnedObject(id(2)),
        InputKind::Other,
        InputKind::ImmOrOwnedObject(id(3)),
    ];
    let ids = referenced_object_ids(&gas, &inputs);
    let mut bytes: Vec<Vec<u8>> = ids.iter().map(|o| o.bytes.clone()).collect();
    bytes.sort();
    assert_eq!(bytes, vec![vec![1u8; 32], vec![2u8; 32], vec![3u8; 32]]);
}

#[test]
fn other_inputs_are_never_fetched() {
    let gas: Vec<ObjectId> = Vec::new();
    let inputs = vec![InputKind::Other, InputKind::Other];
    assert!(referenced_object_ids(&gas, &inputs).is_empty());
}

#[test]
fn signature_assembly_layout() {
    let sig = vec![7u8; 64];
    let key = vec![8u8; 32];
    let assembled = assemble_signature(SignatureScheme::ED25519, &sig, &key).unwrap();
    assert_eq!(assembled.len(), 97);
    assert_eq!(assembled[0], 0, "scheme flag");
    assert_eq!(&assembled[1..65], &sig[..]);
    assert_eq!(&assembled[65..], &key[..]);
}

#[test]
fn signature_assembly_rejects_wrong_lengths() {
    assert_eq!(
        assemble_signature(SignatureScheme::ED25519, &vec![7u8; 63], &vec![8u8; 32]),
        Err(LedgerError::Serialization)
    );
    assert_eq!(
        assemble_signature(SignatureScheme::ED25519, &vec![7u8; 64], &vec![8u8; 31]),
        Err(LedgerError::Serialization)
    );
}

#[test]
fn signed_transaction_collects_all_parts() {
    let content = vec![0u8, 0, 0, 1, 2, 3];
    let signature = SignatureBytes { bytes: vec![7u8; 64] };
    let key = PublicKeyResult { public_key: vec![8u8; 32], address: vec![9u8; 32] };
    let signed = signed_transaction(SignatureScheme::ED25519, content.clone(), &signature, &key)
        .unwrap();
    assert_eq!(signed.signed_content, content);
    assert_eq!(signed.signature.len(), 97);
    assert_eq!(signed.address, vec![9u8; 32]);
}

#[test]
fn signed_transaction_rejects_short_signature() {
    let signature = SignatureBytes { bytes: vec![7u8; 10] };
    let key = PublicKeyResult { public_key: vec![8u8; 32], address: vec![9u8; 32] };
    assert!(matches!(
        signed_transaction(SignatureScheme::ED25519, Vec::new(), &signature, &key),
        Err(LedgerError::Serialization)
    ));
}
