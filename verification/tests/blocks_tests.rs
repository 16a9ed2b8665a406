use iota_ledger::blocks::{BlockStep, BlocksExchange};
use iota_ledger::errors::LedgerError;
use iota_ledger::store::ChunkStore;
use sha2::Digest;

const OK: u16 = 0x9000;
const ZERO: [u8; 32] = [0u8; 32];

fn continue_data(step: BlockStep) -> Vec<u8> {
    match step {
        BlockStep::Continue(frame) => frame.data,
        BlockStep::Done(_) => panic!("exchange finished too early"),
    }
}

/// Drive a scripted device that pulls the whole chain from the root digest.
fn replay_chain(ex: &mut BlocksExchange, root: &[u8]) -> Vec<u8> {
    let mut reconstructed = Vec::new();
    let mut digest = root.to_vec();
    let mut rounds: u32 = 0;
    while digest != ZERO {
        rounds += 1;
        assert!(rounds <= 1000, "chain does not terminate");
        let mut request = vec![2u8];
        request.extend_from_slice(&digest);
        let reply = continue_data(ex.handle_answer(OK, request).unwrap());
        assert_eq!(reply[0], 1, "chunk must be found");
        let linked = &reply[1..];
        // the stored link hashes to the digest it was requested under
        assert_eq!(sha2::Sha256::digest(linked).to_vec(), digest);
        digest = linked[..32].to_vec();
        reconstructed.extend_from_slice(&linked[32..]);
    }
    reconstructed
}

#[test]
fn chunking_round_trip_multi_chunk() {
    let payload: Vec<u8> = (0..400u32).map(|i| (i % 251) as u8).collect();
    let payloads = vec![payload.clone()];
    let (mut ex, frame) = BlocksExchange::begin(3, &payloads, None);
    assert_eq!(frame.data.len(), 1 + 32);
    assert_eq!(frame.data[0], 0, "start marker");
    let root = frame.data[1..33].to_vec();
    assert_ne!(root.to_vec(), ZERO.to_vec());
    let reconstructed = replay_chain(&mut ex, &root);
    assert_eq!(reconstructed, payload);
}

#[test]
fn chunking_round_trip_exact_boundary_and_one_over() {
    for len in [1usize, 179, 180, 181, 360, 361] {
        let payload: Vec<u8> = (0..len).map(|i| (i % 256) as u8).collect();
        let payloads = vec![payload.clone()];
        let (mut ex, frame) = BlocksExchange::begin(3, &payloads, None);
        let root = frame.data[1..33].to_vec();
        assert_eq!(replay_chain(&mut ex, &root), payload, "len {len}");
    }
}

#[test]
fn empty_payload_has_zero_root() {
    let payloads = vec![Vec::new()];
    let (_ex, frame) = BlocksExchange::begin(3, &payloads, None);
    assert_eq!(frame.data, {
        let mut d = vec![0u8];
        d.extend_from_slice(&ZERO);
        d
    });
}

#[test]
fn multiple_payloads_list_their_roots_in_order() {
    let a: Vec<u8> = vec![1; 10];
    let b: Vec<u8> = vec![2; 200];
    let payloads = vec![a.clone(), b.clone()];
    let (mut ex, frame) = BlocksExchange::begin(3, &payloads, None);
    assert_eq!(frame.data.len(), 1 + 64);
    let root_a = frame.data[1..33].to_vec();
    let root_b = frame.data[33..65].to_vec();
    assert_ne!(root_a, root_b);
    assert_eq!(replay_chain(&mut ex, &root_a), a);
    assert_eq!(replay_chain(&mut ex, &root_b), b);
}

#[test]
fn put_chunk_is_idempotent() {
    let payloads: Vec<Vec<u8>> = Vec::new();
    let (mut ex, _frame) = BlocksExchange::begin(3, &payloads, None);
    let content = b"some pushed bytes".to_vec();
    let mut put = vec![3u8];
    put.extend_from_slice(&content);
    let first = continue_data(ex.handle_answer(OK, put.clone()).unwrap());
    assert_eq!(first, vec![3u8], "put acknowledged");
    let second = continue_data(ex.handle_answer(OK, put).unwrap());
    assert_eq!(second, vec![3u8], "second put acknowledged identically");
    // the entry is stored under its own digest, once
    let digest = sha2::Sha256::digest(&content);
    let mut get = vec![2u8];
    get.extend_from_slice(&digest);
    let reply = continue_data(ex.handle_answer(OK, get).unwrap());
    let mut expected = vec![1u8];
    expected.extend_from_slice(&content);
    assert_eq!(reply, expected);
}

#[test]
fn chunk_miss_yields_failure_marker() {
    let payloads = vec![vec![7u8; 50]];
    let (mut ex, _frame) = BlocksExchange::begin(3, &payloads, None);
    let mut get = vec![2u8];
    get.extend_from_slice(&[0xAAu8; 32]);
    let reply = continue_data(ex.handle_answer(OK, get).unwrap());
    assert_eq!(reply, vec![2u8], "failure marker alone, no panic, no empty success");
}

#[test]
fn get_chunk_with_short_digest_is_protocol_failure() {
    let payloads: Vec<Vec<u8>> = Vec::new();
    let (mut ex, _frame) = BlocksExchange::begin(3, &payloads, None);
    let reply = ex.handle_answer(OK, vec![2u8, 1, 2, 3]);
    assert!(matches!(reply, Err(LedgerError::BlocksProtocolFailed)));
}

#[test]
fn results_accumulate_until_final() {
    let payloads: Vec<Vec<u8>> = Vec::new();
    let (mut ex, _frame) = BlocksExchange::begin(0, &payloads, None);
    let ack = continue_data(ex.handle_answer(OK, vec![0u8, b'a', b'b']).unwrap());
    assert_eq!(ack, vec![4u8], "accumulating acknowledged");
    match ex.handle_answer(OK, vec![1u8, b'c']).unwrap() {
        BlockStep::Done(result) => assert_eq!(result, b"abc".to_vec()),
        BlockStep::Continue(_) => panic!("final answer must finish the exchange"),
    }
}

#[test]
fn unrecognized_tag_is_protocol_failure() {
    let payloads: Vec<Vec<u8>> = Vec::new();
    let (mut ex, _frame) = BlocksExchange::begin(0, &payloads, None);
    assert!(matches!(
        ex.handle_answer(OK, vec![9u8, 0, 0]),
        Err(LedgerError::BlocksProtocolFailed)
    ));
}

#[test]
fn empty_answer_is_serialization_failure() {
    let payloads: Vec<Vec<u8>> = Vec::new();
    let (mut ex, _frame) = BlocksExchange::begin(0, &payloads, None);
    assert!(matches!(ex.handle_answer(OK, Vec::new()), Err(LedgerError::Serialization)));
}

#[test]
fn error_status_aborts_the_exchange() {
    let payloads: Vec<Vec<u8>> = Vec::new();
    let (mut ex, _frame) = BlocksExchange::begin(0, &payloads, None);
    assert!(matches!(
        ex.handle_answer(0x6985, vec![1u8]),
        Err(LedgerError::APDUError(0x6985))
    ));
    assert!(matches!(
        ex.handle_answer(0xe000, vec![1u8]),
        Err(LedgerError::DevicePanic)
    ));
}

#[test]
fn pre_seeded_store_serves_chunks() {
    let content = b"seeded chunk".to_vec();
    let digest = sha2::Sha256::digest(&content).to_vec();
    let mut store = ChunkStore::new();
    store.insert(digest.clone(), content.clone());
    let payloads: Vec<Vec<u8>> = Vec::new();
    let (mut ex, _frame) = BlocksExchange::begin(3, &payloads, Some(store));
    let mut get = vec![2u8];
    get.extend_from_slice(&digest);
    let reply = continue_data(ex.handle_answer(OK, get).unwrap());
    let mut expected = vec![1u8];
    expected.extend_from_slice(&content);
    assert_eq!(reply, expected);
}

#[test]
fn reply_frames_carry_the_instruction() {
    let payloads: Vec<Vec<u8>> = Vec::new();
    let (mut ex, frame) = BlocksExchange::begin(0x42, &payloads, None);
    assert_eq!(frame.ins, 0x42);
    assert_eq!(frame.cla, 0x00);
    match ex.handle_answer(OK, vec![0u8]).unwrap() {
        BlockStep::Continue(f) => {
            assert_eq!(f.ins, 0x42);
            assert_eq!((f.cla, f.p1, f.p2), (0x00, 0x00, 0x00));
        },
        BlockStep::Done(_) => panic!("not final"),
    }
}
