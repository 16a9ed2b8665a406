//! The blocks protocol engine: chunked, content-addressed transfer of
//! oversized payloads atop the APDU layer.
//!
//! Frames carry only a few hundred usable bytes, so each logical payload is
//! split into fixed-size chunks that are hash-chained in reverse: a linked
//! chunk is `previous_digest(32) ‖ chunk`, where `previous_digest` is the
//! zero digest for the last slice and the prior link's digest otherwise. The
//! digest of a payload's first linked chunk is its root. The device then
//! pulls chunks and pushes intermediate results, tagged per round-trip.

use vstd::prelude::*;

use crate::apdu;
use crate::apdu::CommandFrame;
use crate::codec;
use crate::codec::{ByteReader, Unpackable, write_bytes};
use crate::errors::{spec_status_error, LedgerError};
use crate::store::ChunkStore;

verus! {

/// The usable data bytes per chunk.
pub const CHUNK_SIZE: usize = 180;

/// The number of bytes in a content digest.
pub const DIGEST_LEN: usize = 32;

/// The digest carried by the last slice of a payload: all zero bytes.
pub open spec fn zero_digest() -> Seq<u8> {
    Seq::new(DIGEST_LEN as nat, |i: int| 0u8)
}

/// The SHA-256 digest of a byte sequence.
pub uninterp spec fn sha256_of(data: Seq<u8>) -> Seq<u8>;

/// Relies on fastcrypto's `Sha256` (`HashFunction::digest`): a 32-byte
/// digest that depends on the input bytes alone.
#[verifier::external_body]
pub(crate) fn sha256(data: &Vec<u8>) -> (r: Vec<u8>)
    ensures
        r@ == sha256_of(data@),
        r@.len() == DIGEST_LEN,
{
    <fastcrypto::hash::Sha256 as fastcrypto::hash::HashFunction<32>>::digest(data.as_slice()).to_vec()
}

/// Copy the bytes of `v[start..end]` into a fresh vector.
pub fn subvec(v: &Vec<u8>, start: usize, end: usize) -> (r: Vec<u8>)
    requires
        start <= end <= v@.len(),
    ensures
        r@ == v@.subrange(start as int, end as int),
{
    let mut r: Vec<u8> = Vec::new();
    let mut i: usize = start;
    while i < end
        invariant
            start <= i <= end <= v@.len(),
            r@ =~= v@.subrange(start as int, i as int),
        decreases end - i,
    {
        r.push(v[i]);
        i = i + 1;
    }
    proof {
        assert(r@ =~= v@.subrange(start as int, end as int));
    }
    r
}

/// The tags a device answer can carry.
#[derive(Clone, Copy, Debug, PartialEq, Eq, Structural)]
pub enum LedgerToHost {
    ResultAccumulating,
    ResultFinal,
    GetChunk,
    PutChunk,
}

impl LedgerToHost {
    /// The tag named by a wire byte, if any.
    pub open spec fn spec_from_byte(b: u8) -> Result<LedgerToHost, codec::Error> {
        if b == 0 {
            Ok(LedgerToHost::ResultAccumulating)
        } else if b == 1 {
            Ok(LedgerToHost::ResultFinal)
        } else if b == 2 {
            Ok(LedgerToHost::GetChunk)
        } else if b == 3 {
            Ok(LedgerToHost::PutChunk)
        } else {
            Err(codec::Error::InvalidVariant)
        }
    }

    pub fn try_from_byte(b: u8) -> (r: Result<LedgerToHost, codec::Error>)
        ensures
            r == LedgerToHost::spec_from_byte(b),
    {
        if b == 0 {
            Ok(LedgerToHost::ResultAccumulating)
        } else if b == 1 {
            Ok(LedgerToHost::ResultFinal)
        } else if b == 2 {
            Ok(LedgerToHost::GetChunk)
        } else if b == 3 {
            Ok(LedgerToHost::PutChunk)
        } else {
            Err(codec::Error::InvalidVariant)
        }
    }
}

/// The markers a host reply starts with.
#[derive(Clone, Copy, Debug, PartialEq, Eq, Structural)]
pub enum HostToLedger {
    Start,
    GetChunkResponseSuccess,
    GetChunkResponseFailure,
    PutChunkResponse,
    ResultAccumulatingResponse,
}

impl HostToLedger {
    /// The marker's wire byte.
    pub open spec fn spec_byte(self) -> u8 {
        match self {
            HostToLedger::Start => 0,
            HostToLedger::GetChunkResponseSuccess => 1,
            HostToLedger::GetChunkResponseFailure => 2,
            HostToLedger::PutChunkResponse => 3,
            HostToLedger::ResultAccumulatingResponse => 4,
        }
    }

    pub fn as_byte(self) -> (b: u8)
        ensures
            b == self.spec_byte(),
    {
        match self {
            HostToLedger::Start => 0,
            HostToLedger::GetChunkResponseSuccess => 1,
            HostToLedger::GetChunkResponseFailure => 2,
            HostToLedger::PutChunkResponse => 3,
            HostToLedger::ResultAccumulatingResponse => 4,
        }
    }

    /// The marker as a 1-byte reply payload.
    pub fn as_vec(self) -> (r: Vec<u8>)
        ensures
            r@ == seq![self.spec_byte()],
    {
        let mut r: Vec<u8> = Vec::new();
        r.push(self.as_byte());
        proof {
            assert(r@ =~= seq![self.spec_byte()]);
        }
        r
    }
}

/// One tagged device answer of the blocks protocol, decoded once per
/// round-trip.
pub struct BlockResponse {
    pub instruction: LedgerToHost,
    pub payload: Vec<u8>,
}

impl View for BlockResponse {
    type V = (LedgerToHost, Seq<u8>);

    open spec fn view(&self) -> (LedgerToHost, Seq<u8>) {
        (self.instruction, self.payload@)
    }
}

impl Unpackable for BlockResponse {
    open spec fn spec_unpack(data: Seq<u8>) -> Result<((LedgerToHost, Seq<u8>), int), codec::Error> {
        if data.len() < 1 {
            Err(codec::Error::Io)
        } else {
            match LedgerToHost::spec_from_byte(data[0]) {
                Ok(tag) => Ok(((tag, data.skip(1)), data.len() as int)),
                Err(e) => Err(e),
            }
        }
    }

    fn unpack(r: &mut ByteReader) -> (res: Result<BlockResponse, codec::Error>)
    {
        let b = match r.read_byte() {
            Ok(b) => b,
            Err(e) => {
                return Err(e);
            },
        };
        let instruction = match LedgerToHost::try_from_byte(b) {
            Ok(tag) => tag,
            Err(e) => {
                return Err(e);
            },
        };
        let payload = r.read_to_end();
        proof {
            assert(payload@ =~= old(r).remaining().skip(1));
        }
        Ok(BlockResponse { instruction, payload })
    }
}

/// How many chunks a payload of `len` bytes splits into.
pub open spec fn spec_n_chunks(len: int) -> int {
    (len + CHUNK_SIZE - 1) / (CHUNK_SIZE as int)
}

/// The fixed-size slices of a payload, in order; the last one may be short.
pub open spec fn spec_chunks(data: Seq<u8>) -> Seq<Seq<u8>> {
    Seq::new(
        spec_n_chunks(data.len() as int) as nat,
        |i: int|
            data.subrange(
                CHUNK_SIZE * i,
                if CHUNK_SIZE * (i + 1) <= data.len() {
                    CHUNK_SIZE * (i + 1)
                } else {
                    data.len() as int
                },
            ),
    )
}

/// The digest carried forward after processing chunks `i..`, walking from
/// the last chunk to the first: the zero digest past the end, else the
/// digest of the link built over the next digest and this chunk. At `i == 0`
/// this is the payload's root digest.
pub open spec fn chain_digest(chunks: Seq<Seq<u8>>, i: int) -> Seq<u8>
    decreases chunks.len() - i,
{
    if i < 0 || i >= chunks.len() {
        zero_digest()
    } else {
        sha256_of(chain_digest(chunks, i + 1) + chunks[i])
    }
}

/// The linked chunk stored for index `i`: the next digest, then the slice.
pub open spec fn chain_linked(chunks: Seq<Seq<u8>>, i: int) -> Seq<u8> {
    chain_digest(chunks, i + 1) + chunks[i]
}

/// The store contents after adding the chain entries for chunks `i..`,
/// processed from the last chunk forward as the engine does.
pub open spec fn chain_store(
    m: Map<Seq<u8>, Seq<u8>>,
    chunks: Seq<Seq<u8>>,
    i: int,
) -> Map<Seq<u8>, Seq<u8>>
    decreases chunks.len() - i,
{
    if i < 0 || i >= chunks.len() {
        m
    } else {
        chain_store(m, chunks, i + 1).insert(chain_digest(chunks, i), chain_linked(chunks, i))
    }
}

/// Split a payload into its fixed-size chunks.
pub fn split_chunks(payload: &Vec<u8>) -> (chunks: Vec<Vec<u8>>)
    ensures
        chunks@.map_values(|c: Vec<u8>| c@) == spec_chunks(payload@),
{
    let mut chunks: Vec<Vec<u8>> = Vec::new();
    let mut start: usize = 0;
    while start < payload.len()
        invariant
            start <= payload@.len(),
            start == if CHUNK_SIZE * chunks@.len() <= payload@.len() {
                (CHUNK_SIZE * chunks@.len()) as int
            } else {
                payload@.len() as int
            },
            chunks@.len() <= spec_n_chunks(payload@.len() as int),
            chunks@.len() > 0 ==> CHUNK_SIZE * (chunks@.len() - 1) < payload@.len(),
            chunks@.map_values(|c: Vec<u8>| c@) =~= spec_chunks(payload@).take(
                chunks@.len() as int,
            ),
        decreases payload@.len() - start,
    {
        let ghost k = chunks@.len() as int;
        let ghost len = payload@.len() as int;
        proof {
            assert(start == CHUNK_SIZE * k);
            assert(k < spec_n_chunks(len)) by {
                assert(CHUNK_SIZE * k < len);
                assert(CHUNK_SIZE * k <= len - 1);
                assert(k <= (len - 1) / (CHUNK_SIZE as int)) by (nonlinear_arith)
                    requires
                        CHUNK_SIZE * k <= len - 1,
                        CHUNK_SIZE == 180,
                ;
                assert((len - 1) / (CHUNK_SIZE as int) < spec_n_chunks(len));
            }
        }
        let end = if payload.len() - start > CHUNK_SIZE {
            start + CHUNK_SIZE
        } else {
            payload.len()
        };
        let chunk = subvec(payload, start, end);
        chunks.push(chunk);
        proof {
            assert(chunks@.map_values(|c: Vec<u8>| c@) =~= spec_chunks(payload@).take(k + 1));
        }
        start = end;
    }
    proof {
        let k = chunks@.len() as int;
        let len = payload@.len() as int;
        if len == 0 {
            assert(k == spec_n_chunks(len));
        } else {
            assert(start >= len);
            if CHUNK_SIZE * k <= len {
                assert(CHUNK_SIZE * k == len);
            }
            assert(CHUNK_SIZE * k >= len);
            assert(CHUNK_SIZE * (k - 1) < len);
            assert(k == spec_n_chunks(len)) by (nonlinear_arith)
                requires
                    CHUNK_SIZE * k >= len,
                    CHUNK_SIZE * (k - 1) < len,
                    len > 0,
                    k >= 0,
                    CHUNK_SIZE == 180,
                    spec_n_chunks(len) == (len + CHUNK_SIZE - 1) / (CHUNK_SIZE as int),
            ;
        }
        assert(chunks@.map_values(|c: Vec<u8>| c@) =~= spec_chunks(payload@));
    }
    chunks
}

/// Chunk one payload, build its reverse hash chain into the store, and
/// return the payload's root digest.
pub fn add_payload(store: &mut ChunkStore, payload: &Vec<u8>) -> (root: Vec<u8>)
    ensures
        root@ == chain_digest(spec_chunks(payload@), 0),
        root@.len() == DIGEST_LEN,
        final(store)@ == chain_store(old(store)@, spec_chunks(payload@), 0),
{
    let ghost cs = spec_chunks(payload@);
    let chunks = split_chunks(payload);
    let mut last: Vec<u8> = Vec::new();
    let mut z: usize = 0;
    while z < DIGEST_LEN
        invariant
            z <= DIGEST_LEN,
            last@ =~= zero_digest().take(z as int),
        decreases DIGEST_LEN - z,
    {
        last.push(0u8);
        z = z + 1;
    }
    proof {
        assert(last@ =~= zero_digest());
    }
    let mut j: usize = chunks.len();
    while j > 0
        invariant
            j <= chunks@.len(),
            cs == chunks@.map_values(|c: Vec<u8>| c@),
            cs == spec_chunks(payload@),
            last@ == chain_digest(cs, j as int),
            last@.len() == DIGEST_LEN,
            store@ == chain_store(old(store)@, cs, j as int),
        decreases j,
    {
        j = j - 1;
        let mut linked: Vec<u8> = Vec::new();
        write_bytes(&mut linked, last.as_slice());
        write_bytes(&mut linked, chunks[j].as_slice());
        proof {
            assert(linked@ == chain_digest(cs, j + 1) + cs[j as int]);
        }
        last = sha256(&linked);
        let key = subvec(&last, 0, last.len());
        proof {
            assert(key@ =~= last@);
        }
        store.insert(key, linked);
    }
    last
}

/// The store contents after chunking and chaining the first `k` payloads,
/// in order, into `m`.
pub open spec fn chain_all(m: Map<Seq<u8>, Seq<u8>>, payloads: Seq<Seq<u8>>, k: int) -> Map<
    Seq<u8>,
    Seq<u8>,
>
    decreases k,
{
    if k <= 0 {
        m
    } else {
        chain_store(chain_all(m, payloads, k - 1), spec_chunks(payloads[k - 1]), 0)
    }
}

/// The initial frame data: the start marker, then the root digests of the
/// first `k` payloads, in order.
pub open spec fn start_data(payloads: Seq<Seq<u8>>, k: int) -> Seq<u8>
    decreases k,
{
    if k <= 0 {
        seq![HostToLedger::Start.spec_byte()]
    } else {
        start_data(payloads, k - 1) + chain_digest(spec_chunks(payloads[k - 1]), 0)
    }
}

/// The outcome of one protocol step, at the specification level: the data of
/// the next frame to send, or the final result bytes.
pub enum StepV {
    Reply(Seq<u8>),
    Finished(Seq<u8>),
}

/// What one protocol step does, given the store and result buffer before it,
/// the answer's status code, and the answer's body: the new store, the new
/// result buffer, and the reply, or the error that aborts the exchange.
pub open spec fn spec_step(
    store: Map<Seq<u8>, Seq<u8>>,
    result: Seq<u8>,
    status: u16,
    data: Seq<u8>,
) -> Result<(Map<Seq<u8>, Seq<u8>>, Seq<u8>, StepV), LedgerError> {
    match spec_status_error(status) {
        Some(e) => Err(e),
        None => if data.len() < 1 {
            Err(LedgerError::Serialization)
        } else {
            let payload = data.skip(1);
            match LedgerToHost::spec_from_byte(data[0]) {
                Err(_) => Err(LedgerError::BlocksProtocolFailed),
                Ok(LedgerToHost::ResultAccumulating) => Ok(
                    (
                        store,
                        result + payload,
                        StepV::Reply(seq![HostToLedger::ResultAccumulatingResponse.spec_byte()]),
                    ),
                ),
                Ok(LedgerToHost::ResultFinal) => Ok(
                    (store, result + payload, StepV::Finished(result + payload)),
                ),
                Ok(LedgerToHost::GetChunk) => if payload.len() >= DIGEST_LEN {
                    let digest = payload.take(DIGEST_LEN as int);
                    if store.contains_key(digest) {
                        Ok(
                            (
                                store,
                                result,
                                StepV::Reply(
                                    seq![HostToLedger::GetChunkResponseSuccess.spec_byte()]
                                        + store[digest],
                                ),
                            ),
                        )
                    } else {
                        Ok(
                            (
                                store,
                                result,
                                StepV::Reply(seq![HostToLedger::GetChunkResponseFailure.spec_byte()]),
                            ),
                        )
                    }
                } else {
                    Err(LedgerError::BlocksProtocolFailed)
                },
                Ok(LedgerToHost::PutChunk) => Ok(
                    (
                        store.insert(sha256_of(payload), payload),
                        result,
                        StepV::Reply(seq![HostToLedger::PutChunkResponse.spec_byte()]),
                    ),
                ),
            }
        },
    }
}

/// What the engine hands back after one step: the next frame to exchange, or
/// the concatenated result bytes once the device sent its final answer.
pub enum BlockStep {
    Continue(CommandFrame),
    Done(Vec<u8>),
}

/// One command invocation's engine state: the instruction every frame
/// carries, the per-invocation chunk store, and the accumulating result.
pub struct BlocksExchange {
    ins: u8,
    store: ChunkStore,
    result: Vec<u8>,
    done: bool,
}

impl BlocksExchange {
    /// The instruction byte every frame of this exchange carries.
    pub closed spec fn ins_byte(&self) -> u8 {
        self.ins
    }

    /// The chunk store's contents.
    pub closed spec fn store_view(&self) -> Map<Seq<u8>, Seq<u8>> {
        self.store@
    }

    /// The result buffer accumulated so far.
    pub closed spec fn result_view(&self) -> Seq<u8> {
        self.result@
    }

    /// Whether the device has sent its final answer.
    pub closed spec fn is_done(&self) -> bool {
        self.done
    }

    /// Chunk every payload into a fresh (or pre-seeded) store and build the
    /// initial frame: the start marker followed by the root digests of all
    /// payloads, in order.
    pub fn begin(ins: u8, payloads: &Vec<Vec<u8>>, seed: Option<ChunkStore>) -> (r: (
        BlocksExchange,
        CommandFrame,
    ))
        ensures
            ({
                let seed_map = match seed {
                    Some(s) => s@,
                    None => Map::<Seq<u8>, Seq<u8>>::empty(),
                };
                let pviews = payloads@.map_values(|p: Vec<u8>| p@);
                &&& r.0.ins_byte() == ins
                &&& r.0.store_view() == chain_all(seed_map, pviews, pviews.len() as int)
                &&& r.0.result_view() == Seq::<u8>::empty()
                &&& !r.0.is_done()
                &&& r.1.cla == apdu::APDU_CLA
                &&& r.1.ins == ins
                &&& r.1.p1 == apdu::APDU_P1
                &&& r.1.p2 == apdu::APDU_P2
                &&& r.1.data@ == start_data(pviews, pviews.len() as int)
            }),
    {
        let ghost seed_map = match &seed {
            Some(s) => s@,
            None => Map::<Seq<u8>, Seq<u8>>::empty(),
        };
        let ghost pviews = payloads@.map_values(|p: Vec<u8>| p@);
        let mut store = match seed {
            Some(s) => s,
            None => ChunkStore::new(),
        };
        let mut frame_data: Vec<u8> = Vec::new();
        frame_data.push(HostToLedger::Start.as_byte());
        proof {
            assert(frame_data@ =~= start_data(pviews, 0));
        }
        let mut k: usize = 0;
        while k < payloads.len()
            invariant
                k <= payloads@.len(),
                pviews == payloads@.map_values(|p: Vec<u8>| p@),
                store@ == chain_all(seed_map, pviews, k as int),
                frame_data@ == start_data(pviews, k as int),
            decreases payloads@.len() - k,
        {
            let root = add_payload(&mut store, &payloads[k]);
            write_bytes(&mut frame_data, root.as_slice());
            proof {
                assert(pviews[k as int] == payloads@[k as int]@);
            }
            k = k + 1;
        }
        let exchange = BlocksExchange { ins, store, result: Vec::new(), done: false };
        (exchange, CommandFrame::app_frame(ins, frame_data))
    }

    /// Decode one device answer and act on it: append a result slice, serve
    /// or store a chunk, or finish. An absent digest is answered with the
    /// failure marker alone; it is a documented outcome, not a failure of
    /// the exchange.
    pub fn handle_answer(&mut self, status: u16, data: Vec<u8>) -> (r: Result<
        BlockStep,
        LedgerError,
    >)
        requires
            !old(self).is_done(),
        ensures
            final(self).ins_byte() == old(self).ins_byte(),
            match spec_step(old(self).store_view(), old(self).result_view(), status, data@) {
                Err(e) => r == Err::<BlockStep, LedgerError>(e)
                    && final(self).store_view() == old(self).store_view()
                    && final(self).result_view() == old(self).result_view()
                    && !final(self).is_done(),
                Ok(t) => {
                    &&& final(self).store_view() == t.0
                    &&& final(self).result_view() == t.1
                    &&& match t.2 {
                        StepV::Reply(d) => !final(self).is_done() && (r matches Ok(
                            BlockStep::Continue(f),
                        ) && f.cla == apdu::APDU_CLA && f.ins == old(self).ins_byte() && f.p1
                            == apdu::APDU_P1 && f.p2 == apdu::APDU_P2 && f.data@ == d),
                        StepV::Finished(res) => final(self).is_done() && (r matches Ok(
                            BlockStep::Done(v),
                        ) && v@ == res),
                    }
                },
            },
    {
        if let Some(e) = LedgerError::get_error(status) {
            return Err(e);
        }
        let mut reader = ByteReader::new(data);
        let resp = match BlockResponse::unpack(&mut reader) {
            Ok(v) => v,
            Err(e) => {
                return match e {
                    codec::Error::InvalidVariant => Err(LedgerError::BlocksProtocolFailed),
                    _ => Err(LedgerError::Serialization),
                };
            },
        };
        match resp.instruction {
            LedgerToHost::ResultAccumulating => {
                write_bytes(&mut self.result, resp.payload.as_slice());
                let reply = HostToLedger::ResultAccumulatingResponse.as_vec();
                Ok(BlockStep::Continue(CommandFrame::app_frame(self.ins, reply)))
            },
            LedgerToHost::ResultFinal => {
                write_bytes(&mut self.result, resp.payload.as_slice());
                self.done = true;
                let out = subvec(&self.result, 0, self.result.len());
                Ok(BlockStep::Done(out))
            },
            LedgerToHost::GetChunk => {
                if resp.payload.len() < DIGEST_LEN {
                    return Err(LedgerError::BlocksProtocolFailed);
                }
                let digest = subvec(&resp.payload, 0, DIGEST_LEN);
                proof {
                    assert(digest@ =~= resp.payload@.take(DIGEST_LEN as int));
                }
                match self.store.get(&digest) {
                    Some(chunk) => {
                        let mut reply = HostToLedger::GetChunkResponseSuccess.as_vec();
                        write_bytes(&mut reply, chunk.as_slice());
                        Ok(BlockStep::Continue(CommandFrame::app_frame(self.ins, reply)))
                    },
                    None => {
                        let reply = HostToLedger::GetChunkResponseFailure.as_vec();
                        Ok(BlockStep::Continue(CommandFrame::app_frame(self.ins, reply)))
                    },
                }
            },
            LedgerToHost::PutChunk => {
                let digest = sha256(&resp.payload);
                self.store.insert(digest, resp.payload);
                let reply = HostToLedger::PutChunkResponse.as_vec();
                Ok(BlockStep::Continue(CommandFrame::app_frame(self.ins, reply)))
            },
        }
    }
}


/// The concatenation of chunks `i..`.
pub open spec fn concat_from(chunks: Seq<Seq<u8>>, i: int) -> Seq<u8>
    decreases chunks.len() - i,
{
    if i < 0 || i >= chunks.len() {
        Seq::empty()
    } else {
        chunks[i] + concat_from(chunks, i + 1)
    }
}

/// Concatenating a payload's chunks from index `i` on yields the payload's
/// tail from that chunk boundary.
proof fn lemma_concat_chunks(payload: Seq<u8>, i: int)
    requires
        0 <= i <= spec_n_chunks(payload.len() as int),
    ensures
        concat_from(spec_chunks(payload), i) == payload.skip(
            if CHUNK_SIZE * i <= payload.len() {
                (CHUNK_SIZE * i) as int
            } else {
                payload.len() as int
            },
        ),
    decreases spec_n_chunks(payload.len() as int) - i,
{
    let n = spec_n_chunks(payload.len() as int);
    let len = payload.len() as int;
    let chunks = spec_chunks(payload);
    assert(CHUNK_SIZE * n >= len && CHUNK_SIZE * n <= len + CHUNK_SIZE - 1) by (nonlinear_arith)
        requires
            n == (len + CHUNK_SIZE - 1) / (CHUNK_SIZE as int),
            CHUNK_SIZE == 180,
            len >= 0,
    ;
    if i == n {
        assert(payload.skip(len) =~= Seq::<u8>::empty());
        if CHUNK_SIZE * n <= len {
            assert(CHUNK_SIZE * n == len);
        }
    } else {
        assert(CHUNK_SIZE * i <= CHUNK_SIZE * (n - 1)) by (nonlinear_arith)
            requires
                i <= n - 1,
                CHUNK_SIZE == 180,
        ;
        assert(CHUNK_SIZE * (n - 1) == CHUNK_SIZE * n - CHUNK_SIZE);
        assert(CHUNK_SIZE * i < len);
        lemma_concat_chunks(payload, i + 1);
        let m = if CHUNK_SIZE * (i + 1) <= len {
            (CHUNK_SIZE * (i + 1)) as int
        } else {
            len
        };
        assert(chunks[i] == payload.subrange(CHUNK_SIZE * i, m));
        assert(concat_from(chunks, i + 1) == payload.skip(m));
        assert(payload.subrange(CHUNK_SIZE * i, m) + payload.skip(m) =~= payload.skip(
            CHUNK_SIZE * i,
        ));
    }
}

/// The hypotheses under which replaying the chain is exact: every link
/// digest of this chain is 32 bytes, none is the zero digest, and they are
/// pairwise distinct. Real SHA-256 digests are always 32 bytes; the other
/// two parts fail only on a digest collision (or a preimage of the zero
/// digest), which the content-addressed store trusts not to occur.
pub open spec fn chain_collision_free(chunks: Seq<Seq<u8>>) -> bool {
    &&& forall|i: int|
        0 <= i < chunks.len() ==> (#[trigger] chain_digest(chunks, i)).len() == DIGEST_LEN
    &&& forall|i: int| 0 <= i < chunks.len() ==> #[trigger] chain_digest(chunks, i) != zero_digest()
    &&& forall|a: int, b: int|
        #![trigger chain_digest(chunks, a), chain_digest(chunks, b)]
        0 <= a < b < chunks.len() ==> chain_digest(chunks, a) != chain_digest(chunks, b)
}

/// After chaining chunks `i..` into a store, every chain entry from `i` on
/// is present, keyed by its digest.
proof fn lemma_chain_store_entries(m: Map<Seq<u8>, Seq<u8>>, chunks: Seq<Seq<u8>>, i: int)
    requires
        0 <= i <= chunks.len(),
        forall|a: int, b: int|
            #![trigger chain_digest(chunks, a), chain_digest(chunks, b)]
            0 <= a < b < chunks.len() ==> chain_digest(chunks, a) != chain_digest(chunks, b),
    ensures
        forall|j: int|
            i <= j < chunks.len() ==> chain_store(m, chunks, i).contains_key(
                #[trigger] chain_digest(chunks, j),
            ) && chain_store(m, chunks, i)[chain_digest(chunks, j)] == chain_linked(chunks, j),
    decreases chunks.len() - i,
{
    if i < chunks.len() {
        lemma_chain_store_entries(m, chunks, i + 1);
        assert forall|j: int| i <= j < chunks.len() implies chain_store(m, chunks, i).contains_key(
            #[trigger] chain_digest(chunks, j),
        ) && chain_store(m, chunks, i)[chain_digest(chunks, j)] == chain_linked(chunks, j) by {
            if j != i {
                assert(chain_digest(chunks, i) != chain_digest(chunks, j));
            }
        }
    }
}

/// What a device that follows the chain reads back, replaying GetChunk from
/// a digest: nothing for the zero digest, else the stored link's payload
/// slice followed by the replay of the link's previous digest. `fuel`
/// bounds the number of lookups.
pub open spec fn spec_replay(store: Map<Seq<u8>, Seq<u8>>, digest: Seq<u8>, fuel: int) -> Option<
    Seq<u8>,
>
    decreases fuel,
{
    if digest == zero_digest() {
        Some(Seq::empty())
    } else if fuel <= 0 {
        None
    } else if !store.contains_key(digest) {
        None
    } else {
        let linked = store[digest];
        match spec_replay(store, linked.take(DIGEST_LEN as int), fuel - 1) {
            Some(rest) => Some(linked.skip(DIGEST_LEN as int) + rest),
            None => None,
        }
    }
}

/// Replaying from the chain digest of index `i` reconstructs the
/// concatenation of chunks `i..`.
proof fn lemma_replay_suffix(store: Map<Seq<u8>, Seq<u8>>, chunks: Seq<Seq<u8>>, i: int)
    requires
        chain_collision_free(chunks),
        0 <= i <= chunks.len(),
        forall|j: int|
            0 <= j < chunks.len() ==> store.contains_key(#[trigger] chain_digest(chunks, j))
                && store[chain_digest(chunks, j)] == chain_linked(chunks, j),
    ensures
        spec_replay(store, chain_digest(chunks, i), chunks.len() - i) == Some(
            concat_from(chunks, i),
        ),
    decreases chunks.len() - i,
{
    if i < chunks.len() {
        let d = chain_digest(chunks, i);
        assert(d != zero_digest());
        let linked = store[d];
        assert(linked == chain_linked(chunks, i));
        assert(chain_digest(chunks, i + 1).len() == DIGEST_LEN);
        assert(linked.take(DIGEST_LEN as int) =~= chain_digest(chunks, i + 1));
        assert(linked.skip(DIGEST_LEN as int) =~= chunks[i]);
        lemma_replay_suffix(store, chunks, i + 1);
    }
}

/// Chunking round-trip: for any byte payload, splitting it into fixed-size
/// chunks, hash-chaining them into a fresh store, and replaying GetChunk
/// from the root digest reconstructs the original bytes exactly — under the
/// collision-freedom hypotheses of `chain_collision_free`.
pub proof fn lemma_chunk_round_trip(payload: Seq<u8>)
    requires
        chain_collision_free(spec_chunks(payload)),
    ensures
        ({
            let chunks = spec_chunks(payload);
            let store = chain_store(Map::<Seq<u8>, Seq<u8>>::empty(), chunks, 0);
            spec_replay(store, chain_digest(chunks, 0), chunks.len() as int) == Some(payload)
        }),
{
    let chunks = spec_chunks(payload);
    let store = chain_store(Map::<Seq<u8>, Seq<u8>>::empty(), chunks, 0);
    lemma_chain_store_entries(Map::<Seq<u8>, Seq<u8>>::empty(), chunks, 0);
    lemma_replay_suffix(store, chunks, 0);
    lemma_concat_chunks(payload, 0);
    assert(payload.skip(0) =~= payload);
}

/// PutChunk idempotence: storing identical bytes twice yields the same
/// digest, the same reply, and the same store as storing them once, and
/// every other entry is unaffected.
pub proof fn lemma_put_chunk_idempotent(
    store: Map<Seq<u8>, Seq<u8>>,
    result: Seq<u8>,
    status: u16,
    data: Seq<u8>,
)
    requires
        spec_status_error(status) is None,
        data.len() >= 1,
        LedgerToHost::spec_from_byte(data[0]) == Ok::<LedgerToHost, codec::Error>(
            LedgerToHost::PutChunk,
        ),
    ensures
        ({
            let first = spec_step(store, result, status, data);
            &&& first matches Ok(t) && spec_step(t.0, t.1, status, data) == first
            &&& first matches Ok(t) ==> forall|k: Seq<u8>|
                store.contains_key(k) && k != sha256_of(data.skip(1)) ==> t.0.contains_key(k)
                    && t.0[k] == store[k]
        }),
{
    let d = sha256_of(data.skip(1));
    let p = data.skip(1);
    assert(store.insert(d, p).insert(d, p) =~= store.insert(d, p));
}

/// Chunk miss: requesting a digest absent from the store yields the failure
/// marker alone — a valid reply, never an error and never an empty success.
pub proof fn lemma_chunk_miss(
    store: Map<Seq<u8>, Seq<u8>>,
    result: Seq<u8>,
    status: u16,
    data: Seq<u8>,
)
    requires
        spec_status_error(status) is None,
        data.len() >= 1 + DIGEST_LEN,
        LedgerToHost::spec_from_byte(data[0]) == Ok::<LedgerToHost, codec::Error>(
            LedgerToHost::GetChunk,
        ),
        !store.contains_key(data.skip(1).take(DIGEST_LEN as int)),
    ensures
        spec_step(store, result, status, data) == Ok::<
            (Map<Seq<u8>, Seq<u8>>, Seq<u8>, StepV),
            LedgerError,
        >((store, result, StepV::Reply(seq![HostToLedger::GetChunkResponseFailure.spec_byte()]))),
{
}

} // verus!
