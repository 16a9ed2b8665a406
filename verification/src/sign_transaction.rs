//! The signing command: the transaction blob, the packed path, and — when
//! the firmware supports it — the referenced object blobs, all through the
//! blocks engine; the result is the raw signature bytes.

use vstd::prelude::*;
use vstd::bytes::*;

use crate::apdu;
use crate::apdu::{APDUInstructions, CommandFrame};
use crate::blocks::{chain_all, start_data, BlocksExchange};
use crate::codec;
use crate::codec::{pack_to_vec, write_bytes, ByteReader, Packable, Unpackable};
use crate::errors::LedgerError;
use crate::path::DerivationPath;

verus! {

/// The device's raw signature: the result buffer's bytes, whole.
pub struct SignatureBytes {
    pub bytes: Vec<u8>,
}

impl View for SignatureBytes {
    type V = Seq<u8>;

    open spec fn view(&self) -> Seq<u8> {
        self.bytes@
    }
}

impl Unpackable for SignatureBytes {
    open spec fn spec_unpack(data: Seq<u8>) -> Result<(Seq<u8>, int), codec::Error> {
        Ok((data, data.len() as int))
    }

    fn unpack(r: &mut ByteReader) -> (res: Result<SignatureBytes, codec::Error>)
    {
        let bytes = r.read_to_end();
        Ok(SignatureBytes { bytes })
    }
}

/// The encoding of a transaction blob: a 4-byte little-endian length, then
/// the bytes.
pub open spec fn spec_tx_packed(tx: Seq<u8>) -> Seq<u8> {
    spec_u32_to_le_bytes(tx.len() as u32) + tx
}

/// The opaque transaction bytes, length-prefixed for the wire.
pub struct TransactionData {
    pub transaction: Vec<u8>,
}

impl View for TransactionData {
    type V = Seq<u8>;

    open spec fn view(&self) -> Seq<u8> {
        self.transaction@
    }
}

impl Packable for TransactionData {
    /// The length must fit the 4-byte prefix (and the total the machine).
    open spec fn spec_pack_ok(&self) -> bool {
        self@.len() <= u32::MAX && self@.len() + 4 <= usize::MAX
    }

    open spec fn spec_packed(&self) -> Seq<u8> {
        spec_tx_packed(self@)
    }

    open spec fn spec_pack_err(&self) -> codec::Error {
        codec::Error::InvalidData
    }

    fn packed_len(&self) -> (n: usize)
    {
        proof {
            lemma_auto_spec_u32_to_from_le_bytes();
        }
        if self.transaction.len() as u64 > u32::MAX as u64 {
            0
        } else if self.transaction.len() > usize::MAX - 4 {
            0
        } else {
            4 + self.transaction.len()
        }
    }

    fn pack(&self, out: &mut Vec<u8>) -> (r: Result<(), codec::Error>)
    {
        if self.transaction.len() as u64 > u32::MAX as u64 {
            return Err(codec::Error::InvalidData);
        }
        if self.transaction.len() > usize::MAX - 4 {
            return Err(codec::Error::InvalidData);
        }
        let len_bytes = u32_to_le_bytes(self.transaction.len() as u32);
        write_bytes(out, len_bytes.as_slice());
        write_bytes(out, self.transaction.as_slice());
        proof {
            assert(out@ =~= old(out)@ + self.spec_packed());
        }
        Ok(())
    }
}

/// The encoding of a run of object blobs: each one's 4-byte little-endian
/// length, then its bytes, in order.
pub open spec fn spec_objects_bytes(objs: Seq<Seq<u8>>) -> Seq<u8>
    decreases objs.len(),
{
    if objs.len() == 0 {
        Seq::empty()
    } else {
        spec_objects_bytes(objs.drop_last()) + spec_u32_to_le_bytes(objs.last().len() as u32)
            + objs.last()
    }
}

/// The byte length `spec_objects_bytes` will have.
pub open spec fn spec_objects_bytes_len(objs: Seq<Seq<u8>>) -> int
    decreases objs.len(),
{
    if objs.len() == 0 {
        0
    } else {
        spec_objects_bytes_len(objs.drop_last()) + 4 + objs.last().len()
    }
}

proof fn lemma_objects_bytes_len(objs: Seq<Seq<u8>>)
    ensures
        spec_objects_bytes(objs).len() == spec_objects_bytes_len(objs),
        spec_objects_bytes_len(objs) >= 0,
    decreases objs.len(),
{
    lemma_auto_spec_u32_to_from_le_bytes();
    if objs.len() > 0 {
        lemma_objects_bytes_len(objs.drop_last());
    }
}

proof fn lemma_objects_bytes_len_mono(objs: Seq<Seq<u8>>, k: int)
    requires
        0 <= k <= objs.len(),
    ensures
        spec_objects_bytes_len(objs.take(k)) <= spec_objects_bytes_len(objs),
    decreases objs.len() - k,
{
    if k < objs.len() {
        lemma_objects_bytes_len_mono(objs, k + 1);
        let t = objs.take(k + 1);
        assert(t.drop_last() =~= objs.take(k));
        assert(spec_objects_bytes_len(objs.take(k)) <= spec_objects_bytes_len(objs.take(k + 1)));
    } else {
        assert(objs.take(k) =~= objs);
    }
}

/// The encoding of an object-blob list: a 4-byte little-endian count, then
/// each blob length-prefixed.
pub open spec fn spec_objects_packed(objs: Seq<Seq<u8>>) -> Seq<u8> {
    spec_u32_to_le_bytes(objs.len() as u32) + spec_objects_bytes(objs)
}

/// The referenced objects' opaque bytes, count-prefixed for the wire.
pub struct TransactionObjects {
    pub objects: Vec<Vec<u8>>,
}

impl View for TransactionObjects {
    type V = Seq<Seq<u8>>;

    open spec fn view(&self) -> Seq<Seq<u8>> {
        self.objects@.map_values(|o: Vec<u8>| o@)
    }
}

impl Packable for TransactionObjects {
    /// The count and each blob's length must fit their 4-byte prefixes (and
    /// the total the machine).
    open spec fn spec_pack_ok(&self) -> bool {
        &&& self@.len() <= u32::MAX
        &&& forall|i: int| 0 <= i < self@.len() ==> (#[trigger] self@[i]).len() <= u32::MAX
        &&& 4 + spec_objects_bytes_len(self@) <= usize::MAX
    }

    open spec fn spec_packed(&self) -> Seq<u8> {
        spec_objects_packed(self@)
    }

    open spec fn spec_pack_err(&self) -> codec::Error {
        codec::Error::InvalidData
    }

    fn packed_len(&self) -> (n: usize)
    {
        match self.checked_len() {
            Some(n) => n,
            None => 0,
        }
    }

    fn pack(&self, out: &mut Vec<u8>) -> (r: Result<(), codec::Error>)
    {
        let total = match self.checked_len() {
            Some(n) => n,
            None => {
                return Err(codec::Error::InvalidData);
            },
        };
        let count_bytes = u32_to_le_bytes(self.objects.len() as u32);
        write_bytes(out, count_bytes.as_slice());
        let ghost base = out@;
        let mut k: usize = 0;
        while k < self.objects.len()
            invariant
                k <= self.objects@.len(),
                self.spec_pack_ok(),
                out@ == base + spec_objects_bytes(self@.take(k as int)),
            decreases self.objects@.len() - k,
        {
            proof {
                assert(self@[k as int].len() <= u32::MAX);
                assert(self@[k as int] == self.objects@[k as int]@);
            }
            let len_bytes = u32_to_le_bytes(self.objects[k].len() as u32);
            write_bytes(out, len_bytes.as_slice());
            write_bytes(out, self.objects[k].as_slice());
            proof {
                let t = self@.take(k + 1);
                assert(t.drop_last() =~= self@.take(k as int));
                assert(t.last() == self@[k as int]);
                assert(out@ =~= base + spec_objects_bytes(t));
            }
            k = k + 1;
        }
        proof {
            assert(self@.take(self@.len() as int) =~= self@);
            assert(out@ =~= old(out)@ + self.spec_packed());
        }
        Ok(())
    }
}

impl TransactionObjects {
    /// The exact packed length, or nothing where a prefix or the total
    /// would not fit.
    fn checked_len(&self) -> (r: Option<usize>)
        ensures
            r is Some <==> self.spec_pack_ok(),
            r matches Some(n) ==> n == self.spec_packed().len(),
    {
        proof {
            lemma_auto_spec_u32_to_from_le_bytes();
            lemma_objects_bytes_len(self@);
        }
        if self.objects.len() as u64 > u32::MAX as u64 {
            proof {
                assert(self@.len() == self.objects@.len());
            }
            return None;
        }
        let mut total: usize = 4;
        let mut k: usize = 0;
        while k < self.objects.len()
            invariant
                k <= self.objects@.len(),
                total == 4 + spec_objects_bytes_len(self@.take(k as int)),
                forall|i: int| 0 <= i < k ==> (#[trigger] self@[i]).len() <= u32::MAX,
            decreases self.objects@.len() - k,
        {
            let olen = self.objects[k].len();
            proof {
                assert(self@[k as int] == self.objects@[k as int]@);
            }
            if olen as u64 > u32::MAX as u64 {
                proof {
                    assert(self@[k as int].len() > u32::MAX);
                }
                return None;
            }
            if total > usize::MAX - 4 {
                proof {
                    lemma_objects_bytes_len_mono(self@, k + 1);
                    let t = self@.take(k + 1);
                    assert(t.drop_last() =~= self@.take(k as int));
                    assert(spec_objects_bytes_len(t) >= 4 + spec_objects_bytes_len(
                        self@.take(k as int),
                    ));
                }
                return None;
            }
            let t2 = total + 4;
            if olen > usize::MAX - t2 {
                proof {
                    lemma_objects_bytes_len_mono(self@, k + 1);
                    let t = self@.take(k + 1);
                    assert(t.drop_last() =~= self@.take(k as int));
                }
                return None;
            }
            total = t2 + olen;
            proof {
                let t = self@.take(k + 1);
                assert(t.drop_last() =~= self@.take(k as int));
                assert(t.last() == self@[k as int]);
            }
            k = k + 1;
        }
        proof {
            assert(self@.take(self@.len() as int) =~= self@);
            lemma_objects_bytes_len(self@);
        }
        Some(total)
    }
}


/// Assemble the payload list for the signing command: the length-prefixed
/// transaction blob, the packed path, and — only when the reported major
/// version is nonzero and objects were supplied — the object-blob list.
/// When the device reports major version 0 no object-blob payload is ever
/// included, whatever the caller supplied: that firmware lacks support.
pub fn sign_payloads(
    major: u8,
    transaction: Vec<u8>,
    path: &DerivationPath,
    objects: Vec<Vec<u8>>,
) -> (r: Result<Vec<Vec<u8>>, LedgerError>)
    ensures
        ({
            let tx = transaction@;
            let objs = objects@.map_values(|o: Vec<u8>| o@);
            let with_objects = major > 0 && objs.len() > 0;
            let tx_ok = tx.len() <= u32::MAX && tx.len() + 4 <= usize::MAX;
            let objs_ok = objs.len() <= u32::MAX && (forall|i: int|
                0 <= i < objs.len() ==> (#[trigger] objs[i]).len() <= u32::MAX) && 4
                + spec_objects_bytes_len(objs) <= usize::MAX;
            &&& (r is Ok <==> (tx_ok && (with_objects ==> objs_ok)))
            &&& (r matches Ok(ps) ==> ps@.map_values(|p: Vec<u8>| p@) == (if with_objects {
                seq![spec_tx_packed(tx), path.spec_packed(), spec_objects_packed(objs)]
            } else {
                seq![spec_tx_packed(tx), path.spec_packed()]
            }))
            &&& (r is Err ==> r == Err::<Vec<Vec<u8>>, LedgerError>(LedgerError::Serialization))
        }),
{
    let with_objects = major > 0 && objects.len() > 0;
    let tx = TransactionData { transaction };
    let tx_packed = match pack_to_vec(&tx) {
        Ok(v) => v,
        Err(_) => {
            return Err(LedgerError::Serialization);
        },
    };
    let path_packed = match pack_to_vec(path) {
        Ok(v) => v,
        Err(_) => {
            return Err(LedgerError::Serialization);
        },
    };
    let mut ps: Vec<Vec<u8>> = Vec::new();
    ps.push(tx_packed);
    ps.push(path_packed);
    if with_objects {
        let to = TransactionObjects { objects };
        let objs_packed = match pack_to_vec(&to) {
            Ok(v) => v,
            Err(_) => {
                return Err(LedgerError::Serialization);
            },
        };
        ps.push(objs_packed);
        proof {
            assert(ps@.map_values(|p: Vec<u8>| p@) =~= seq![
                spec_tx_packed(tx@),
                path.spec_packed(),
                spec_objects_packed(to@),
            ]);
        }
        Ok(ps)
    } else {
        proof {
            assert(ps@.map_values(|p: Vec<u8>| p@) =~= seq![
                spec_tx_packed(tx@),
                path.spec_packed(),
            ]);
        }
        Ok(ps)
    }
}

/// Start the signing command over the assembled payload list.
pub fn begin(
    major: u8,
    transaction: Vec<u8>,
    path: &DerivationPath,
    objects: Vec<Vec<u8>>,
) -> (r: Result<(BlocksExchange, CommandFrame), LedgerError>)
    ensures
        ({
            let tx = transaction@;
            let objs = objects@.map_values(|o: Vec<u8>| o@);
            let with_objects = major > 0 && objs.len() > 0;
            let tx_ok = tx.len() <= u32::MAX && tx.len() + 4 <= usize::MAX;
            let objs_ok = objs.len() <= u32::MAX && (forall|i: int|
                0 <= i < objs.len() ==> (#[trigger] objs[i]).len() <= u32::MAX) && 4
                + spec_objects_bytes_len(objs) <= usize::MAX;
            let pviews = if with_objects {
                seq![spec_tx_packed(tx), path.spec_packed(), spec_objects_packed(objs)]
            } else {
                seq![spec_tx_packed(tx), path.spec_packed()]
            };
            &&& (r is Ok <==> (tx_ok && (with_objects ==> objs_ok)))
            &&& (r is Err ==> r == Err::<(BlocksExchange, CommandFrame), LedgerError>(
                LedgerError::Serialization,
            ))
            &&& (r matches Ok(p) ==> {
                &&& p.0.ins_byte() == APDUInstructions::SignTransaction.spec_byte()
                &&& p.0.store_view() == chain_all(
                    Map::<Seq<u8>, Seq<u8>>::empty(),
                    pviews,
                    pviews.len() as int,
                )
                &&& p.0.result_view() == Seq::<u8>::empty()
                &&& !p.0.is_done()
                &&& p.1.cla == apdu::APDU_CLA
                &&& p.1.ins == APDUInstructions::SignTransaction.spec_byte()
                &&& p.1.p1 == apdu::APDU_P1
                &&& p.1.p2 == apdu::APDU_P2
                &&& p.1.data@ == start_data(pviews, pviews.len() as int)
            })
        }),
{
    let ps = match sign_payloads(major, transaction, path, objects) {
        Ok(v) => v,
        Err(e) => {
            return Err(e);
        },
    };
    let r = BlocksExchange::begin(APDUInstructions::SignTransaction.as_byte(), &ps, None);
    Ok(r)
}

/// The concatenated result bytes of the signing command are the raw
/// signature, taken whole.
pub fn finish(result: Vec<u8>) -> (r: SignatureBytes)
    ensures
        r@ == result@,
{
    SignatureBytes { bytes: result }
}

} // verus!
