//! The signing flow's pure steps: choosing which on-chain objects to fetch,
//! wrapping the payload with its domain tag, and assembling and validating
//! the final signature layout. Fetching itself, and the curve math, belong
//! to collaborators.

use vstd::prelude::*;

use crate::blocks::subvec;
use crate::errors::LedgerError;
use crate::get_public_key::PublicKeyResult;
use crate::sign_transaction::SignatureBytes;
use crate::store::bytes_eq;

verus! {

/// The byte length of a raw signature.
pub const SIGNATURE_LEN: usize = 64;

/// The byte length of a raw public key.
pub const PUBLIC_KEY_LEN: usize = 32;

/// The signature schemes the device can produce.
#[derive(Clone, Copy, Debug, PartialEq, Eq, Structural)]
pub enum SignatureScheme {
    ED25519,
}

impl SignatureScheme {
    /// The scheme's one-byte flag in the canonical signature encoding.
    pub open spec fn spec_flag(self) -> u8 {
        match self {
            SignatureScheme::ED25519 => 0,
        }
    }

    pub fn flag(self) -> (b: u8)
        ensures
            b == self.spec_flag(),
    {
        match self {
            SignatureScheme::ED25519 => 0,
        }
    }
}

/// The domain tag an intent message starts with: its scope, the tag
/// format's version, and the application domain.
#[derive(Clone, Copy, Debug, PartialEq, Eq, Structural)]
pub struct Intent {
    pub scope: u8,
    pub version: u8,
    pub app_id: u8,
}

impl Intent {
    /// The tag of a transaction to execute.
    pub fn iota_transaction() -> (r: Intent)
        ensures
            r == (Intent { scope: 0u8, version: 0u8, app_id: 0u8 }),
    {
        Intent { scope: 0, version: 0, app_id: 0 }
    }

    /// The tag of an arbitrary message signed on a caller's behalf.
    pub fn personal_message() -> (r: Intent)
        ensures
            r == (Intent { scope: 3u8, version: 0u8, app_id: 0u8 }),
    {
        Intent { scope: 3, version: 0, app_id: 0 }
    }
}

/// Wrap serialized content with its domain tag: the three tag bytes, then
/// the content.
pub fn intent_message_bytes(intent: Intent, content: &Vec<u8>) -> (r: Vec<u8>)
    ensures
        r@ == seq![intent.scope, intent.version, intent.app_id] + content@,
{
    let mut r: Vec<u8> = Vec::new();
    r.push(intent.scope);
    r.push(intent.version);
    r.push(intent.app_id);
    crate::codec::write_bytes(&mut r, content.as_slice());
    proof {
        assert(r@ =~= seq![intent.scope, intent.version, intent.app_id] + content@);
    }
    r
}

/// An on-chain object identifier, held as raw bytes.
pub struct ObjectId {
    pub bytes: Vec<u8>,
}

impl View for ObjectId {
    type V = Seq<u8>;

    open spec fn view(&self) -> Seq<u8> {
        self.bytes@
    }
}

impl ObjectId {
    /// A fresh value with the same bytes.
    pub fn duplicate(&self) -> (r: ObjectId)
        ensures
            r@ == self@,
    {
        ObjectId { bytes: subvec(&self.bytes, 0, self.bytes.len()) }
    }
}

/// What a transaction input is, as far as object fetching cares: an owned
/// or immutable object, or anything else (never fetched).
pub enum InputKind {
    ImmOrOwnedObject(ObjectId),
    Other,
}

impl InputKind {
    /// The identifier to fetch, if this input carries one.
    pub open spec fn spec_fetch_id(&self) -> Option<Seq<u8>> {
        match self {
            InputKind::ImmOrOwnedObject(id) => Some(id@),
            InputKind::Other => None,
        }
    }
}

/// Whether `ids` already holds `k`.
pub open spec fn spec_contains_id(ids: Seq<Seq<u8>>, k: Seq<u8>) -> bool {
    exists|i: int| 0 <= i < ids.len() && ids[i] == k
}

/// The byte views of a run of identifiers.
pub open spec fn id_views(ids: Seq<ObjectId>) -> Seq<Seq<u8>> {
    ids.map_values(|o: ObjectId| o@)
}

fn contains_id(ids: &Vec<ObjectId>, k: &ObjectId) -> (b: bool)
    ensures
        b == spec_contains_id(id_views(ids@), k@),
{
    let mut i: usize = 0;
    while i < ids.len()
        invariant
            i <= ids@.len(),
            forall|j: int| 0 <= j < i ==> id_views(ids@)[j] != k@,
        decreases ids@.len() - i,
    {
        if bytes_eq(&ids[i].bytes, &k.bytes) {
            proof {
                assert(id_views(ids@)[i as int] == k@);
            }
            return true;
        }
        proof {
            assert(id_views(ids@)[i as int] == ids@[i as int]@);
        }
        i = i + 1;
    }
    false
}

/// The minimal set of object identifiers a signing flow fetches: the
/// deduplicated union of the gas-payment objects and the owned or immutable
/// input objects. Other input kinds are never fetched. The order of the
/// result is not part of the contract.
pub fn referenced_object_ids(gas_payment: &Vec<ObjectId>, inputs: &Vec<InputKind>) -> (r: Vec<
    ObjectId,
>)
    ensures
        forall|k: Seq<u8>|
            #[trigger] spec_contains_id(id_views(r@), k) <==> (spec_contains_id(
                id_views(gas_payment@),
                k,
            ) || (exists|i: int|
                0 <= i < inputs@.len() && #[trigger] inputs@[i].spec_fetch_id() == Some(k))),
        forall|a: int, b: int| 0 <= a < b < r@.len() ==> id_views(r@)[a] != id_views(r@)[b],
{
    let mut r: Vec<ObjectId> = Vec::new();
    let mut i: usize = 0;
    while i < gas_payment.len()
        invariant
            i <= gas_payment@.len(),
            forall|k: Seq<u8>|
                #[trigger] spec_contains_id(id_views(r@), k) <==> (exists|j: int|
                    0 <= j < i && id_views(gas_payment@)[j] == k),
            forall|a: int, b: int| 0 <= a < b < r@.len() ==> id_views(r@)[a] != id_views(r@)[b],
        decreases gas_payment@.len() - i,
    {
        let ghost pre = id_views(r@);
        let ghost gi = id_views(gas_payment@)[i as int];
        proof {
            assert(gi == gas_payment@[i as int]@);
        }
        if !contains_id(&r, &gas_payment[i]) {
            r.push(gas_payment[i].duplicate());
            proof {
                assert(id_views(r@) =~= pre.push(gi));
            }
        }
        proof {
            let cur = id_views(r@);
            assert(spec_contains_id(cur, gi)) by {
                if spec_contains_id(pre, gi) {
                    let a = choose|a: int| 0 <= a < pre.len() && pre[a] == gi;
                    assert(cur[a] == gi);
                } else {
                    assert(cur[cur.len() - 1] == gi);
                }
            }
            assert forall|k: Seq<u8>| #[trigger] spec_contains_id(cur, k) implies (exists|j: int|
                0 <= j < i + 1 && id_views(gas_payment@)[j] == k) by {
                let a = choose|a: int| 0 <= a < cur.len() && cur[a] == k;
                if a < pre.len() {
                    assert(spec_contains_id(pre, k));
                } else {
                    assert(k == gi);
                    assert(id_views(gas_payment@)[i as int] == k);
                }
            }
            assert forall|k: Seq<u8>| (exists|j: int|
                0 <= j < i + 1 && id_views(gas_payment@)[j] == k) implies #[trigger] spec_contains_id(
                cur,
                k,
            ) by {
                let j = choose|j: int| 0 <= j < i + 1 && id_views(gas_payment@)[j] == k;
                if j < i {
                    assert(spec_contains_id(pre, k));
                    let a = choose|a: int| 0 <= a < pre.len() && pre[a] == k;
                    assert(cur[a] == k);
                } else {
                    assert(k == gi);
                }
            }
        }
        i = i + 1;
    }
    let ghost after_gas = id_views(r@);
    proof {
        assert forall|k: Seq<u8>| #[trigger] spec_contains_id(after_gas, k) implies
            spec_contains_id(id_views(gas_payment@), k) by {
            let j = choose|j: int| 0 <= j < gas_payment@.len() && id_views(gas_payment@)[j] == k;
        }
    }
    let mut i: usize = 0;
    while i < inputs.len()
        invariant
            i <= inputs@.len(),
            forall|k: Seq<u8>|
                #[trigger] spec_contains_id(id_views(r@), k) <==> (spec_contains_id(after_gas, k)
                    || (exists|j: int|
                    0 <= j < i && #[trigger] inputs@[j].spec_fetch_id() == Some(k))),
            forall|a: int, b: int| 0 <= a < b < r@.len() ==> id_views(r@)[a] != id_views(r@)[b],
            forall|k: Seq<u8>|
                #[trigger] spec_contains_id(after_gas, k) <==> spec_contains_id(
                    id_views(gas_payment@),
                    k,
                ),
        decreases inputs@.len() - i,
    {
        let ghost pre = id_views(r@);
        match &inputs[i] {
            InputKind::ImmOrOwnedObject(id) => {
                if !contains_id(&r, id) {
                    r.push(id.duplicate());
                    proof {
                        assert(id_views(r@) =~= pre.push(id@));
                    }
                }
                proof {
                    assert(inputs@[i as int].spec_fetch_id() == Some(id@));
                    let cur = id_views(r@);
                    assert(spec_contains_id(cur, id@)) by {
                        if spec_contains_id(pre, id@) {
                            let a = choose|a: int| 0 <= a < pre.len() && pre[a] == id@;
                            assert(cur[a] == id@);
                        } else {
                            assert(cur[cur.len() - 1] == id@);
                        }
                    }
                    assert forall|k: Seq<u8>| #[trigger] spec_contains_id(cur, k) implies (
                    spec_contains_id(after_gas, k) || (exists|j: int|
                        0 <= j < i + 1 && #[trigger] inputs@[j].spec_fetch_id() == Some(k))) by {
                        let a = choose|a: int| 0 <= a < cur.len() && cur[a] == k;
                        if a < pre.len() {
                            assert(spec_contains_id(pre, k));
                        } else {
                            assert(k == id@);
                            assert(inputs@[i as int].spec_fetch_id() == Some(k));
                        }
                    }
                    assert forall|k: Seq<u8>| (spec_contains_id(after_gas, k) || (exists|j: int|
                        0 <= j < i + 1 && #[trigger] inputs@[j].spec_fetch_id() == Some(
                            k,
                        ))) implies #[trigger] spec_contains_id(cur, k) by {
                        if spec_contains_id(pre, k) {
                            let a = choose|a: int| 0 <= a < pre.len() && pre[a] == k;
                            assert(cur[a] == k);
                        } else {
                            assert(k == id@);
                        }
                    }
                }
            },
            InputKind::Other => {
                proof {
                    assert(inputs@[i as int].spec_fetch_id() is None);
                    let cur = id_views(r@);
                    assert forall|k: Seq<u8>| #[trigger] spec_contains_id(cur, k) <==> (
                    spec_contains_id(after_gas, k) || (exists|j: int|
                        0 <= j < i + 1 && #[trigger] inputs@[j].spec_fetch_id() == Some(k))) by {
                        if exists|j: int|
                            0 <= j < i + 1 && #[trigger] inputs@[j].spec_fetch_id() == Some(k) {
                            let j = choose|j: int|
                                0 <= j < i + 1 && #[trigger] inputs@[j].spec_fetch_id() == Some(k);
                            assert(j < i);
                        }
                    }
                }
            },
        }
        i = i + 1;
    }
    r
}

/// The final signing result: the tagged content that was signed, the
/// canonical signature encoding, and the derived address.
pub struct SignedTransaction {
    pub signed_content: Vec<u8>,
    pub signature: Vec<u8>,
    pub address: Vec<u8>,
}

/// Assemble and validate the canonical signature encoding
/// `[scheme flag] ‖ [raw signature] ‖ [raw public key]`: a signature or key
/// whose length does not match the scheme's expectation is a serialization
/// failure.
pub fn assemble_signature(scheme: SignatureScheme, signature: &Vec<u8>, public_key: &Vec<u8>) -> (r:
    Result<Vec<u8>, LedgerError>)
    ensures
        r is Ok <==> (signature@.len() == SIGNATURE_LEN && public_key@.len() == PUBLIC_KEY_LEN),
        r matches Ok(v) ==> v@ == seq![scheme.spec_flag()] + signature@ + public_key@,
        r is Err ==> r == Err::<Vec<u8>, LedgerError>(LedgerError::Serialization),
{
    if signature.len() != SIGNATURE_LEN || public_key.len() != PUBLIC_KEY_LEN {
        return Err(LedgerError::Serialization);
    }
    let mut v: Vec<u8> = Vec::new();
    v.push(scheme.flag());
    crate::codec::write_bytes(&mut v, signature.as_slice());
    crate::codec::write_bytes(&mut v, public_key.as_slice());
    proof {
        assert(v@ =~= seq![scheme.spec_flag()] + signature@ + public_key@);
    }
    Ok(v)
}

/// Put a whole signing flow's outcome together from the device's answers:
/// the tagged content, the validated signature encoding, and the derived
/// address.
pub fn signed_transaction(
    scheme: SignatureScheme,
    signed_content: Vec<u8>,
    signature: &SignatureBytes,
    key: &PublicKeyResult,
) -> (r: Result<SignedTransaction, LedgerError>)
    ensures
        r is Ok <==> (signature@.len() == SIGNATURE_LEN && key@.public_key.len()
            == PUBLIC_KEY_LEN),
        r matches Ok(t) ==> t.signed_content@ == signed_content@ && t.signature@ == seq![
            scheme.spec_flag(),
        ] + signature@ + key@.public_key && t.address@ == key@.address,
        r is Err ==> r == Err::<SignedTransaction, LedgerError>(LedgerError::Serialization),
{
    let sig = match assemble_signature(scheme, &signature.bytes, &key.public_key) {
        Ok(v) => v,
        Err(e) => {
            return Err(e);
        },
    };
    let address = subvec(&key.address, 0, key.address.len());
    proof {
        assert(address@ =~= key@.address);
    }
    Ok(SignedTransaction { signed_content, signature: sig, address })
}

} // verus!
