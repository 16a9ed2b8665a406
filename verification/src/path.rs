//! BIP32-style derivation paths.

use vstd::prelude::*;
use vstd::bytes::*;

use crate::codec;
use crate::codec::{write_bytes, Packable};

verus! {

/// The encoding of a run of derivation indices: each one as four
/// little-endian bytes, in order.
pub open spec fn spec_indices_bytes(indices: Seq<u32>) -> Seq<u8>
    decreases indices.len(),
{
    if indices.len() == 0 {
        Seq::empty()
    } else {
        spec_indices_bytes(indices.drop_last()) + spec_u32_to_le_bytes(indices.last())
    }
}

/// Each index contributes four bytes.
pub proof fn lemma_indices_bytes_len(indices: Seq<u32>)
    ensures
        spec_indices_bytes(indices).len() == 4 * indices.len(),
    decreases indices.len(),
{
    lemma_auto_spec_u32_to_from_le_bytes();
    if indices.len() > 0 {
        lemma_indices_bytes_len(indices.drop_last());
    }
}

/// An ordered sequence of 32-bit derivation indices (a hardened index has
/// its high bit set), immutable and caller-supplied. The path encodes with
/// a single leading count byte, so its length must fit in one byte.
pub struct DerivationPath {
    indices: Vec<u32>,
}

impl View for DerivationPath {
    type V = Seq<u32>;

    closed spec fn view(&self) -> Seq<u32> {
        self.indices@
    }
}

#[verifier::type_invariant]
pub open spec fn path_len_fits(path: &DerivationPath) -> bool {
    path@.len() <= 255
}

impl DerivationPath {
    /// Build a path; a sequence of more than 255 indices cannot be encoded
    /// and is rejected.
    pub fn new(indices: Vec<u32>) -> (r: Option<DerivationPath>)
        ensures
            indices@.len() <= 255 ==> (r matches Some(p) && p@ == indices@),
            indices@.len() > 255 ==> r is None,
    {
        if indices.len() <= 255 {
            Some(DerivationPath { indices })
        } else {
            None
        }
    }

    pub fn len(&self) -> (n: usize)
        ensures
            n == self@.len(),
    {
        self.indices.len()
    }
}

impl Packable for DerivationPath {
    open spec fn spec_pack_ok(&self) -> bool {
        true
    }

    /// One count byte, then each index as four little-endian bytes.
    open spec fn spec_packed(&self) -> Seq<u8> {
        seq![self@.len() as u8] + spec_indices_bytes(self@)
    }

    open spec fn spec_pack_err(&self) -> codec::Error {
        codec::Error::Io
    }

    fn packed_len(&self) -> (n: usize)
    {
        proof {
            use_type_invariant(self);
            lemma_indices_bytes_len(self@);
        }
        1 + 4 * self.indices.len()
    }

    fn pack(&self, out: &mut Vec<u8>) -> (r: Result<(), codec::Error>)
    {
        proof {
            use_type_invariant(self);
        }
        out.push(self.indices.len() as u8);
        let ghost base = out@;
        let mut k: usize = 0;
        while k < self.indices.len()
            invariant
                k <= self.indices@.len(),
                out@ == base + spec_indices_bytes(self.indices@.take(k as int)),
            decreases self.indices@.len() - k,
        {
            let bytes = u32_to_le_bytes(self.indices[k]);
            write_bytes(out, bytes.as_slice());
            proof {
                let t = self.indices@.take(k + 1);
                assert(t.drop_last() =~= self.indices@.take(k as int));
                assert(t.last() == self.indices@[k as int]);
                assert(out@ =~= base + spec_indices_bytes(t));
            }
            k = k + 1;
        }
        proof {
            assert(self.indices@.take(self.indices@.len() as int) =~= self.indices@);
            assert(out@ =~= old(out)@ + self.spec_packed());
        }
        Ok(())
    }
}

} // verus!
