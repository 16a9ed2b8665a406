//! Binary (de)serialization for the wire protocol.
//!
//! Values declare their packed length and serialize into a byte buffer;
//! values deserialize from a byte cursor, consuming exactly their own
//! encoding and leaving the cursor positioned immediately after.
//! Built-ins: little-endian fixed-width integers of all standard widths,
//! UTF-8 strings with a 1-byte length prefix, and the unit value.

use vstd::prelude::*;
use vstd::bytes::*;
use vstd::utf8::{encode_utf8, decode_utf8, valid_utf8};

verus! {

/// Everything that can go wrong while packing or unpacking.
#[derive(Clone, Copy, Debug, PartialEq, Eq, Structural)]
pub enum Error {
    /// A short read or write.
    Io,
    /// An unknown discriminant byte.
    InvalidVariant,
    /// Decoded content that is not acceptable for the target type.
    InvalidData,
    /// Bytes that are not valid UTF-8 where a string was announced.
    InvalidUtf8String,
    /// A length prefix that disagrees with the decoded content.
    InvalidAnnouncedLen,
    /// A string whose UTF-8 encoding does not fit the 1-byte length prefix.
    StringTooLong,
}

/// A cursor over an in-memory byte buffer, used as the source of `unpack`.
pub struct ByteReader {
    pub data: Vec<u8>,
    pub pos: usize,
}

impl ByteReader {
    /// The cursor never points past the end of the buffer.
    pub open spec fn wf(&self) -> bool {
        self.pos <= self.data@.len()
    }

    /// The bytes not yet consumed.
    pub open spec fn remaining(&self) -> Seq<u8> {
        self.data@.skip(self.pos as int)
    }

    pub fn new(data: Vec<u8>) -> (r: ByteReader)
        ensures
            r.wf(),
            r.data@ == data@,
            r.pos == 0,
            r.remaining() == data@,
    {
        let r = ByteReader { data, pos: 0 };
        proof {
            assert(r.remaining() =~= r.data@);
        }
        r
    }

    pub fn remaining_len(&self) -> (n: usize)
        requires
            self.wf(),
        ensures
            n == self.remaining().len(),
    {
        self.data.len() - self.pos
    }

    /// Consume and return the next byte; a read past the end is a short read.
    pub fn read_byte(&mut self) -> (r: Result<u8, Error>)
        requires
            old(self).wf(),
        ensures
            final(self).wf(),
            final(self).data@ == old(self).data@,
            old(self).remaining().len() >= 1 ==> r == Ok::<u8, Error>(old(self).remaining()[0])
                && final(self).pos == old(self).pos + 1,
            old(self).remaining().len() == 0 ==> r == Err::<u8, Error>(Error::Io)
                && final(self).pos == old(self).pos,
    {
        if self.pos < self.data.len() {
            let b = self.data[self.pos];
            self.pos = self.pos + 1;
            Ok(b)
        } else {
            Err(Error::Io)
        }
    }

    /// Consume and return the next `n` bytes, or fail without consuming
    /// anything when fewer than `n` remain.
    pub fn read_exact(&mut self, n: usize) -> (r: Result<Vec<u8>, Error>)
        requires
            old(self).wf(),
        ensures
            final(self).wf(),
            final(self).data@ == old(self).data@,
            old(self).remaining().len() >= n ==> (r matches Ok(v)
                && v@ == old(self).remaining().take(n as int)
                && final(self).pos == old(self).pos + n),
            old(self).remaining().len() < n ==> r == Err::<Vec<u8>, Error>(Error::Io)
                && final(self).pos == old(self).pos,
    {
        if n <= self.data.len() - self.pos {
            let end: usize = self.pos + n;
            let mut v: Vec<u8> = Vec::new();
            let mut i: usize = 0;
            while i < n
                invariant
                    self.wf(),
                    i <= n,
                    end == self.pos + n,
                    end <= self.data@.len(),
                    v@ =~= self.data@.subrange(self.pos as int, self.pos + i),
                decreases n - i,
            {
                v.push(self.data[self.pos + i]);
                i = i + 1;
            }
            proof {
                assert(v@ =~= self.remaining().take(n as int));
            }
            self.pos = self.pos + n;
            Ok(v)
        } else {
            Err(Error::Io)
        }
    }

    /// Consume and return everything that remains.
    pub fn read_to_end(&mut self) -> (r: Vec<u8>)
        requires
            old(self).wf(),
        ensures
            final(self).wf(),
            final(self).data@ == old(self).data@,
            r@ == old(self).remaining(),
            final(self).pos == final(self).data@.len(),
            final(self).remaining().len() == 0,
    {
        let n = self.data.len() - self.pos;
        let r = match self.read_exact(n) {
            Ok(v) => v,
            Err(_) => Vec::new(),
        };
        proof {
            assert(r@ =~= old(self).remaining());
        }
        r
    }
}

/// Append all of `src` to `out`.
pub fn write_bytes(out: &mut Vec<u8>, src: &[u8])
    ensures
        final(out)@ == old(out)@ + src@,
{
    let mut i: usize = 0;
    while i < src.len()
        invariant
            i <= src@.len(),
            out@ =~= old(out)@ + src@.take(i as int),
        decreases src@.len() - i,
    {
        out.push(src[i]);
        i = i + 1;
    }
    proof {
        assert(out@ =~= old(out)@ + src@);
    }
}

/// A value that can declare its packed length and serialize itself into a
/// byte buffer.
pub trait Packable {
    /// Whether this value has an encoding at all.
    spec fn spec_pack_ok(&self) -> bool;

    /// The encoding, meaningful when `spec_pack_ok` holds.
    spec fn spec_packed(&self) -> Seq<u8>;

    /// The error reported when the value has no encoding.
    spec fn spec_pack_err(&self) -> Error;

    /// The length of the encoding.
    fn packed_len(&self) -> (n: usize)
        ensures
            self.spec_pack_ok() ==> n == self.spec_packed().len(),
    ;

    /// Append the encoding of `self` to `out`; on failure `out` is unchanged.
    fn pack(&self, out: &mut Vec<u8>) -> (r: Result<(), Error>)
        ensures
            r is Ok <==> self.spec_pack_ok(),
            r is Ok ==> final(out)@ == old(out)@ + self.spec_packed(),
            r is Err ==> final(out)@ == old(out)@ && r == Err::<(), Error>(self.spec_pack_err()),
    ;
}

/// A value that can deserialize itself from a byte cursor.
pub trait Unpackable: View + Sized {
    /// What a correct decode of `data` yields: the decoded value's view and
    /// the number of bytes consumed, or the decode error.
    spec fn spec_unpack(data: Seq<u8>) -> Result<(Self::V, int), Error>;

    /// Decode one value, consuming exactly its own encoding.
    fn unpack(r: &mut ByteReader) -> (res: Result<Self, Error>)
        requires
            old(r).wf(),
        ensures
            final(r).wf(),
            final(r).data@ == old(r).data@,
            old(r).pos <= final(r).pos,
            match Self::spec_unpack(old(r).remaining()) {
                Ok(vu) => res matches Ok(v) && v@ == vu.0 && final(r).pos == old(r).pos + vu.1,
                Err(e) => res matches Err(e2) && e2 == e,
            },
    ;
}

/// Pack a value into a fresh byte buffer of exactly its encoding.
pub fn pack_to_vec<T: Packable>(value: &T) -> (r: Result<Vec<u8>, Error>)
    ensures
        r is Ok <==> value.spec_pack_ok(),
        r matches Ok(v) ==> v@ == value.spec_packed(),
        r is Err ==> r == Err::<Vec<u8>, Error>(value.spec_pack_err()),
{
    let mut out: Vec<u8> = Vec::new();
    match value.pack(&mut out) {
        Ok(()) => {
            proof {
                assert(out@ =~= value.spec_packed());
            }
            Ok(out)
        },
        Err(e) => Err(e),
    }
}


/// A value that can serialize itself into a fresh byte buffer, however it
/// is typed underneath; every `Packable` value can.
pub trait PackableObject {
    /// Whether this value has an encoding at all.
    spec fn spec_obj_pack_ok(&self) -> bool;

    /// The encoding, meaningful when `spec_obj_pack_ok` holds.
    spec fn spec_obj_packed(&self) -> Seq<u8>;

    /// The error reported when the value has no encoding.
    spec fn spec_obj_pack_err(&self) -> Error;

    /// Pack into a fresh byte buffer of exactly the encoding.
    fn pack_as_vec(&self) -> (r: Result<Vec<u8>, Error>)
        ensures
            r is Ok <==> self.spec_obj_pack_ok(),
            r matches Ok(v) ==> v@ == self.spec_obj_packed(),
            r is Err ==> r == Err::<Vec<u8>, Error>(self.spec_obj_pack_err()),
    ;
}

impl<T: Packable> PackableObject for T {
    open spec fn spec_obj_pack_ok(&self) -> bool {
        self.spec_pack_ok()
    }

    open spec fn spec_obj_packed(&self) -> Seq<u8> {
        self.spec_packed()
    }

    open spec fn spec_obj_pack_err(&self) -> Error {
        self.spec_pack_err()
    }

    fn pack_as_vec(&self) -> (r: Result<Vec<u8>, Error>)
    {
        pack_to_vec(self)
    }
}

impl Packable for () {
    open spec fn spec_pack_ok(&self) -> bool {
        true
    }

    open spec fn spec_packed(&self) -> Seq<u8> {
        Seq::empty()
    }

    open spec fn spec_pack_err(&self) -> Error {
        Error::Io
    }

    fn packed_len(&self) -> (n: usize)
    {
        0
    }

    fn pack(&self, out: &mut Vec<u8>) -> (r: Result<(), Error>)
    {
        proof {
            assert(out@ =~= old(out)@ + Seq::<u8>::empty());
        }
        Ok(())
    }
}

impl Unpackable for () {
    open spec fn spec_unpack(data: Seq<u8>) -> Result<((), int), Error> {
        Ok(((), 0))
    }

    fn unpack(r: &mut ByteReader) -> (res: Result<(), Error>)
    {
        Ok(())
    }
}

impl Packable for u8 {
    open spec fn spec_pack_ok(&self) -> bool {
        true
    }

    open spec fn spec_packed(&self) -> Seq<u8> {
        seq![*self]
    }

    open spec fn spec_pack_err(&self) -> Error {
        Error::Io
    }

    fn packed_len(&self) -> (n: usize)
    {
        1
    }

    fn pack(&self, out: &mut Vec<u8>) -> (r: Result<(), Error>)
    {
        out.push(*self);
        proof {
            assert(out@ =~= old(out)@ + seq![*self]);
        }
        Ok(())
    }
}

impl Unpackable for u8 {
    open spec fn spec_unpack(data: Seq<u8>) -> Result<(u8, int), Error> {
        if data.len() >= 1 {
            Ok((data[0], 1))
        } else {
            Err(Error::Io)
        }
    }

    fn unpack(r: &mut ByteReader) -> (res: Result<u8, Error>)
    {
        r.read_byte()
    }
}


impl Packable for u16 {
    open spec fn spec_pack_ok(&self) -> bool {
        true
    }

    open spec fn spec_packed(&self) -> Seq<u8> {
        spec_u16_to_le_bytes(*self)
    }

    open spec fn spec_pack_err(&self) -> Error {
        Error::Io
    }

    fn packed_len(&self) -> (n: usize)
    {
        proof {
            lemma_auto_spec_u16_to_from_le_bytes();
        }
        2
    }

    fn pack(&self, out: &mut Vec<u8>) -> (r: Result<(), Error>)
    {
        let bytes = u16_to_le_bytes(*self);
        write_bytes(out, bytes.as_slice());
        Ok(())
    }
}

impl Unpackable for u16 {
    open spec fn spec_unpack(data: Seq<u8>) -> Result<(u16, int), Error> {
        if data.len() >= 2 {
            Ok((spec_u16_from_le_bytes(data.take(2)), 2))
        } else {
            Err(Error::Io)
        }
    }

    fn unpack(r: &mut ByteReader) -> (res: Result<u16, Error>)
    {
        match r.read_exact(2) {
            Ok(v) => Ok(u16_from_le_bytes(v.as_slice())),
            Err(e) => Err(e),
        }
    }
}

impl Packable for u32 {
    open spec fn spec_pack_ok(&self) -> bool {
        true
    }

    open spec fn spec_packed(&self) -> Seq<u8> {
        spec_u32_to_le_bytes(*self)
    }

    open spec fn spec_pack_err(&self) -> Error {
        Error::Io
    }

    fn packed_len(&self) -> (n: usize)
    {
        proof {
            lemma_auto_spec_u32_to_from_le_bytes();
        }
        4
    }

    fn pack(&self, out: &mut Vec<u8>) -> (r: Result<(), Error>)
    {
        let bytes = u32_to_le_bytes(*self);
        write_bytes(out, bytes.as_slice());
        Ok(())
    }
}

impl Unpackable for u32 {
    open spec fn spec_unpack(data: Seq<u8>) -> Result<(u32, int), Error> {
        if data.len() >= 4 {
            Ok((spec_u32_from_le_bytes(data.take(4)), 4))
        } else {
            Err(Error::Io)
        }
    }

    fn unpack(r: &mut ByteReader) -> (res: Result<u32, Error>)
    {
        match r.read_exact(4) {
            Ok(v) => Ok(u32_from_le_bytes(v.as_slice())),
            Err(e) => Err(e),
        }
    }
}

impl Packable for u64 {
    open spec fn spec_pack_ok(&self) -> bool {
        true
    }

    open spec fn spec_packed(&self) -> Seq<u8> {
        spec_u64_to_le_bytes(*self)
    }

    open spec fn spec_pack_err(&self) -> Error {
        Error::Io
    }

    fn packed_len(&self) -> (n: usize)
    {
        proof {
            lemma_auto_spec_u64_to_from_le_bytes();
        }
        8
    }

    fn pack(&self, out: &mut Vec<u8>) -> (r: Result<(), Error>)
    {
        let bytes = u64_to_le_bytes(*self);
        write_bytes(out, bytes.as_slice());
        Ok(())
    }
}

impl Unpackable for u64 {
    open spec fn spec_unpack(data: Seq<u8>) -> Result<(u64, int), Error> {
        if data.len() >= 8 {
            Ok((spec_u64_from_le_bytes(data.take(8)), 8))
        } else {
            Err(Error::Io)
        }
    }

    fn unpack(r: &mut ByteReader) -> (res: Result<u64, Error>)
    {
        match r.read_exact(8) {
            Ok(v) => Ok(u64_from_le_bytes(v.as_slice())),
            Err(e) => Err(e),
        }
    }
}

impl Packable for u128 {
    open spec fn spec_pack_ok(&self) -> bool {
        true
    }

    open spec fn spec_packed(&self) -> Seq<u8> {
        spec_u128_to_le_bytes(*self)
    }

    open spec fn spec_pack_err(&self) -> Error {
        Error::Io
    }

    fn packed_len(&self) -> (n: usize)
    {
        proof {
            lemma_auto_spec_u128_to_from_le_bytes();
        }
        16
    }

    fn pack(&self, out: &mut Vec<u8>) -> (r: Result<(), Error>)
    {
        let bytes = u128_to_le_bytes(*self);
        write_bytes(out, bytes.as_slice());
        Ok(())
    }
}

impl Unpackable for u128 {
    open spec fn spec_unpack(data: Seq<u8>) -> Result<(u128, int), Error> {
        if data.len() >= 16 {
            Ok((spec_u128_from_le_bytes(data.take(16)), 16))
        } else {
            Err(Error::Io)
        }
    }

    fn unpack(r: &mut ByteReader) -> (res: Result<u128, Error>)
    {
        match r.read_exact(16) {
            Ok(v) => Ok(u128_from_le_bytes(v.as_slice())),
            Err(e) => Err(e),
        }
    }
}

impl Packable for i8 {
    open spec fn spec_pack_ok(&self) -> bool {
        true
    }

    open spec fn spec_packed(&self) -> Seq<u8> {
        seq![*self as u8]
    }

    open spec fn spec_pack_err(&self) -> Error {
        Error::Io
    }

    fn packed_len(&self) -> (n: usize)
    {
        1
    }

    fn pack(&self, out: &mut Vec<u8>) -> (r: Result<(), Error>)
    {
        out.push(*self as u8);
        proof {
            assert(final(out)@ =~= old(out)@ + seq![*self as u8]);
        }
        Ok(())
    }
}

impl Unpackable for i8 {
    open spec fn spec_unpack(data: Seq<u8>) -> Result<(i8, int), Error> {
        if data.len() >= 1 {
            Ok((data[0] as i8, 1))
        } else {
            Err(Error::Io)
        }
    }

    fn unpack(r: &mut ByteReader) -> (res: Result<i8, Error>)
    {
        match r.read_byte() {
            Ok(b) => Ok(b as i8),
            Err(e) => Err(e),
        }
    }
}

impl Packable for i16 {
    open spec fn spec_pack_ok(&self) -> bool {
        true
    }

    open spec fn spec_packed(&self) -> Seq<u8> {
        spec_u16_to_le_bytes(*self as u16)
    }

    open spec fn spec_pack_err(&self) -> Error {
        Error::Io
    }

    fn packed_len(&self) -> (n: usize)
    {
        proof {
            lemma_auto_spec_u16_to_from_le_bytes();
        }
        2
    }

    fn pack(&self, out: &mut Vec<u8>) -> (r: Result<(), Error>)
    {
        let bytes = u16_to_le_bytes(*self as u16);
        write_bytes(out, bytes.as_slice());
        Ok(())
    }
}

impl Unpackable for i16 {
    open spec fn spec_unpack(data: Seq<u8>) -> Result<(i16, int), Error> {
        if data.len() >= 2 {
            Ok((spec_u16_from_le_bytes(data.take(2)) as i16, 2))
        } else {
            Err(Error::Io)
        }
    }

    fn unpack(r: &mut ByteReader) -> (res: Result<i16, Error>)
    {
        match r.read_exact(2) {
            Ok(v) => Ok(u16_from_le_bytes(v.as_slice()) as i16),
            Err(e) => Err(e),
        }
    }
}

impl Packable for i32 {
    open spec fn spec_pack_ok(&self) -> bool {
        true
    }

    open spec fn spec_packed(&self) -> Seq<u8> {
        spec_u32_to_le_bytes(*self as u32)
    }

    open spec fn spec_pack_err(&self) -> Error {
        Error::Io
    }

    fn packed_len(&self) -> (n: usize)
    {
        proof {
            lemma_auto_spec_u32_to_from_le_bytes();
        }
        4
    }

    fn pack(&self, out: &mut Vec<u8>) -> (r: Result<(), Error>)
    {
        let bytes = u32_to_le_bytes(*self as u32);
        write_bytes(out, bytes.as_slice());
        Ok(())
    }
}

impl Unpackable for i32 {
    open spec fn spec_unpack(data: Seq<u8>) -> Result<(i32, int), Error> {
        if data.len() >= 4 {
            Ok((spec_u32_from_le_bytes(data.take(4)) as i32, 4))
        } else {
            Err(Error::Io)
        }
    }

    fn unpack(r: &mut ByteReader) -> (res: Result<i32, Error>)
    {
        match r.read_exact(4) {
            Ok(v) => Ok(u32_from_le_bytes(v.as_slice()) as i32),
            Err(e) => Err(e),
        }
    }
}

impl Packable for i64 {
    open spec fn spec_pack_ok(&self) -> bool {
        true
    }

    open spec fn spec_packed(&self) -> Seq<u8> {
        spec_u64_to_le_bytes(*self as u64)
    }

    open spec fn spec_pack_err(&self) -> Error {
        Error::Io
    }

    fn packed_len(&self) -> (n: usize)
    {
        proof {
            lemma_auto_spec_u64_to_from_le_bytes();
        }
        8
    }

    fn pack(&self, out: &mut Vec<u8>) -> (r: Result<(), Error>)
    {
        let bytes = u64_to_le_bytes(*self as u64);
        write_bytes(out, bytes.as_slice());
        Ok(())
    }
}

impl Unpackable for i64 {
    open spec fn spec_unpack(data: Seq<u8>) -> Result<(i64, int), Error> {
        if data.len() >= 8 {
            Ok((spec_u64_from_le_bytes(data.take(8)) as i64, 8))
        } else {
            Err(Error::Io)
        }
    }

    fn unpack(r: &mut ByteReader) -> (res: Result<i64, Error>)
    {
        match r.read_exact(8) {
            Ok(v) => Ok(u64_from_le_bytes(v.as_slice()) as i64),
            Err(e) => Err(e),
        }
    }
}

impl Packable for i128 {
    open spec fn spec_pack_ok(&self) -> bool {
        true
    }

    open spec fn spec_packed(&self) -> Seq<u8> {
        spec_u128_to_le_bytes(*self as u128)
    }

    open spec fn spec_pack_err(&self) -> Error {
        Error::Io
    }

    fn packed_len(&self) -> (n: usize)
    {
        proof {
            lemma_auto_spec_u128_to_from_le_bytes();
        }
        16
    }

    fn pack(&self, out: &mut Vec<u8>) -> (r: Result<(), Error>)
    {
        let bytes = u128_to_le_bytes(*self as u128);
        write_bytes(out, bytes.as_slice());
        Ok(())
    }
}

impl Unpackable for i128 {
    open spec fn spec_unpack(data: Seq<u8>) -> Result<(i128, int), Error> {
        if data.len() >= 16 {
            Ok((spec_u128_from_le_bytes(data.take(16)) as i128, 16))
        } else {
            Err(Error::Io)
        }
    }

    fn unpack(r: &mut ByteReader) -> (res: Result<i128, Error>)
    {
        match r.read_exact(16) {
            Ok(v) => Ok(u128_from_le_bytes(v.as_slice()) as i128),
            Err(e) => Err(e),
        }
    }
}


#[verifier::external_type_specification]
#[verifier::external_body]
pub struct ExUtf8Error(core::str::Utf8Error);

/// Relies on core::str::from_utf8: it succeeds exactly on valid UTF-8 input
/// and yields the string of characters those bytes encode.
pub assume_specification<'a>[ core::str::from_utf8 ](v: &'a [u8]) -> (r: Result<
    &'a str,
    core::str::Utf8Error,
>)
    ensures
        r is Ok <==> valid_utf8(v@),
        r matches Ok(s) ==> s@ == decode_utf8(v@),
;

impl Packable for String {
    /// A string packs only when its UTF-8 encoding fits the 1-byte length
    /// prefix.
    open spec fn spec_pack_ok(&self) -> bool {
        encode_utf8(self@).len() <= 255
    }

    open spec fn spec_packed(&self) -> Seq<u8> {
        seq![encode_utf8(self@).len() as u8] + encode_utf8(self@)
    }

    open spec fn spec_pack_err(&self) -> Error {
        Error::StringTooLong
    }

    fn packed_len(&self) -> (n: usize)
    {
        let b = self.as_str().as_bytes();
        if b.len() <= 255 {
            1 + b.len()
        } else {
            b.len()
        }
    }

    fn pack(&self, out: &mut Vec<u8>) -> (r: Result<(), Error>)
    {
        let b = self.as_str().as_bytes();
        if b.len() > 255 {
            return Err(Error::StringTooLong);
        }
        out.push(b.len() as u8);
        write_bytes(out, b);
        proof {
            assert(out@ =~= old(out)@ + self.spec_packed());
        }
        Ok(())
    }
}

impl Unpackable for String {
    open spec fn spec_unpack(data: Seq<u8>) -> Result<(Seq<char>, int), Error> {
        if data.len() < 1 {
            Err(Error::Io)
        } else if data.len() < 1 + data[0] {
            Err(Error::Io)
        } else if valid_utf8(data.subrange(1, 1 + data[0])) {
            Ok((decode_utf8(data.subrange(1, 1 + data[0])), 1 + data[0]))
        } else {
            Err(Error::InvalidUtf8String)
        }
    }

    fn unpack(r: &mut ByteReader) -> (res: Result<String, Error>)
    {
        let n = match r.read_byte() {
            Ok(b) => b,
            Err(e) => {
                return Err(e);
            },
        };
        let v = match r.read_exact(n as usize) {
            Ok(v) => v,
            Err(e) => {
                return Err(e);
            },
        };
        proof {
            assert(v@ =~= old(r).remaining().subrange(1, 1 + old(r).remaining()[0]));
        }
        match core::str::from_utf8(v.as_slice()) {
            Ok(s) => Ok(s.to_owned()),
            Err(_) => Err(Error::InvalidUtf8String),
        }
    }
}

/// Any valid UTF-8 string whose encoding is at most 255 bytes survives
/// pack -> unpack unchanged; a longer string fails to pack, with
/// `StringTooLong` (stated by `spec_pack_ok` and `spec_pack_err`).
pub proof fn lemma_string_round_trip(s: String)
    requires
        encode_utf8(s@).len() <= 255,
    ensures
        String::spec_unpack(s.spec_packed()) == Ok::<(Seq<char>, int), Error>((
            s@,
            s.spec_packed().len() as int,
        )),
{
    vstd::utf8::encode_utf8_valid_utf8(s@);
    vstd::utf8::encode_utf8_decode_utf8(s@);
    let data = s.spec_packed();
    let bytes = encode_utf8(s@);
    assert(data.subrange(1, 1 + data[0]) =~= bytes);
}

/// Every fixed-width integer survives pack -> unpack across its full range,
/// little-endian: one lemma per width and signedness.
pub proof fn lemma_u8_round_trip(x: u8)
    ensures
        u8::spec_unpack(x.spec_packed()) == Ok::<(u8, int), Error>((x, 1)),
{
}

/// See `lemma_u8_round_trip`.
pub proof fn lemma_i8_round_trip(x: i8)
    ensures
        i8::spec_unpack(x.spec_packed()) == Ok::<(i8, int), Error>((x, 1)),
{
    assert((x as u8) as i8 == x) by (bit_vector);
}

/// See `lemma_u8_round_trip`.
pub proof fn lemma_u16_round_trip(x: u16)
    ensures
        u16::spec_unpack(x.spec_packed()) == Ok::<(u16, int), Error>((x, 2)),
{
    lemma_auto_spec_u16_to_from_le_bytes();
    assert(spec_u16_to_le_bytes(x).take(2) =~= spec_u16_to_le_bytes(x));
}

/// See `lemma_u8_round_trip`.
pub proof fn lemma_u32_round_trip(x: u32)
    ensures
        u32::spec_unpack(x.spec_packed()) == Ok::<(u32, int), Error>((x, 4)),
{
    lemma_auto_spec_u32_to_from_le_bytes();
    assert(spec_u32_to_le_bytes(x).take(4) =~= spec_u32_to_le_bytes(x));
}

/// See `lemma_u8_round_trip`.
pub proof fn lemma_u64_round_trip(x: u64)
    ensures
        u64::spec_unpack(x.spec_packed()) == Ok::<(u64, int), Error>((x, 8)),
{
    lemma_auto_spec_u64_to_from_le_bytes();
    assert(spec_u64_to_le_bytes(x).take(8) =~= spec_u64_to_le_bytes(x));
}

/// See `lemma_u8_round_trip`.
pub proof fn lemma_u128_round_trip(x: u128)
    ensures
        u128::spec_unpack(x.spec_packed()) == Ok::<(u128, int), Error>((x, 16)),
{
    lemma_auto_spec_u128_to_from_le_bytes();
    assert(spec_u128_to_le_bytes(x).take(16) =~= spec_u128_to_le_bytes(x));
}

/// See `lemma_u8_round_trip`.
pub proof fn lemma_i16_round_trip(x: i16)
    ensures
        i16::spec_unpack(x.spec_packed()) == Ok::<(i16, int), Error>((x, 2)),
{
    lemma_auto_spec_u16_to_from_le_bytes();
    assert(spec_u16_to_le_bytes(x as u16).take(2) =~= spec_u16_to_le_bytes(x as u16));
    assert((x as u16) as i16 == x) by (bit_vector);
}

/// See `lemma_u8_round_trip`.
pub proof fn lemma_i32_round_trip(x: i32)
    ensures
        i32::spec_unpack(x.spec_packed()) == Ok::<(i32, int), Error>((x, 4)),
{
    lemma_auto_spec_u32_to_from_le_bytes();
    assert(spec_u32_to_le_bytes(x as u32).take(4) =~= spec_u32_to_le_bytes(x as u32));
    assert((x as u32) as i32 == x) by (bit_vector);
}

/// See `lemma_u8_round_trip`.
pub proof fn lemma_i64_round_trip(x: i64)
    ensures
        i64::spec_unpack(x.spec_packed()) == Ok::<(i64, int), Error>((x, 8)),
{
    lemma_auto_spec_u64_to_from_le_bytes();
    assert(spec_u64_to_le_bytes(x as u64).take(8) =~= spec_u64_to_le_bytes(x as u64));
    assert((x as u64) as i64 == x) by (bit_vector);
}

/// See `lemma_u8_round_trip`.
pub proof fn lemma_i128_round_trip(x: i128)
    ensures
        i128::spec_unpack(x.spec_packed()) == Ok::<(i128, int), Error>((x, 16)),
{
    lemma_auto_spec_u128_to_from_le_bytes();
    assert(spec_u128_to_le_bytes(x as u128).take(16) =~= spec_u128_to_le_bytes(x as u128));
    assert((x as u128) as i128 == x) by (bit_vector);
}

} // verus!
