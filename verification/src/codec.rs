//! The typed layer of the store: how values become bytes and bytes become
//! values. Whole numbers are little-endian and of fixed width, a string is
//! its length in bytes as a 64-bit number followed by its UTF-8 bytes, and
//! a composite value is its parts one after the other.

use vstd::bytes::*;
use vstd::prelude::*;
use vstd::slice::*;
use vstd::utf8::*;

use crate::store::Kv;

verus! {

/// A failure of the storage layer.
#[derive(Clone, Copy, Debug, PartialEq, Eq, Structural)]
pub enum StoreError {
    /// The store could not take a write; it holds what it held before.
    Io,
    /// The stored bytes are not a value of the type asked for.
    Decode,
}

#[verifier::external_type_specification]
#[verifier::external_body]
pub struct ExBincodeErrorKind(bincode::ErrorKind);

/// The first 64-bit number of `b`, and what follows it.
pub open spec fn take_u64(b: Seq<u8>) -> Option<(u64, Seq<u8>)> {
    if b.len() >= 8 {
        Some((spec_u64_from_le_bytes(b.subrange(0, 8)), b.skip(8)))
    } else {
        None
    }
}

/// The first 32-bit number of `b`, and what follows it.
pub open spec fn take_u32(b: Seq<u8>) -> Option<(u32, Seq<u8>)> {
    if b.len() >= 4 {
        Some((spec_u32_from_le_bytes(b.subrange(0, 4)), b.skip(4)))
    } else {
        None
    }
}

/// The bytes of a string: its length in bytes, then its UTF-8 bytes.
pub open spec fn text_wire(s: Seq<char>) -> Seq<u8> {
    spec_u64_to_le_bytes(encode_utf8(s).len() as u64) + encode_utf8(s)
}

/// The first string of `b`, and what follows it.
pub open spec fn take_text(b: Seq<u8>) -> Option<(Seq<char>, Seq<u8>)> {
    match take_u64(b) {
        Some((n, rest)) => if n <= rest.len() && valid_utf8(rest.subrange(0, n as int)) {
            Some((decode_utf8(rest.subrange(0, n as int)), rest.skip(n as int)))
        } else {
            None
        },
        None => None,
    }
}

/// Whether a string's length in bytes fits the 64-bit length that precedes
/// it on the wire. Every string in memory does.
pub open spec fn text_fits(s: Seq<char>) -> bool {
    encode_utf8(s).len() <= u64::MAX
}

/// `bincode::serialize` on a `u64`: the eight bytes of the number, lowest
/// first. It writes into a vector under no size limit, which cannot fail.
#[verifier::external_body]
fn bincode_u64(v: u64) -> (r: Result<Vec<u8>, Box<bincode::ErrorKind>>)
    ensures
        match r {
            Ok(b) => b@ == spec_u64_to_le_bytes(v),
            Err(_) => false,
        },
{
    bincode::serialize(&v)
}

/// `bincode::serialize` on a `u32`: the four bytes of the number, lowest
/// first. It writes into a vector under no size limit, which cannot fail.
#[verifier::external_body]
fn bincode_u32(v: u32) -> (r: Result<Vec<u8>, Box<bincode::ErrorKind>>)
    ensures
        match r {
            Ok(b) => b@ == spec_u32_to_le_bytes(v),
            Err(_) => false,
        },
{
    bincode::serialize(&v)
}

/// `bincode::serialize` on a `str`: the string's length in bytes as a
/// `u64`, then its UTF-8 bytes. It writes into a vector under no size
/// limit, which cannot fail.
#[verifier::external_body]
fn bincode_str(s: &str) -> (r: Result<Vec<u8>, Box<bincode::ErrorKind>>)
    ensures
        match r {
            Ok(b) => b@ == text_wire(s@),
            Err(_) => false,
        },
{
    bincode::serialize(s)
}

/// `bincode::deserialize` to a `u64`: the number that the first eight bytes
/// hold, lowest first; an error exactly where there are fewer than eight.
/// Bytes that follow are left unread.
#[verifier::external_body]
fn bincode_read_u64(bytes: &[u8]) -> (r: Result<u64, Box<bincode::ErrorKind>>)
    ensures
        match r {
            Ok(v) => take_u64(bytes@) matches Some((w, _)) && w == v,
            Err(_) => take_u64(bytes@) is None,
        },
{
    bincode::deserialize::<u64>(bytes)
}

/// `bincode::deserialize` to a `u32`: the number that the first four bytes
/// hold, lowest first; an error exactly where there are fewer than four.
/// Bytes that follow are left unread.
#[verifier::external_body]
fn bincode_read_u32(bytes: &[u8]) -> (r: Result<u32, Box<bincode::ErrorKind>>)
    ensures
        match r {
            Ok(v) => take_u32(bytes@) matches Some((w, _)) && w == v,
            Err(_) => take_u32(bytes@) is None,
        },
{
    bincode::deserialize::<u32>(bytes)
}

/// `bincode::deserialize` to a `String`: reads a `u64` length, then that
/// many bytes, which must be UTF-8. An error exactly where the length
/// or the bytes are cut short or the bytes are not UTF-8. Bytes that follow
/// are left unread.
#[verifier::external_body]
fn bincode_read_string(bytes: &[u8]) -> (r: Result<String, Box<bincode::ErrorKind>>)
    ensures
        match r {
            Ok(s) => take_text(bytes@) matches Some((t, _)) && t == s@,
            Err(_) => take_text(bytes@) is None,
        },
{
    bincode::deserialize::<String>(bytes)
}

/// A number on the wire is eight bytes, and reads back as itself whatever
/// follows it.
pub proof fn lemma_take_u64(v: u64, rest: Seq<u8>)
    ensures
        spec_u64_to_le_bytes(v).len() == 8,
        take_u64(spec_u64_to_le_bytes(v) + rest) == Some((v, rest)),
{
    lemma_auto_spec_u64_to_from_le_bytes();
    let b = spec_u64_to_le_bytes(v) + rest;
    assert(b.subrange(0, 8) =~= spec_u64_to_le_bytes(v));
    assert(b.skip(8) =~= rest);
}

/// A 32-bit number on the wire is four bytes, and reads back as itself
/// whatever follows it.
pub proof fn lemma_take_u32(v: u32, rest: Seq<u8>)
    ensures
        spec_u32_to_le_bytes(v).len() == 4,
        take_u32(spec_u32_to_le_bytes(v) + rest) == Some((v, rest)),
{
    lemma_auto_spec_u32_to_from_le_bytes();
    let b = spec_u32_to_le_bytes(v) + rest;
    assert(b.subrange(0, 4) =~= spec_u32_to_le_bytes(v));
    assert(b.skip(4) =~= rest);
}

/// A string on the wire reads back as itself whatever follows it.
pub proof fn lemma_take_text(s: Seq<char>, rest: Seq<u8>)
    requires
        text_fits(s),
    ensures
        take_text(text_wire(s) + rest) == Some((s, rest)),
{
    let body = encode_utf8(s);
    let n = body.len() as u64;
    lemma_take_u64(n, body + rest);
    assert(text_wire(s) + rest =~= spec_u64_to_le_bytes(n) + (body + rest));
    assert((body + rest).subrange(0, n as int) =~= body);
    assert((body + rest).skip(n as int) =~= rest);
    encode_utf8_valid_utf8(s);
    encode_utf8_decode_utf8(s);
}

/// Reads a 64-bit number from the front of `b`.
pub fn read_u64(b: &[u8]) -> (r: Option<(u64, &[u8])>)
    ensures
        match r {
            Some((v, rest)) => take_u64(b@) == Some((v, rest@)),
            None => take_u64(b@) is None,
        },
{
    match bincode_read_u64(b) {
        Ok(v) => Some((v, slice_subrange(b, 8, b.len()))),
        Err(_) => None,
    }
}

/// Reads a 32-bit number from the front of `b`.
pub fn read_u32(b: &[u8]) -> (r: Option<(u32, &[u8])>)
    ensures
        match r {
            Some((v, rest)) => take_u32(b@) == Some((v, rest@)),
            None => take_u32(b@) is None,
        },
{
    match bincode_read_u32(b) {
        Ok(v) => Some((v, slice_subrange(b, 4, b.len()))),
        Err(_) => None,
    }
}

/// Reads a string from the front of `b`.
pub fn read_text(b: &[u8]) -> (r: Option<(String, &[u8])>)
    ensures
        match r {
            Some((s, rest)) => take_text(b@) == Some((s@, rest@)),
            None => take_text(b@) is None,
        },
{
    match bincode_read_string(b) {
        Ok(s) => {
            match bincode_read_u64(b) {
                Ok(n) => {
                    let total = b.len();
                    proof {
                        assert(take_u64(b@) == Some((n, b@.skip(8))));
                        assert(n <= b@.skip(8).len());
                        assert(b@.skip(8).len() == total - 8);
                        assert(b@.skip(8).skip(n as int) =~= b@.subrange(8 + n, b@.len() as int));
                    }
                    let from: usize = 8 + (n as usize);
                    Some((s, slice_subrange(b, from, total)))
                },
                Err(_) => None,
            }
        },
        Err(_) => None,
    }
}

/// Appends a 64-bit number to `out`.
pub fn write_u64(out: &mut Vec<u8>, v: u64)
    ensures
        final(out)@ == old(out)@ + spec_u64_to_le_bytes(v),
{
    match bincode_u64(v) {
        Ok(mut b) => {
            out.append(&mut b);
        },
        Err(_) => {},
    }
}

/// Appends a 32-bit number to `out`.
pub fn write_u32(out: &mut Vec<u8>, v: u32)
    ensures
        final(out)@ == old(out)@ + spec_u32_to_le_bytes(v),
{
    match bincode_u32(v) {
        Ok(mut b) => {
            out.append(&mut b);
        },
        Err(_) => {},
    }
}

/// Appends a string to `out`.
pub fn write_text(out: &mut Vec<u8>, s: &str)
    ensures
        text_fits(s@),
        final(out)@ == old(out)@ + text_wire(s@),
{
    // A string in memory is no longer than `usize` holds, so it fits.
    let _len: usize = s.as_bytes().len();
    match bincode_str(s) {
        Ok(mut b) => {
            out.append(&mut b);
        },
        Err(_) => {},
    }
}

/// A type whose values the store can hold.
pub trait Stored: Sized {
    /// The mathematical content of a value.
    type Model;

    /// The content of this value.
    spec fn model(&self) -> Self::Model;

    /// Whether a content can be written: its lengths fit their prefixes.
    /// The content of every value in memory can.
    spec fn fits(m: Self::Model) -> bool;

    /// The bytes that stand for a content.
    spec fn wire(m: Self::Model) -> Seq<u8>;

    /// The content that bytes stand for, if they stand for one.
    spec fn parse(bytes: Seq<u8>) -> Option<Self::Model>;

    /// Writing then reading gives the same content back.
    proof fn round_trip(m: Self::Model)
        requires
            Self::fits(m),
        ensures
            Self::parse(Self::wire(m)) == Some(m),
    ;

    /// Turns the value into bytes.
    fn encode(&self) -> (b: Vec<u8>)
        ensures
            Self::fits(self.model()),
            b@ == Self::wire(self.model()),
    ;

    /// Turns bytes into a value.
    fn decode(bytes: &[u8]) -> (r: Result<Self, StoreError>)
        ensures
            match r {
                Ok(v) => Self::parse(bytes@) == Some(v.model()),
                Err(e) => e == StoreError::Decode && Self::parse(bytes@) is None,
            },
    ;
}

impl Stored for u64 {
    type Model = u64;

    open spec fn model(&self) -> u64 {
        *self
    }

    open spec fn fits(m: u64) -> bool {
        true
    }

    open spec fn wire(m: u64) -> Seq<u8> {
        spec_u64_to_le_bytes(m)
    }

    open spec fn parse(bytes: Seq<u8>) -> Option<u64> {
        match take_u64(bytes) {
            Some((v, _)) => Some(v),
            None => None,
        }
    }

    proof fn round_trip(m: u64) {
        lemma_take_u64(m, Seq::empty());
        assert(spec_u64_to_le_bytes(m) + Seq::<u8>::empty() =~= spec_u64_to_le_bytes(m));
    }

    fn encode(&self) -> (b: Vec<u8>) {
        let mut out: Vec<u8> = Vec::new();
        write_u64(&mut out, *self);
        proof {
            assert(out@ =~= spec_u64_to_le_bytes(*self));
        }
        out
    }

    fn decode(bytes: &[u8]) -> (r: Result<u64, StoreError>) {
        match read_u64(bytes) {
            Some((v, _)) => Ok(v),
            None => Err(StoreError::Decode),
        }
    }
}

impl Stored for u32 {
    type Model = u32;

    open spec fn model(&self) -> u32 {
        *self
    }

    open spec fn fits(m: u32) -> bool {
        true
    }

    open spec fn wire(m: u32) -> Seq<u8> {
        spec_u32_to_le_bytes(m)
    }

    open spec fn parse(bytes: Seq<u8>) -> Option<u32> {
        match take_u32(bytes) {
            Some((v, _)) => Some(v),
            None => None,
        }
    }

    proof fn round_trip(m: u32) {
        lemma_take_u32(m, Seq::empty());
        assert(spec_u32_to_le_bytes(m) + Seq::<u8>::empty() =~= spec_u32_to_le_bytes(m));
    }

    fn encode(&self) -> (b: Vec<u8>) {
        let mut out: Vec<u8> = Vec::new();
        write_u32(&mut out, *self);
        proof {
            assert(out@ =~= spec_u32_to_le_bytes(*self));
        }
        out
    }

    fn decode(bytes: &[u8]) -> (r: Result<u32, StoreError>) {
        match read_u32(bytes) {
            Some((v, _)) => Ok(v),
            None => Err(StoreError::Decode),
        }
    }
}

impl Stored for String {
    type Model = Seq<char>;

    open spec fn model(&self) -> Seq<char> {
        self@
    }

    open spec fn fits(m: Seq<char>) -> bool {
        text_fits(m)
    }

    open spec fn wire(m: Seq<char>) -> Seq<u8> {
        text_wire(m)
    }

    open spec fn parse(bytes: Seq<u8>) -> Option<Seq<char>> {
        match take_text(bytes) {
            Some((s, _)) => Some(s),
            None => None,
        }
    }

    proof fn round_trip(m: Seq<char>) {
        lemma_take_text(m, Seq::empty());
        assert(text_wire(m) + Seq::<u8>::empty() =~= text_wire(m));
    }

    fn encode(&self) -> (b: Vec<u8>) {
        let mut out: Vec<u8> = Vec::new();
        write_text(&mut out, self.as_str());
        proof {
            assert(out@ =~= text_wire(self@));
        }
        out
    }

    fn decode(bytes: &[u8]) -> (r: Result<String, StoreError>) {
        match read_text(bytes) {
            Some((s, _)) => Ok(s),
            None => Err(StoreError::Decode),
        }
    }
}

/// What a typed read finds under `key`: nothing where the key is absent,
/// the content that its bytes stand for otherwise.
pub open spec fn typed<T: Stored>(held: Map<Seq<u8>, Seq<u8>>, key: Seq<u8>) -> Result<
    Option<T::Model>,
    StoreError,
> {
    if !held.contains_key(key) {
        Ok(None)
    } else {
        match T::parse(held[key]) {
            Some(m) => Ok(Some(m)),
            None => Err(StoreError::Decode),
        }
    }
}

/// A typed read after a typed write that the store took gives the value
/// back, and a reliable store takes every write; the other keys keep what
/// they held.
pub proof fn law_typed_round_trip<T: Stored>(
    before: Map<Seq<u8>, Seq<u8>>,
    after: Map<Seq<u8>, Seq<u8>>,
    reliable: bool,
    key: Seq<u8>,
    m: T::Model,
    r: Result<(), StoreError>,
)
    requires
        T::fits(m),
        crate::store::written(before, after, reliable, key, T::wire(m), r),
    ensures
        reliable ==> r is Ok,
        r is Ok ==> typed::<T>(after, key) == Ok::<Option<T::Model>, StoreError>(Some(m)),
        r is Err ==> after == before,
        forall|other: Seq<u8>|
            other != key ==> after.contains_key(other) == before.contains_key(other) && (
            after.contains_key(other) ==> after[other] == before[other]),
{
    T::round_trip(m);
}

/// Typed reads and writes on top of any store.
pub trait KvSerde: Kv {
    /// Reads the value of type `T` kept under `key`.
    fn get_t<T: Stored>(&self, key: &[u8]) -> (r: Result<Option<T>, StoreError>)
        requires
            self.valid(),
        ensures
            match r {
                Ok(Some(v)) => typed::<T>(self.contents(), key@) == Ok::<
                    Option<T::Model>,
                    StoreError,
                >(Some(v.model())),
                Ok(None) => typed::<T>(self.contents(), key@) == Ok::<
                    Option<T::Model>,
                    StoreError,
                >(None),
                Err(e) => typed::<T>(self.contents(), key@) == Err::<
                    Option<T::Model>,
                    StoreError,
                >(e),
            },
    {
        match self.get(key) {
            Some(bytes) => {
                match T::decode(bytes.as_slice()) {
                    Ok(v) => Ok(Some(v)),
                    Err(e) => Err(e),
                }
            },
            None => Ok(None),
        }
    }

    /// Writes `val` under `key`: its bytes are handed to the store, which
    /// takes them whole or refuses them.
    fn put_t<T: Stored>(&mut self, key: &[u8], val: &T) -> (r: Result<(), StoreError>)
        requires
            old(self).valid(),
        ensures
            final(self).valid(),
            final(self).reliable() == old(self).reliable(),
            T::fits(val.model()),
            crate::store::written(
                old(self).contents(),
                final(self).contents(),
                old(self).reliable(),
                key@,
                T::wire(val.model()),
                r,
            ),
    {
        let bytes = val.encode();
        self.put(key, bytes.as_slice())
    }
}

impl<K: Kv> KvSerde for K {

}

} // verus!
