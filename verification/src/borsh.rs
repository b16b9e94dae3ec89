//! Borsh-compatible serialization primitives for CPI instruction data: a `u32`
//! little-endian length (or element count) prefix followed by the payload bytes, written
//! in place into a pre-sized buffer.
//!
//! A vector is built from its bytes (`BorshVec::from_bytes`, or `new` with an element
//! count). Viewing a slice of `#[repr(C)]` elements as bytes would take `unsafe` code,
//! so typed slices are not accepted here.

use vstd::prelude::*;

verus! {

/// The four little-endian bytes of `x`.
pub open spec fn le32(x: u32) -> Seq<u8> {
    seq![(x & 0xff) as u8, ((x >> 8) & 0xff) as u8, ((x >> 16) & 0xff) as u8, ((x >> 24) & 0xff) as u8]
}

/// The eight little-endian bytes of `x`.
pub open spec fn le64(x: u64) -> Seq<u8> {
    seq![
        (x & 0xff) as u8,
        ((x >> 8) & 0xff) as u8,
        ((x >> 16) & 0xff) as u8,
        ((x >> 24) & 0xff) as u8,
        ((x >> 32) & 0xff) as u8,
        ((x >> 40) & 0xff) as u8,
        ((x >> 48) & 0xff) as u8,
        ((x >> 56) & 0xff) as u8,
    ]
}

/// The `u32` whose little-endian bytes are the first four of `b`.
pub open spec fn read_le32(b: Seq<u8>) -> u32 {
    (b[0] as u32) | ((b[1] as u32) << 8) | ((b[2] as u32) << 16) | ((b[3] as u32) << 24)
}

/// The `u64` whose little-endian bytes are the first eight of `b`.
pub open spec fn read_le64(b: Seq<u8>) -> u64 {
    (b[0] as u64) | ((b[1] as u64) << 8) | ((b[2] as u64) << 16) | ((b[3] as u64) << 24) | ((
    b[4] as u64) << 32) | ((b[5] as u64) << 40) | ((b[6] as u64) << 48) | ((b[7] as u64) << 56)
}

/// The Borsh framing of `payload` under the prefix `prefix`.
pub open spec fn framed(prefix: u32, payload: Seq<u8>) -> Seq<u8> {
    le32(prefix) + payload
}

/// `after` is `before` with `bytes` written from `offset` on and nothing else changed.
pub open spec fn written_at(before: Seq<u8>, after: Seq<u8>, offset: int, bytes: Seq<u8>) -> bool {
    &&& after.len() == before.len()
    &&& after.subrange(offset, offset + bytes.len()) == bytes
    &&& after.take(offset) == before.take(offset)
    &&& after.skip(offset + bytes.len()) == before.skip(offset + bytes.len())
}

/// Write the little-endian bytes of `x` at `offset`.
pub fn write_u32_le(buf: &mut Vec<u8>, offset: usize, x: u32)
    requires
        offset + 4 <= old(buf)@.len(),
    ensures
        written_at(old(buf)@, final(buf)@, offset as int, le32(x)),
{
    let blen = buf.len();
    assert(offset + 4 <= blen);
    buf.set(offset, (x & 0xff) as u8);
    buf.set(offset + 1, ((x >> 8) & 0xff) as u8);
    buf.set(offset + 2, ((x >> 16) & 0xff) as u8);
    buf.set(offset + 3, ((x >> 24) & 0xff) as u8);
    assert(buf@.subrange(offset as int, offset + 4) =~= le32(x));
    assert(buf@.take(offset as int) =~= old(buf)@.take(offset as int));
    assert(buf@.skip(offset + 4) =~= old(buf)@.skip(offset + 4));
}

/// Write the little-endian bytes of `x` at `offset`.
pub fn write_u64_le(buf: &mut Vec<u8>, offset: usize, x: u64)
    requires
        offset + 8 <= old(buf)@.len(),
    ensures
        written_at(old(buf)@, final(buf)@, offset as int, le64(x)),
{
    let blen = buf.len();
    assert(offset + 8 <= blen);
    buf.set(offset, (x & 0xff) as u8);
    buf.set(offset + 1, ((x >> 8) & 0xff) as u8);
    buf.set(offset + 2, ((x >> 16) & 0xff) as u8);
    buf.set(offset + 3, ((x >> 24) & 0xff) as u8);
    buf.set(offset + 4, ((x >> 32) & 0xff) as u8);
    buf.set(offset + 5, ((x >> 40) & 0xff) as u8);
    buf.set(offset + 6, ((x >> 48) & 0xff) as u8);
    buf.set(offset + 7, ((x >> 56) & 0xff) as u8);
    assert(buf@.subrange(offset as int, offset + 8) =~= le64(x));
    assert(buf@.take(offset as int) =~= old(buf)@.take(offset as int));
    assert(buf@.skip(offset + 8) =~= old(buf)@.skip(offset + 8));
}

/// Copy `bytes` into `buf` at `offset`.
pub fn write_bytes(buf: &mut Vec<u8>, offset: usize, bytes: &[u8])
    requires
        offset + bytes@.len() <= old(buf)@.len(),
    ensures
        written_at(old(buf)@, final(buf)@, offset as int, bytes@),
{
    let blen = buf.len();
    let n = bytes.len();
    let mut i: usize = 0;
    while i < n
        invariant
            n == bytes@.len(),
            i <= n,
            offset + n <= blen,
            blen == buf@.len(),
            buf@.len() == old(buf)@.len(),
            forall|k: int| 0 <= k < i ==> buf@[offset + k] == bytes@[k],
            forall|k: int|
                0 <= k < buf@.len() && (k < offset || offset + i <= k) ==> buf@[k] == old(
                    buf,
                )@[k],
        decreases n - i,
    {
        buf.set(offset + i, bytes[i]);
        i = i + 1;
    }
    assert(buf@.subrange(offset as int, offset + n) =~= bytes@) by {
        assert forall|k: int| 0 <= k < n implies buf@.subrange(offset as int, offset + n)[k]
            == bytes@[k] by {
            assert(buf@[offset + k] == bytes@[k]);
        }
    }
    assert(buf@.take(offset as int) =~= old(buf)@.take(offset as int));
    assert(buf@.skip(offset + n) =~= old(buf)@.skip(offset + n));
}

/// Write `prefix` then `payload` at `offset`; returns the offset after the last byte.
fn write_framed(buf: &mut Vec<u8>, offset: usize, prefix: u32, payload: &[u8]) -> (end: usize)
    requires
        offset + 4 + payload@.len() <= old(buf)@.len(),
    ensures
        end == offset + 4 + payload@.len(),
        written_at(old(buf)@, final(buf)@, offset as int, framed(prefix, payload@)),
{
    let blen = buf.len();
    assert(offset + 4 + payload@.len() <= blen);
    let ghost before = buf@;
    write_u32_le(buf, offset, prefix);
    let ghost mid = buf@;
    write_bytes(buf, offset + 4, payload);
    let end = offset + 4 + payload.len();
    proof {
        let n = payload@.len();
        assert forall|k: int| 0 <= k < offset + 4 implies buf@[k] == mid[k] by {
            assert(buf@.take(offset + 4)[k] == mid.take(offset + 4)[k]);
        }
        assert forall|k: int| 0 <= k < offset implies mid[k] == before[k] by {
            assert(mid.take(offset as int)[k] == before.take(offset as int)[k]);
        }
        assert forall|k: int| 0 <= k < 4 implies mid[offset + k] == le32(prefix)[k] by {
            assert(mid.subrange(offset as int, offset + 4)[k] == mid[offset + k]);
        }
        assert forall|k: int| 0 <= k < n implies buf@[offset + 4 + k] == payload@[k] by {
            assert(buf@.subrange(offset + 4, offset + 4 + n)[k] == buf@[offset + 4 + k]);
        }
        assert forall|k: int| end <= k < buf@.len() implies buf@[k] == mid[k] by {
            assert(buf@.skip(end as int)[k - end] == mid.skip(end as int)[k - end]);
        }
        assert forall|k: int| end <= k < buf@.len() implies mid[k] == before[k] by {
            assert(mid.skip(offset + 4)[k - offset - 4] == before.skip(offset + 4)[k - offset - 4]);
        }
        assert(buf@.subrange(offset as int, end as int) =~= framed(prefix, payload@));
        assert(buf@.take(offset as int) =~= before.take(offset as int));
        assert(buf@.skip(end as int) =~= before.skip(end as int));
    }
    end
}

/// A Borsh string: a `u32` little-endian byte length followed by the UTF-8 bytes.
pub struct BorshString<'a>(pub &'a [u8]);

impl<'a> BorshString<'a> {
    /// A Borsh string over raw UTF-8 bytes.
    pub fn new(bytes: &'a [u8]) -> (r: BorshString<'a>)
        ensures
            r.0@ == bytes@,
    {
        BorshString(bytes)
    }

    /// A Borsh string over the UTF-8 bytes of `s`.
    pub fn from_str(s: &'a str) -> (r: BorshString<'a>)
        ensures
            r.0@ == vstd::utf8::encode_utf8(s@),
    {
        BorshString(s.as_bytes())
    }

    /// The bytes this value writes: the byte length (truncated to `u32`) then the bytes.
    pub open spec fn spec_encoding(&self) -> Seq<u8> {
        framed(self.0@.len() as u32, self.0@)
    }

    /// Write this string in Borsh format at `offset`; returns the offset after the last
    /// written byte. Nothing outside the written range changes.
    pub fn write_to(self, buf: &mut Vec<u8>, offset: usize) -> (end: usize)
        requires
            offset + 4 + self.0@.len() <= old(buf)@.len(),
        ensures
            end == offset + 4 + self.0@.len(),
            written_at(old(buf)@, final(buf)@, offset as int, self.spec_encoding()),
    {
        let len = self.0.len() as u32;
        write_framed(buf, offset, len, self.0)
    }

    /// Total bytes this value occupies when serialized.
    pub fn serialized_len(&self) -> (n: usize)
        requires
            self.0@.len() + 4 <= usize::MAX,
        ensures
            n == self.0@.len() + 4,
    {
        4 + self.0.len()
    }
}

/// A Borsh vector: a `u32` little-endian element count followed by the elements' bytes,
/// already serialized.
pub struct BorshVec<'a> {
    bytes: &'a [u8],
    count: u32,
}

impl<'a> BorshVec<'a> {
    /// The elements' serialized bytes.
    pub closed spec fn spec_bytes(&self) -> Seq<u8> {
        self.bytes@
    }

    /// The element count written as the prefix.
    pub closed spec fn spec_count(&self) -> u32 {
        self.count
    }

    /// A Borsh vector over `count` pre-serialized elements held in `bytes`.
    pub fn new(bytes: &'a [u8], count: u32) -> (r: BorshVec<'a>)
        ensures
            r.spec_bytes() == bytes@,
            r.spec_count() == count,
    {
        BorshVec { bytes, count }
    }

    /// An empty Borsh vector (count 0, no payload).
    pub fn empty() -> (r: BorshVec<'a>)
        ensures
            r.spec_bytes() == Seq::<u8>::empty(),
            r.spec_count() == 0,
    {
        let bytes: &'a [u8] = &[];
        assert(bytes@ =~= Seq::<u8>::empty());
        BorshVec { bytes, count: 0 }
    }

    /// A Borsh vector of single bytes: the count is the byte length (truncated to `u32`).
    pub fn from_bytes(bytes: &'a [u8]) -> (r: BorshVec<'a>)
        ensures
            r.spec_bytes() == bytes@,
            r.spec_count() == bytes@.len() as u32,
    {
        BorshVec { bytes, count: bytes.len() as u32 }
    }

    /// The bytes this value writes: the count then the elements' bytes.
    pub open spec fn spec_encoding(&self) -> Seq<u8> {
        framed(self.spec_count(), self.spec_bytes())
    }

    /// Write this vector in Borsh format at `offset`; returns the offset after the last
    /// written byte. Nothing outside the written range changes.
    pub fn write_to(self, buf: &mut Vec<u8>, offset: usize) -> (end: usize)
        requires
            offset + 4 + self.spec_bytes().len() <= old(buf)@.len(),
        ensures
            end == offset + 4 + self.spec_bytes().len(),
            written_at(old(buf)@, final(buf)@, offset as int, self.spec_encoding()),
    {
        write_framed(buf, offset, self.count, self.bytes)
    }

    /// Total bytes this value occupies when serialized.
    pub fn serialized_len(&self) -> (n: usize)
        requires
            self.spec_bytes().len() + 4 <= usize::MAX,
        ensures
            n == self.spec_bytes().len() + 4,
    {
        4 + self.bytes.len()
    }
}

impl<'a> From<&'a [u8]> for BorshString<'a> {
    fn from(bytes: &'a [u8]) -> (r: BorshString<'a>) {
        BorshString(bytes)
    }
}

impl<'a> vstd::std_specs::convert::FromSpecImpl<&'a [u8]> for BorshString<'a> {
    open spec fn obeys_from_spec() -> bool {
        true
    }

    open spec fn from_spec(bytes: &'a [u8]) -> BorshString<'a> {
        BorshString(bytes)
    }
}

impl<'a> From<&'a str> for BorshString<'a> {
    fn from(s: &'a str) -> (r: BorshString<'a>) {
        let b = s.as_bytes();
        proof {
            let c = choose|x: &'a [u8]| x@ == vstd::utf8::encode_utf8(s@);
            assert(b@ == vstd::utf8::encode_utf8(s@));
            assert(c@ == vstd::utf8::encode_utf8(s@));
            assert(c =~= b);
        }
        BorshString(b)
    }
}

impl<'a> vstd::std_specs::convert::FromSpecImpl<&'a str> for BorshString<'a> {
    open spec fn obeys_from_spec() -> bool {
        true
    }

    /// The string's UTF-8 bytes.
    open spec fn from_spec(s: &'a str) -> BorshString<'a> {
        BorshString(choose|b: &'a [u8]| b@ == vstd::utf8::encode_utf8(s@))
    }
}

impl<'a> From<&'a [u8]> for BorshVec<'a> {
    fn from(bytes: &'a [u8]) -> (r: BorshVec<'a>) {
        BorshVec { bytes, count: bytes.len() as u32 }
    }
}

impl<'a> vstd::std_specs::convert::FromSpecImpl<&'a [u8]> for BorshVec<'a> {
    open spec fn obeys_from_spec() -> bool {
        true
    }

    closed spec fn from_spec(bytes: &'a [u8]) -> BorshVec<'a> {
        BorshVec { bytes, count: bytes@.len() as u32 }
    }
}

/// Reading the prefix back gives the value written.
pub proof fn le32_round_trip(x: u32)
    ensures
        read_le32(le32(x)) == x,
{
    let b0 = (x & 0xff) as u8;
    let b1 = ((x >> 8) & 0xff) as u8;
    let b2 = ((x >> 16) & 0xff) as u8;
    let b3 = ((x >> 24) & 0xff) as u8;
    assert((b0 as u32) | ((b1 as u32) << 8) | ((b2 as u32) << 16) | ((b3 as u32) << 24) == x)
        by (bit_vector)
        requires
            b0 == (x & 0xff) as u8,
            b1 == ((x >> 8) & 0xff) as u8,
            b2 == ((x >> 16) & 0xff) as u8,
            b3 == ((x >> 24) & 0xff) as u8,
    ;
}

/// Reading eight bytes back gives the value written.
pub proof fn le64_round_trip(x: u64)
    ensures
        read_le64(le64(x)) == x,
{
    let b0 = (x & 0xff) as u8;
    let b1 = ((x >> 8) & 0xff) as u8;
    let b2 = ((x >> 16) & 0xff) as u8;
    let b3 = ((x >> 24) & 0xff) as u8;
    let b4 = ((x >> 32) & 0xff) as u8;
    let b5 = ((x >> 40) & 0xff) as u8;
    let b6 = ((x >> 48) & 0xff) as u8;
    let b7 = ((x >> 56) & 0xff) as u8;
    assert((b0 as u64) | ((b1 as u64) << 8) | ((b2 as u64) << 16) | ((b3 as u64) << 24) | ((
    b4 as u64) << 32) | ((b5 as u64) << 40) | ((b6 as u64) << 48) | ((b7 as u64) << 56) == x)
        by (bit_vector)
        requires
            b0 == (x & 0xff) as u8,
            b1 == ((x >> 8) & 0xff) as u8,
            b2 == ((x >> 16) & 0xff) as u8,
            b3 == ((x >> 24) & 0xff) as u8,
            b4 == ((x >> 32) & 0xff) as u8,
            b5 == ((x >> 40) & 0xff) as u8,
            b6 == ((x >> 48) & 0xff) as u8,
            b7 == ((x >> 56) & 0xff) as u8,
    ;
}

/// A Borsh string reads back: the prefix is the byte length (when it fits in a `u32`)
/// and the payload is the string's bytes.
pub proof fn borsh_string_reads_back(s: BorshString)
    requires
        s.0@.len() <= u32::MAX,
    ensures
        read_le32(s.spec_encoding()) == s.0@.len(),
        s.spec_encoding().skip(4) == s.0@,
        s.spec_encoding().len() == 4 + s.0@.len(),
{
    le32_round_trip(s.0@.len() as u32);
    assert(s.spec_encoding().take(4) =~= le32(s.0@.len() as u32));
    assert(s.spec_encoding().skip(4) =~= s.0@);
}


/// A Borsh vector reads back: the prefix is its element count and the payload is the
/// elements' bytes.
pub proof fn borsh_vec_reads_back(v: BorshVec)
    ensures
        read_le32(v.spec_encoding()) == v.spec_count(),
        v.spec_encoding().skip(4) == v.spec_bytes(),
        v.spec_encoding().len() == 4 + v.spec_bytes().len(),
{
    le32_round_trip(v.spec_count());
    assert(v.spec_encoding().take(4) =~= le32(v.spec_count()));
    assert(v.spec_encoding().skip(4) =~= v.spec_bytes());
}

} // verus!
