//! The bounded cursor and the primitive field decoders.
//!
//! [`SizedBuffer`] owns a fixed-capacity byte store, a read offset and a
//! remaining-length counter. Every `take_*` method either advances past
//! exactly the bytes it consumed, or fails without changing the buffer.

use vstd::prelude::*;

verus! {

/// Failures of the primitive field decoders.
#[derive(Debug, Clone, Copy, PartialEq, Eq, Structural)]
pub enum DataError {
    /// The buffer ran out of bytes before a field could be read.
    InsufficientByte,
    /// A string field is not valid UTF-8.
    Utf8Error,
    /// The address-family tag of a socket address is neither 4 nor 6.
    UnsupportedIpv(u8),
    /// More bytes were handed to the buffer than its capacity holds.
    Overflow,
    /// A timestamp field does not denote a representable instant.
    InvalidTime,
    /// An internal slice request exceeded the buffer's capacity. Defensive:
    /// unreachable while the buffer's bookkeeping invariant holds.
    OutOfBound,
}

/// The unsigned big-endian value of the first two bytes of `s`.
pub open spec fn be16(s: Seq<u8>) -> int {
    s[0] * 0x100 + s[1]
}

/// The unsigned little-endian value of the first two bytes of `s`.
pub open spec fn le16(s: Seq<u8>) -> int {
    s[1] * 0x100 + s[0]
}

/// The unsigned little-endian value of the first three bytes of `s`:
/// a 24-bit integer zero-extended to 32 bits.
pub open spec fn le24(s: Seq<u8>) -> int {
    s[2] * 0x1_0000 + s[1] * 0x100 + s[0]
}

/// The unsigned big-endian value of the first four bytes of `s`.
pub open spec fn be32(s: Seq<u8>) -> int {
    s[0] * 0x100_0000 + s[1] * 0x1_0000 + s[2] * 0x100 + s[3]
}

/// The unsigned big-endian value of the first eight bytes of `s`.
pub open spec fn be64(s: Seq<u8>) -> int {
    s[0] * 0x100_0000_0000_0000 + s[1] * 0x1_0000_0000_0000 + s[2] * 0x100_0000_0000
        + s[3] * 0x1_0000_0000 + s[4] * 0x100_0000 + s[5] * 0x1_0000 + s[6] * 0x100 + s[7]
}

/// Reinterprets a 16-bit unsigned value as two's-complement signed.
pub open spec fn signed16(n: int) -> int {
    if n < 0x8000 {
        n
    } else {
        n - 0x1_0000
    }
}

/// Reinterprets a 64-bit unsigned value as two's-complement signed.
pub open spec fn signed64(n: int) -> int {
    if n < 0x8000_0000_0000_0000 {
        n
    } else {
        n - 0x1_0000_0000_0000_0000
    }
}

/// The signed big-endian value of the first two bytes of `s`.
pub open spec fn be_i16(s: Seq<u8>) -> int {
    signed16(be16(s))
}

/// The signed big-endian value of the first eight bytes of `s`.
pub open spec fn be_i64(s: Seq<u8>) -> int {
    signed64(be64(s))
}

/// The fixed 16-byte token embedded in all unconnected messages. The codec
/// decodes it as an opaque value; validating its contents is the relay's
/// policy decision, not a codec concern.
#[derive(Debug, Clone, PartialEq, Eq)]
pub struct Magic(pub Vec<u8>);

impl Magic {
    /// A magic token holds exactly 16 bytes.
    pub open spec fn wf(self) -> bool {
        self.0@.len() == 16
    }
}

/// A decoded socket address: the raw address bytes and the port of an
/// address of family 4 or family 6.
#[derive(Debug, Clone, PartialEq, Eq)]
pub enum Addr {
    V4 { ip: Vec<u8>, port: u16 },
    V6 { ip: Vec<u8>, port: u16 },
}

impl Addr {
    /// A family-4 address holds four address bytes, a family-6 address
    /// sixteen.
    pub open spec fn wf(self) -> bool {
        match self {
            Addr::V4 { ip, port } => ip@.len() == 4,
            Addr::V6 { ip, port } => ip@.len() == 16,
        }
    }
}

/// The wire width of a socket address whose family tag is `s[0]`: seven
/// bytes for family 4, twenty-nine for family 6.
pub open spec fn addr_len(s: Seq<u8>) -> int {
    if s[0] == 4 {
        7
    } else {
        29
    }
}

/// The front of `s` holds a decodable socket address: a known family tag
/// followed by that family's full layout.
pub open spec fn addr_ok(s: Seq<u8>) -> bool {
    &&& s.len() >= 1
    &&& (s[0] == 4 || s[0] == 6)
    &&& s.len() >= addr_len(s)
}

/// `a` holds exactly the socket address decoded from the front of `s`.
pub open spec fn addr_matches(a: Addr, s: Seq<u8>) -> bool {
    if s[0] == 4 {
        a matches Addr::V4 { ip, port } && ip@ == s.subrange(1, 5) && port == be16(s.skip(5))
    } else {
        a matches Addr::V6 { ip, port } && ip@ == s.subrange(9, 25) && port == le16(s.skip(3))
    }
}

/// The failure a socket-address decode at the front of `s` reports: an
/// unknown family tag, or too few bytes.
pub open spec fn addr_err(s: Seq<u8>) -> DataError {
    if s.len() >= 1 && s[0] != 4 && s[0] != 6 {
        DataError::UnsupportedIpv(s[0])
    } else {
        DataError::InsufficientByte
    }
}

/// The first `k` consecutive socket addresses at the front of `s` are all
/// complete.
pub open spec fn addrs_ok(s: Seq<u8>, k: nat) -> bool
    decreases k,
{
    k == 0 || (addr_ok(s) && addrs_ok(s.skip(addr_len(s)), (k - 1) as nat))
}

/// The combined wire width of the first `k` consecutive socket addresses
/// at the front of `s`.
pub open spec fn addrs_width(s: Seq<u8>, k: nat) -> int
    decreases k,
{
    if k == 0 {
        0
    } else {
        addr_len(s) + addrs_width(s.skip(addr_len(s)), (k - 1) as nat)
    }
}

/// The failure decoding `k` consecutive socket addresses at the front of
/// `s` reports: the failure of the first incomplete address.
pub open spec fn addrs_err(s: Seq<u8>, k: nat) -> DataError
    decreases k,
{
    if k == 0 {
        DataError::InsufficientByte
    } else if !addr_ok(s) {
        addr_err(s)
    } else {
        addrs_err(s.skip(addr_len(s)), (k - 1) as nat)
    }
}

/// `v` holds exactly the `k` consecutive socket addresses decoded from the
/// front of `s`.
pub open spec fn addrs_match(v: Seq<Addr>, s: Seq<u8>, k: nat) -> bool
    decreases k,
{
    &&& v.len() == k
    &&& k > 0 ==> addr_matches(v[0], s) && addrs_match(
        v.skip(1),
        s.skip(addr_len(s)),
        (k - 1) as nat,
    )
}

/// `k` complete addresses occupy between zero bytes and the whole of `s`.
pub proof fn lemma_addrs_width_bounds(s: Seq<u8>, k: nat)
    requires
        addrs_ok(s, k),
    ensures
        0 <= addrs_width(s, k) <= s.len(),
    decreases k,
{
    if k > 0 {
        lemma_addrs_width_bounds(s.skip(addr_len(s)), (k - 1) as nat);
    }
}

/// When the first `i` addresses are complete and the next one is not, the
/// whole list of `k > i` addresses is incomplete, and its failure is the
/// failure of that next address.
proof fn lemma_addrs_fail(s: Seq<u8>, i: nat, k: nat)
    requires
        i < k,
        addrs_ok(s, i),
        !addr_ok(s.skip(addrs_width(s, i))),
    ensures
        !addrs_ok(s, k),
        addrs_err(s, k) == addr_err(s.skip(addrs_width(s, i))),
    decreases i,
{
    if i == 0 {
        assert(s.skip(0) =~= s);
    } else {
        let t = s.skip(addr_len(s));
        lemma_addrs_width_bounds(t, (i - 1) as nat);
        assert(t.skip(addrs_width(t, (i - 1) as nat)) =~= s.skip(addrs_width(s, i)));
        lemma_addrs_fail(t, (i - 1) as nat, (k - 1) as nat);
    }
}

/// Appending the next complete address to a matching list of `i` addresses
/// yields a matching list of `i + 1`.
proof fn lemma_addrs_snoc(v: Seq<Addr>, a: Addr, s: Seq<u8>, i: nat)
    requires
        addrs_ok(s, i),
        addrs_match(v, s, i),
        addr_ok(s.skip(addrs_width(s, i))),
        addr_matches(a, s.skip(addrs_width(s, i))),
    ensures
        addrs_ok(s, (i + 1) as nat),
        addrs_match(v.push(a), s, (i + 1) as nat),
        addrs_width(s, (i + 1) as nat) == addrs_width(s, i) + addr_len(s.skip(addrs_width(s, i))),
    decreases i,
{
    if i == 0 {
        assert(s.skip(0) =~= s);
        assert(addr_ok(s) && addr_matches(a, s));
        assert(v.push(a)[0] == a);
        assert(v.push(a).skip(1) =~= Seq::<Addr>::empty());
        let t = s.skip(addr_len(s));
        assert(addrs_ok(t, 0nat));
        assert(addrs_match(v.push(a).skip(1), t, 0nat));
        assert(addrs_ok(s, 1nat));
        assert(addrs_match(v.push(a), s, 1nat));
        assert(addrs_width(s, 1nat) == addr_len(s) + addrs_width(t, 0nat));
    } else {
        let t = s.skip(addr_len(s));
        lemma_addrs_width_bounds(t, (i - 1) as nat);
        assert(t.skip(addrs_width(t, (i - 1) as nat)) =~= s.skip(addrs_width(s, i)));
        lemma_addrs_snoc(v.skip(1), a, t, (i - 1) as nat);
        assert(v.push(a).skip(1) =~= v.skip(1).push(a));
        assert(v.push(a)[0] == v[0]);
        assert(addrs_ok(s, (i + 1) as nat));
        assert(addrs_match(v.push(a), s, (i + 1) as nat));
    }
}

/// Relies on `alloc::string::String::from_utf8`: it returns `Ok` exactly
/// when the bytes are valid UTF-8, and the string's characters are then the
/// UTF-8 decoding of those bytes.
#[verifier::external_body]
fn bytes_to_string(bytes: Vec<u8>) -> (r: Option<String>)
    ensures
        r is Some <==> vstd::utf8::valid_utf8(bytes@),
        r matches Some(s) ==> s@ == vstd::utf8::decode_utf8(bytes@),
{
    match String::from_utf8(bytes) {
        Ok(s) => Some(s),
        Err(_) => None,
    }
}

/// A fixed-capacity byte buffer with a read offset and a remaining-length
/// counter; the foundation every decoder reads through.
///
/// All `take_*` methods advance past the bytes they consume.
#[derive(Debug, Clone)]
pub struct SizedBuffer<const N: usize> {
    buf: Vec<u8>,
    len: usize,
    ptr: usize,
}

impl<const N: usize> SizedBuffer<N> {
    /// The full underlying byte store, of length `N`.
    pub closed spec fn spec_data(self) -> Seq<u8> {
        self.buf@
    }

    /// The read offset.
    pub closed spec fn spec_offset(self) -> int {
        self.ptr as int
    }

    /// The count of bytes that remain to be read.
    pub closed spec fn spec_len(self) -> int {
        self.len as int
    }

    /// The bookkeeping invariant: the unread window lies inside the store.
    pub open spec fn wf(self) -> bool {
        &&& self.spec_data().len() == N
        &&& 0 <= self.spec_offset()
        &&& 0 <= self.spec_len()
        &&& self.spec_offset() + self.spec_len() <= N
    }

    /// The bytes that remain to be read.
    pub open spec fn rem(self) -> Seq<u8> {
        self.spec_data().subrange(self.spec_offset(), self.spec_offset() + self.spec_len())
    }

    /// Holds when `post` is `pre` advanced past exactly `k` bytes of the
    /// same underlying store.
    pub open spec fn advanced(pre: Self, post: Self, k: int) -> bool {
        &&& post.spec_data() == pre.spec_data()
        &&& post.spec_offset() == pre.spec_offset() + k
        &&& post.spec_len() == pre.spec_len() - k
        &&& post.rem() == pre.rem().skip(k)
    }

    /// Holds when a failed read left offset, length and store as they were.
    pub open spec fn unchanged(pre: Self, post: Self) -> bool {
        &&& post.spec_data() == pre.spec_data()
        &&& post.spec_offset() == pre.spec_offset()
        &&& post.spec_len() == pre.spec_len()
    }

    /// Creates an empty buffer of capacity `N`.
    pub fn new() -> (r: Self)
        ensures
            r.wf(),
            r.spec_offset() == 0,
            r.spec_len() == 0,
            r.rem() == Seq::<u8>::empty(),
    {
        let mut buf: Vec<u8> = Vec::new();
        while buf.len() < N
            invariant
                buf@.len() <= N,
            decreases N - buf@.len(),
        {
            buf.push(0);
        }
        let r = Self { buf, len: 0, ptr: 0 };
        proof {
            assert(r.rem() =~= Seq::<u8>::empty());
        }
        r
    }

    /// Fills the buffer with `data` and rewinds it, ready for decoding a
    /// fresh datagram; fails with `Overflow` when `data` exceeds the
    /// capacity.
    pub fn load(&mut self, data: &[u8]) -> (r: Result<(), DataError>)
        requires
            old(self).wf(),
        ensures
            final(self).wf(),
            data@.len() > N ==> r == Err::<(), DataError>(DataError::Overflow)
                && Self::unchanged(*old(self), *final(self)),
            data@.len() <= N ==> r == Ok::<(), DataError>(())
                && final(self).spec_offset() == 0
                && final(self).spec_len() == data@.len()
                && final(self).rem() == data@,
    {
        let n = data.len();
        if n > N {
            return Err(DataError::Overflow);
        }
        let mut buf: Vec<u8> = Vec::new();
        let mut i: usize = 0;
        while i < n
            invariant
                i <= n,
                n == data@.len(),
                n <= N,
                buf@ == data@.subrange(0, i as int),
            decreases n - i,
        {
            buf.push(data[i]);
            i = i + 1;
            proof {
                assert(buf@ =~= data@.subrange(0, i as int));
            }
        }
        while buf.len() < N
            invariant
                n == data@.len(),
                n <= buf@.len() <= N,
                buf@.subrange(0, n as int) == data@,
            decreases N - buf@.len(),
        {
            buf.push(0);
            proof {
                assert(buf@.subrange(0, n as int) =~= data@);
            }
        }
        self.buf = buf;
        self.ptr = 0;
        self.len = n;
        proof {
            assert(self.rem() =~= data@);
        }
        Ok(())
    }

    /// Rewinds the buffer for reuse across datagrams: offset and remaining
    /// length both become zero.
    pub fn clear(&mut self)
        requires
            old(self).wf(),
        ensures
            final(self).wf(),
            final(self).spec_data() == old(self).spec_data(),
            final(self).spec_offset() == 0,
            final(self).spec_len() == 0,
    {
        self.ptr = 0;
        self.len = 0;
    }

    /// The count of bytes that remain to be read.
    pub fn len(&self) -> (r: usize)
        ensures
            r == self.spec_len(),
    {
        self.len
    }

    /// True when no bytes remain to be read.
    pub fn is_empty(&self) -> (r: bool)
        ensures
            r == (self.spec_len() == 0),
    {
        self.len == 0
    }

    /// The read offset.
    pub fn offset(&self) -> (r: usize)
        ensures
            r == self.spec_offset(),
    {
        self.ptr
    }

    /// The fixed capacity of the underlying store.
    pub fn capacity(&self) -> (r: usize)
        ensures
            r == N,
    {
        N
    }

    /// Consumes `size` bytes without reading them. Offset and remaining
    /// length move together: on failure neither changes.
    pub fn advance(&mut self, size: usize) -> (r: Result<(), DataError>)
        requires
            old(self).wf(),
        ensures
            final(self).wf(),
            old(self).spec_len() < size ==> r == Err::<(), DataError>(DataError::InsufficientByte)
                && Self::unchanged(*old(self), *final(self)),
            old(self).spec_len() >= size ==> r == Ok::<(), DataError>(())
                && Self::advanced(*old(self), *final(self), size as int),
    {
        if self.len < size {
            return Err(DataError::InsufficientByte);
        }
        self.len = self.len - size;
        self.ptr = self.ptr + size;
        proof {
            assert(self.rem() =~= old(self).rem().skip(size as int));
        }
        Ok(())
    }

    /// Copies the bytes at `begin..end` out of the underlying store without
    /// advancing; rejects a range whose end exceeds the capacity.
    fn slice(&self, begin: usize, end: usize) -> (r: Result<Vec<u8>, DataError>)
        requires
            self.wf(),
            begin <= end,
        ensures
            end > N ==> r == Err::<Vec<u8>, DataError>(DataError::OutOfBound),
            end <= N ==> (r matches Ok(v) && v@ == self.spec_data().subrange(
                begin as int,
                end as int,
            )),
    {
        if end > N {
            return Err(DataError::OutOfBound);
        }
        let mut out: Vec<u8> = Vec::new();
        let mut i: usize = begin;
        while i < end
            invariant
                begin <= i <= end,
                end <= N,
                self.wf(),
                out@ == self.spec_data().subrange(begin as int, i as int),
            decreases end - i,
        {
            out.push(self.buf[i]);
            i = i + 1;
            proof {
                assert(out@ =~= self.spec_data().subrange(begin as int, i as int));
            }
        }
        Ok(out)
    }

    /// Returns the next `size` bytes and advances past them; fails with
    /// `InsufficientByte` when fewer than `size` bytes remain, or with
    /// `OutOfBound` when the computed range would exceed the capacity (a
    /// defensive check on the bookkeeping, unreachable while the invariant
    /// holds).
    pub fn take_bytes(&mut self, size: usize) -> (r: Result<Vec<u8>, DataError>)
        requires
            old(self).wf(),
        ensures
            final(self).wf(),
            old(self).spec_len() < size ==> r == Err::<Vec<u8>, DataError>(
                DataError::InsufficientByte,
            ) && Self::unchanged(*old(self), *final(self)),
            old(self).spec_len() >= size ==> (r matches Ok(v)
                && v@ == old(self).rem().take(size as int)
                && Self::advanced(*old(self), *final(self), size as int)),
    {
        if self.len < size {
            return Err(DataError::InsufficientByte);
        }
        let begin = self.ptr;
        let end = self.ptr + size;
        let bytes = match self.slice(begin, end) {
            Ok(v) => v,
            Err(e) => {
                return Err(e);
            },
        };
        match self.advance(size) {
            Ok(_) => {},
            Err(e) => {
                return Err(e);
            },
        }
        proof {
            assert(bytes@ =~= old(self).rem().take(size as int));
        }
        Ok(bytes)
    }

    /// Reads one byte.
    pub fn take_u8(&mut self) -> (r: Result<u8, DataError>)
        requires
            old(self).wf(),
        ensures
            final(self).wf(),
            old(self).spec_len() < 1 ==> r == Err::<u8, DataError>(DataError::InsufficientByte)
                && Self::unchanged(*old(self), *final(self)),
            old(self).spec_len() >= 1 ==> (r matches Ok(v) && v == old(self).rem()[0]
                && Self::advanced(*old(self), *final(self), 1)),
    {
        if self.len < 1 {
            return Err(DataError::InsufficientByte);
        }
        let b = self.buf[self.ptr];
        self.ptr = self.ptr + 1;
        self.len = self.len - 1;
        proof {
            assert(self.rem() =~= old(self).rem().skip(1));
        }
        Ok(b)
    }

    /// Reads one byte as a boolean: any non-zero value is true.
    pub fn take_bool(&mut self) -> (r: Result<bool, DataError>)
        requires
            old(self).wf(),
        ensures
            final(self).wf(),
            old(self).spec_len() < 1 ==> r == Err::<bool, DataError>(DataError::InsufficientByte)
                && Self::unchanged(*old(self), *final(self)),
            old(self).spec_len() >= 1 ==> (r matches Ok(v) && v == (old(self).rem()[0] != 0)
                && Self::advanced(*old(self), *final(self), 1)),
    {
        match self.take_u8() {
            Ok(b) => Ok(b != 0),
            Err(e) => Err(e),
        }
    }

    /// Reads an unsigned 16-bit big-endian integer.
    pub fn take_u16(&mut self) -> (r: Result<u16, DataError>)
        requires
            old(self).wf(),
        ensures
            final(self).wf(),
            old(self).spec_len() < 2 ==> r == Err::<u16, DataError>(DataError::InsufficientByte)
                && Self::unchanged(*old(self), *final(self)),
            old(self).spec_len() >= 2 ==> (r matches Ok(v) && v == be16(old(self).rem())
                && Self::advanced(*old(self), *final(self), 2)),
    {
        if self.len < 2 {
            return Err(DataError::InsufficientByte);
        }
        let b0 = self.buf[self.ptr];
        let b1 = self.buf[self.ptr + 1];
        self.ptr = self.ptr + 2;
        self.len = self.len - 2;
        proof {
            assert(self.rem() =~= old(self).rem().skip(2));
        }
        Ok((b0 as u16) * 0x100 + (b1 as u16))
    }

    /// Reads an unsigned 16-bit little-endian integer; the byte order is
    /// used only inside socket-address decoding.
    pub fn take_u16_le(&mut self) -> (r: Result<u16, DataError>)
        requires
            old(self).wf(),
        ensures
            final(self).wf(),
            old(self).spec_len() < 2 ==> r == Err::<u16, DataError>(DataError::InsufficientByte)
                && Self::unchanged(*old(self), *final(self)),
            old(self).spec_len() >= 2 ==> (r matches Ok(v) && v == le16(old(self).rem())
                && Self::advanced(*old(self), *final(self), 2)),
    {
        if self.len < 2 {
            return Err(DataError::InsufficientByte);
        }
        let b0 = self.buf[self.ptr];
        let b1 = self.buf[self.ptr + 1];
        self.ptr = self.ptr + 2;
        self.len = self.len - 2;
        proof {
            assert(self.rem() =~= old(self).rem().skip(2));
        }
        Ok((b1 as u16) * 0x100 + (b0 as u16))
    }

    /// Reads a signed 16-bit big-endian integer.
    pub fn take_i16(&mut self) -> (r: Result<i16, DataError>)
        requires
            old(self).wf(),
        ensures
            final(self).wf(),
            old(self).spec_len() < 2 ==> r == Err::<i16, DataError>(DataError::InsufficientByte)
                && Self::unchanged(*old(self), *final(self)),
            old(self).spec_len() >= 2 ==> (r matches Ok(v) && v == be_i16(old(self).rem())
                && Self::advanced(*old(self), *final(self), 2)),
    {
        let n = match self.take_u16() {
            Ok(v) => v,
            Err(e) => {
                return Err(e);
            },
        };
        let v: i16 = if n >= 0x8000 {
            -((u16::MAX - n) as i16) - 1
        } else {
            n as i16
        };
        Ok(v)
    }

    /// Reads an unsigned 24-bit integer stored as three little-endian
    /// bytes, zero-extended to 32 bits.
    pub fn take_u24(&mut self) -> (r: Result<u32, DataError>)
        requires
            old(self).wf(),
        ensures
            final(self).wf(),
            old(self).spec_len() < 3 ==> r == Err::<u32, DataError>(DataError::InsufficientByte)
                && Self::unchanged(*old(self), *final(self)),
            old(self).spec_len() >= 3 ==> (r matches Ok(v) && v == le24(old(self).rem())
                && Self::advanced(*old(self), *final(self), 3)),
    {
        if self.len < 3 {
            return Err(DataError::InsufficientByte);
        }
        let b0 = self.buf[self.ptr];
        let b1 = self.buf[self.ptr + 1];
        let b2 = self.buf[self.ptr + 2];
        self.ptr = self.ptr + 3;
        self.len = self.len - 3;
        proof {
            assert(self.rem() =~= old(self).rem().skip(3));
        }
        Ok((b2 as u32) * 0x1_0000 + (b1 as u32) * 0x100 + (b0 as u32))
    }

    /// Reads an unsigned 32-bit big-endian integer.
    pub fn take_u32(&mut self) -> (r: Result<u32, DataError>)
        requires
            old(self).wf(),
        ensures
            final(self).wf(),
            old(self).spec_len() < 4 ==> r == Err::<u32, DataError>(DataError::InsufficientByte)
                && Self::unchanged(*old(self), *final(self)),
            old(self).spec_len() >= 4 ==> (r matches Ok(v) && v == be32(old(self).rem())
                && Self::advanced(*old(self), *final(self), 4)),
    {
        if self.len < 4 {
            return Err(DataError::InsufficientByte);
        }
        let b0 = self.buf[self.ptr];
        let b1 = self.buf[self.ptr + 1];
        let b2 = self.buf[self.ptr + 2];
        let b3 = self.buf[self.ptr + 3];
        self.ptr = self.ptr + 4;
        self.len = self.len - 4;
        proof {
            assert(self.rem() =~= old(self).rem().skip(4));
        }
        Ok((b0 as u32) * 0x100_0000 + (b1 as u32) * 0x1_0000 + (b2 as u32) * 0x100 + (b3 as u32))
    }

    /// Reads a signed 64-bit big-endian integer.
    pub fn take_i64(&mut self) -> (r: Result<i64, DataError>)
        requires
            old(self).wf(),
        ensures
            final(self).wf(),
            old(self).spec_len() < 8 ==> r == Err::<i64, DataError>(DataError::InsufficientByte)
                && Self::unchanged(*old(self), *final(self)),
            old(self).spec_len() >= 8 ==> (r matches Ok(v) && v == be_i64(old(self).rem())
                && Self::advanced(*old(self), *final(self), 8)),
    {
        if self.len < 8 {
            return Err(DataError::InsufficientByte);
        }
        let b0 = self.buf[self.ptr];
        let b1 = self.buf[self.ptr + 1];
        let b2 = self.buf[self.ptr + 2];
        let b3 = self.buf[self.ptr + 3];
        let b4 = self.buf[self.ptr + 4];
        let b5 = self.buf[self.ptr + 5];
        let b6 = self.buf[self.ptr + 6];
        let b7 = self.buf[self.ptr + 7];
        self.ptr = self.ptr + 8;
        self.len = self.len - 8;
        proof {
            assert(self.rem() =~= old(self).rem().skip(8));
        }
        let n: u64 = (b0 as u64) * 0x100_0000_0000_0000 + (b1 as u64) * 0x1_0000_0000_0000 + (
        b2 as u64) * 0x100_0000_0000 + (b3 as u64) * 0x1_0000_0000 + (b4 as u64) * 0x100_0000 + (
        b5 as u64) * 0x1_0000 + (b6 as u64) * 0x100 + (b7 as u64);
        let v: i64 = if n >= 0x8000_0000_0000_0000 {
            -((u64::MAX - n) as i64) - 1
        } else {
            n as i64
        };
        Ok(v)
    }

    /// Reads the 16-byte magic token without validating its value.
    pub fn take_magic(&mut self) -> (r: Result<Magic, DataError>)
        requires
            old(self).wf(),
        ensures
            final(self).wf(),
            old(self).spec_len() < 16 ==> r == Err::<Magic, DataError>(
                DataError::InsufficientByte,
            ) && Self::unchanged(*old(self), *final(self)),
            old(self).spec_len() >= 16 ==> (r matches Ok(m) && m.wf() && m.0@ == old(
                self,
            ).rem().take(16) && Self::advanced(*old(self), *final(self), 16)),
    {
        match self.take_bytes(16) {
            Ok(v) => Ok(Magic(v)),
            Err(e) => Err(e),
        }
    }

    /// Reads a timestamp: a signed 64-bit big-endian count of milliseconds
    /// since the Unix epoch. A negative count does not denote an instant
    /// and fails with `InvalidTime`, leaving the buffer as it was.
    pub fn take_time(&mut self) -> (r: Result<i64, DataError>)
        requires
            old(self).wf(),
        ensures
            final(self).wf(),
            old(self).spec_len() < 8 ==> r == Err::<i64, DataError>(DataError::InsufficientByte)
                && Self::unchanged(*old(self), *final(self)),
            old(self).spec_len() >= 8 && be_i64(old(self).rem()) < 0 ==> r == Err::<i64, DataError>(
                DataError::InvalidTime,
            ) && Self::unchanged(*old(self), *final(self)),
            old(self).spec_len() >= 8 && be_i64(old(self).rem()) >= 0 ==> (r matches Ok(v) && v
                == be_i64(old(self).rem()) && Self::advanced(*old(self), *final(self), 8)),
    {
        let saved_ptr = self.ptr;
        let saved_len = self.len;
        let n = match self.take_i64() {
            Ok(v) => v,
            Err(e) => {
                return Err(e);
            },
        };
        if n < 0 {
            self.ptr = saved_ptr;
            self.len = saved_len;
            return Err(DataError::InvalidTime);
        }
        Ok(n)
    }

    /// Reads a length-prefixed string: an unsigned 16-bit big-endian byte
    /// count, then that many bytes, which must form valid UTF-8. On any
    /// failure the buffer is left as it was.
    pub fn take_str(&mut self) -> (r: Result<String, DataError>)
        requires
            old(self).wf(),
        ensures
            final(self).wf(),
            ({
                let s = old(self).rem();
                &&& s.len() < 2 ==> r == Err::<String, DataError>(DataError::InsufficientByte)
                    && Self::unchanged(*old(self), *final(self))
                &&& s.len() >= 2 && s.len() - 2 < be16(s) ==> r == Err::<String, DataError>(
                    DataError::InsufficientByte,
                ) && Self::unchanged(*old(self), *final(self))
                &&& s.len() >= 2 && s.len() - 2 >= be16(s) && !vstd::utf8::valid_utf8(
                    s.subrange(2, 2 + be16(s)),
                ) ==> r == Err::<String, DataError>(DataError::Utf8Error) && Self::unchanged(
                    *old(self),
                    *final(self),
                )
                &&& s.len() >= 2 && s.len() - 2 >= be16(s) && vstd::utf8::valid_utf8(
                    s.subrange(2, 2 + be16(s)),
                ) ==> (r matches Ok(v) && v@ == vstd::utf8::decode_utf8(s.subrange(2, 2 + be16(s)))
                    && Self::advanced(*old(self), *final(self), 2 + be16(s)))
            }),
    {
        let saved_ptr = self.ptr;
        let saved_len = self.len;
        let n = match self.take_u16() {
            Ok(v) => v,
            Err(e) => {
                return Err(e);
            },
        };
        let bytes = match self.take_bytes(n as usize) {
            Ok(v) => v,
            Err(e) => {
                self.ptr = saved_ptr;
                self.len = saved_len;
                return Err(e);
            },
        };
        proof {
            assert(bytes@ =~= old(self).rem().subrange(2, 2 + be16(old(self).rem())));
            assert(self.rem() =~= old(self).rem().skip(2 + be16(old(self).rem())));
        }
        match bytes_to_string(bytes) {
            Some(s) => Ok(s),
            None => {
                self.ptr = saved_ptr;
                self.len = saved_len;
                Err(DataError::Utf8Error)
            },
        }
    }

    /// Reads a socket address. A 1-byte family tag selects the layout:
    /// family 4 is four address bytes then a big-endian port; family 6 is
    /// two bytes skipped, a little-endian port, four bytes skipped, sixteen
    /// address bytes, and four bytes skipped, matching the wire behaviour
    /// of reference implementations. Any other tag fails with
    /// `UnsupportedIpv`. On any failure the buffer is left as it was.
    pub fn take_address(&mut self) -> (r: Result<Addr, DataError>)
        requires
            old(self).wf(),
        ensures
            final(self).wf(),
            ({
                let s = old(self).rem();
                &&& s.len() < 1 ==> r == Err::<Addr, DataError>(DataError::InsufficientByte)
                    && Self::unchanged(*old(self), *final(self))
                &&& s.len() >= 1 && s[0] != 4 && s[0] != 6 ==> r == Err::<Addr, DataError>(
                    DataError::UnsupportedIpv(s[0]),
                ) && Self::unchanged(*old(self), *final(self))
                &&& s.len() >= 1 && (s[0] == 4 || s[0] == 6) && s.len() < addr_len(s) ==> r
                    == Err::<Addr, DataError>(DataError::InsufficientByte) && Self::unchanged(
                    *old(self),
                    *final(self),
                )
                &&& addr_ok(s) ==> (r matches Ok(a) && a.wf() && addr_matches(a, s)
                    && Self::advanced(*old(self), *final(self), addr_len(s)))
            }),
    {
        let saved_ptr = self.ptr;
        let saved_len = self.len;
        let ipv = match self.take_u8() {
            Ok(v) => v,
            Err(e) => {
                return Err(e);
            },
        };
        match ipv {
            4 => {
                let ip = match self.take_bytes(4) {
                    Ok(v) => v,
                    Err(e) => {
                        self.ptr = saved_ptr;
                        self.len = saved_len;
                        return Err(e);
                    },
                };
                let port = match self.take_u16() {
                    Ok(v) => v,
                    Err(e) => {
                        self.ptr = saved_ptr;
                        self.len = saved_len;
                        return Err(e);
                    },
                };
                proof {
                    assert(ip@ =~= old(self).rem().subrange(1, 5));
                    assert(old(self).rem().skip(1).skip(4) =~= old(self).rem().skip(5));
                    assert(self.rem() =~= old(self).rem().skip(7));
                }
                Ok(Addr::V4 { ip, port })
            },
            6 => {
                if self.len < 28 {
                    self.ptr = saved_ptr;
                    self.len = saved_len;
                    return Err(DataError::InsufficientByte);
                }
                match self.advance(2) {
                    Ok(_) => {},
                    Err(e) => {
                        self.ptr = saved_ptr;
                        self.len = saved_len;
                        return Err(e);
                    },
                }
                let port = match self.take_u16_le() {
                    Ok(v) => v,
                    Err(e) => {
                        self.ptr = saved_ptr;
                        self.len = saved_len;
                        return Err(e);
                    },
                };
                match self.advance(4) {
                    Ok(_) => {},
                    Err(e) => {
                        self.ptr = saved_ptr;
                        self.len = saved_len;
                        return Err(e);
                    },
                }
                let ip = match self.take_bytes(16) {
                    Ok(v) => v,
                    Err(e) => {
                        self.ptr = saved_ptr;
                        self.len = saved_len;
                        return Err(e);
                    },
                };
                match self.advance(4) {
                    Ok(_) => {},
                    Err(e) => {
                        self.ptr = saved_ptr;
                        self.len = saved_len;
                        return Err(e);
                    },
                }
                proof {
                    assert(ip@ =~= old(self).rem().subrange(9, 25));
                    assert(old(self).rem().skip(1).skip(2) =~= old(self).rem().skip(3));
                    assert(self.rem() =~= old(self).rem().skip(29));
                }
                Ok(Addr::V6 { ip, port })
            },
            n => {
                self.ptr = saved_ptr;
                self.len = saved_len;
                Err(DataError::UnsupportedIpv(n))
            },
        }
    }

    /// Reads `count` consecutive socket addresses. The first incomplete
    /// address aborts the read with its own failure.
    pub(crate) fn take_addresses(&mut self, count: usize) -> (r: Result<Vec<Addr>, DataError>)
        requires
            old(self).wf(),
        ensures
            final(self).wf(),
            final(self).spec_data() == old(self).spec_data(),
            ({
                let s = old(self).rem();
                &&& addrs_ok(s, count as nat) <==> r is Ok
                &&& r matches Ok(v) ==> addrs_match(v@, s, count as nat) && Self::advanced(
                    *old(self),
                    *final(self),
                    addrs_width(s, count as nat),
                )
                &&& !addrs_ok(s, count as nat) ==> r == Err::<Vec<Addr>, DataError>(
                    addrs_err(s, count as nat),
                )
            }),
    {
        proof {
            assert(old(self).rem().skip(0) =~= old(self).rem());
        }
        let mut out: Vec<Addr> = Vec::new();
        let mut i: usize = 0;
        while i < count
            invariant
                i <= count,
                self.wf(),
                old(self).wf(),
                addrs_ok(old(self).rem(), i as nat),
                addrs_match(out@, old(self).rem(), i as nat),
                SizedBuffer::advanced(
                    *old(self),
                    *self,
                    addrs_width(old(self).rem(), i as nat),
                ),
            decreases count - i,
        {
            let ghost s = old(self).rem();
            let ghost w = addrs_width(s, i as nat);
            let a = match self.take_address() {
                Ok(v) => v,
                Err(e) => {
                    proof {
                        lemma_addrs_fail(s, i as nat, count as nat);
                    }
                    return Err(e);
                },
            };
            proof {
                lemma_addrs_snoc(out@, a, s, i as nat);
                lemma_addrs_width_bounds(s, (i + 1) as nat);
                assert(self.rem() =~= s.skip(addrs_width(s, (i + 1) as nat)));
            }
            out.push(a);
            i = i + 1;
        }
        Ok(out)
    }
}

} // verus!
