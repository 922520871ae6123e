use byteorder::{ByteOrder, LittleEndian};
use vstd::prelude::*;

verus! {

/// Why decoding a container failed.
#[derive(Debug, Clone, Copy, PartialEq, Eq, Structural)]
pub enum DecodeError {
    /// Fewer bytes were available than a read asked for.
    UnexpectedEof,
    /// A `NAME` payload is not UTF-8 text.
    InvalidName,
    /// An `OFFT` payload is shorter than the three 64-bit slots it must hold.
    OffsetTableTooShort,
}

/// The unsigned integer that `b` encodes, least significant byte first.
pub open spec fn le_nat(b: Seq<u8>) -> nat
    decreases b.len(),
{
    if b.len() == 0 {
        0
    } else {
        b[0] as nat + 256 * le_nat(b.drop_first())
    }
}

/// `n` bytes of `data` are available from `pos` on.
pub open spec fn fits(data: Seq<u8>, pos: int, n: int) -> bool {
    0 <= pos && 0 <= n && pos + n <= data.len()
}

/// The `n` bytes of `data` that start at `pos`.
pub open spec fn window(data: Seq<u8>, pos: int, n: int) -> Seq<u8> {
    data.subrange(pos, pos + n)
}

/// The little-endian integer held by the `n` bytes of `data` at `pos`.
pub open spec fn le_at(data: Seq<u8>, pos: int, n: int) -> nat {
    le_nat(window(data, pos, n))
}

/// Relies on byteorder's `LittleEndian::read_u16`: the first two bytes, low byte first.
#[verifier::external_body]
fn le_u16(b: &[u8]) -> (r: u16)
    requires
        b@.len() >= 2,
    ensures
        r as nat == le_nat(b@.subrange(0, 2)),
{
    LittleEndian::read_u16(b)
}

/// Relies on byteorder's `LittleEndian::read_u32`: the first four bytes, low byte first.
#[verifier::external_body]
fn le_u32(b: &[u8]) -> (r: u32)
    requires
        b@.len() >= 4,
    ensures
        r as nat == le_nat(b@.subrange(0, 4)),
{
    LittleEndian::read_u32(b)
}

/// Relies on byteorder's `LittleEndian::read_u64`: the first eight bytes, low byte first.
#[verifier::external_body]
pub(crate) fn le_u64(b: &[u8]) -> (r: u64)
    requires
        b@.len() >= 8,
    ensures
        r as nat == le_nat(b@.subrange(0, 8)),
{
    LittleEndian::read_u64(b)
}

/// A random-access byte source: the bytes of a container and a cursor into them.
///
/// The cursor may be placed anywhere, also past the end; a read that asks for
/// bytes that are not there fails and leaves the cursor where it was.
pub struct ByteSource {
    data: Vec<u8>,
    pos: u64,
}

impl ByteSource {
    /// The bytes of the source.
    pub closed spec fn data(&self) -> Seq<u8> {
        self.data@
    }

    /// Where the cursor stands.
    pub closed spec fn pos(&self) -> int {
        self.pos as int
    }

    /// A source over `data`, with the cursor at its start.
    pub fn new(data: Vec<u8>) -> (r: ByteSource)
        ensures
            r.data() == data@,
            r.pos() == 0,
    {
        ByteSource { data, pos: 0 }
    }

    /// The number of bytes in the source.
    pub fn len(&self) -> (r: usize)
        ensures
            r == self.data().len(),
    {
        self.data.len()
    }

    /// Where the cursor stands.
    pub fn position(&self) -> (r: u64)
        ensures
            r == self.pos(),
    {
        self.pos
    }

    /// Places the cursor at the absolute offset `pos`.
    pub fn seek(&mut self, pos: u64)
        ensures
            final(self).data() == old(self).data(),
            final(self).pos() == pos,
    {
        self.pos = pos;
    }

    /// Moves the cursor `n` bytes forward, over bytes that must be there.
    pub fn skip(&mut self, n: u64) -> (r: Result<(), DecodeError>)
        ensures
            final(self).data() == old(self).data(),
            r is Ok <==> fits(old(self).data(), old(self).pos(), n as int),
            r is Ok ==> final(self).pos() == old(self).pos() + n,
            r is Err ==> r == Err::<(), DecodeError>(DecodeError::UnexpectedEof)
                && final(self).pos() == old(self).pos(),
    {
        let len = self.data.len() as u64;
        if self.pos > len || n > len - self.pos {
            return Err(DecodeError::UnexpectedEof);
        }
        self.pos = self.pos + n;
        Ok(())
    }

    /// Reads the next `n` bytes and moves the cursor past them.
    pub fn read_bytes(&mut self, n: u64) -> (r: Result<Vec<u8>, DecodeError>)
        ensures
            final(self).data() == old(self).data(),
            r is Ok <==> fits(old(self).data(), old(self).pos(), n as int),
            r is Ok ==> r->Ok_0@ == window(old(self).data(), old(self).pos(), n as int)
                && final(self).pos() == old(self).pos() + n,
            r is Err ==> r == Err::<Vec<u8>, DecodeError>(DecodeError::UnexpectedEof)
                && final(self).pos() == old(self).pos(),
    {
        let len = self.data.len() as u64;
        if self.pos > len || n > len - self.pos {
            return Err(DecodeError::UnexpectedEof);
        }
        let start = self.pos as usize;
        let end = (self.pos + n) as usize;
        let mut out: Vec<u8> = Vec::new();
        let mut i: usize = start;
        while i < end
            invariant
                start <= i <= end,
                end <= self.data@.len(),
                out@ == self.data@.subrange(start as int, i as int),
            decreases end - i,
        {
            out.push(self.data[i]);
            proof {
                assert(out@ =~= self.data@.subrange(start as int, i + 1));
            }
            i = i + 1;
        }
        self.pos = self.pos + n;
        Ok(out)
    }
    /// Reads a little-endian `u16` and moves the cursor past it.
    pub fn read_u16_le(&mut self) -> (r: Result<u16, DecodeError>)
        ensures
            final(self).data() == old(self).data(),
            r is Ok <==> fits(old(self).data(), old(self).pos(), 2),
            r is Ok ==> r->Ok_0 as nat == le_at(old(self).data(), old(self).pos(), 2)
                && final(self).pos() == old(self).pos() + 2,
            r is Err ==> r == Err::<u16, DecodeError>(DecodeError::UnexpectedEof)
                && final(self).pos() == old(self).pos(),
    {
        let b = self.read_bytes(2)?;
        proof {
            assert(b@.subrange(0, 2) =~= b@);
        }
        Ok(le_u16(b.as_slice()))
    }

    /// Reads a little-endian `u32` and moves the cursor past it.
    pub fn read_u32_le(&mut self) -> (r: Result<u32, DecodeError>)
        ensures
            final(self).data() == old(self).data(),
            r is Ok <==> fits(old(self).data(), old(self).pos(), 4),
            r is Ok ==> r->Ok_0 as nat == le_at(old(self).data(), old(self).pos(), 4)
                && final(self).pos() == old(self).pos() + 4,
            r is Err ==> r == Err::<u32, DecodeError>(DecodeError::UnexpectedEof)
                && final(self).pos() == old(self).pos(),
    {
        let b = self.read_bytes(4)?;
        proof {
            assert(b@.subrange(0, 4) =~= b@);
        }
        Ok(le_u32(b.as_slice()))
    }

    /// Reads a little-endian `u64` and moves the cursor past it.
    pub fn read_u64_le(&mut self) -> (r: Result<u64, DecodeError>)
        ensures
            final(self).data() == old(self).data(),
            r is Ok <==> fits(old(self).data(), old(self).pos(), 8),
            r is Ok ==> r->Ok_0 as nat == le_at(old(self).data(), old(self).pos(), 8)
                && final(self).pos() == old(self).pos() + 8,
            r is Err ==> r == Err::<u64, DecodeError>(DecodeError::UnexpectedEof)
                && final(self).pos() == old(self).pos(),
    {
        let b = self.read_bytes(8)?;
        proof {
            assert(b@.subrange(0, 8) =~= b@);
        }
        Ok(le_u64(b.as_slice()))
    }
}

} // verus!
