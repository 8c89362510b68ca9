//! Little-endian reads over a borrowed byte buffer.

use crate::error::FormatError;
use byteorder::{ByteOrder, LittleEndian};
use vstd::prelude::*;
use vstd::slice::slice_subrange;

verus! {

/// Whether the `n` bytes starting at `at` all lie inside `data`.
pub open spec fn in_bounds(data: Seq<u8>, at: int, n: int) -> bool {
    0 <= at && 0 <= n && at + n <= data.len()
}

/// The unsigned 16-bit value stored at `at`, least significant byte first.
pub open spec fn le_u16_at(data: Seq<u8>, at: int) -> u16 {
    (data[at] as int + 0x100 * (data[at + 1] as int)) as u16
}

/// The unsigned 32-bit value stored at `at`, least significant byte first.
pub open spec fn le_u32_at(data: Seq<u8>, at: int) -> u32 {
    (data[at] as int + 0x100 * (data[at + 1] as int) + 0x1_0000 * (data[at + 2] as int)
        + 0x100_0000 * (data[at + 3] as int)) as u32
}

/// Whether `count` consecutive 32-bit words starting at `at` all lie inside
/// `data`. No words are always present, wherever `at` points.
pub open spec fn words_present(data: Seq<u8>, at: int, count: int) -> bool {
    count <= 0 || in_bounds(data, at, 4 * count)
}

/// The word number `k` of a block that starts at `at`, or zero where the
/// buffer ends before it.
pub open spec fn word_or_zero(data: Seq<u8>, at: int, k: int) -> u32 {
    if in_bounds(data, at + 4 * k, 4) {
        le_u32_at(data, at + 4 * k)
    } else {
        0
    }
}

/// The byte number `k` of a block that starts at `at`, or zero where the
/// buffer ends before it.
pub open spec fn byte_or_zero(data: Seq<u8>, at: int, k: int) -> u8 {
    if in_bounds(data, at + k, 1) {
        data[at + k]
    } else {
        0
    }
}

/// A block of `count` words starting at `at`, with zero in place of each
/// word that the buffer does not hold.
pub open spec fn word_block(data: Seq<u8>, at: int, count: int) -> Seq<u32> {
    Seq::new(
        if count < 0 {
            0
        } else {
            count as nat
        },
        |k: int| word_or_zero(data, at, k),
    )
}

/// A block of `count` bytes starting at `at`, with zero in place of each
/// byte that the buffer does not hold.
pub open spec fn byte_block(data: Seq<u8>, at: int, count: int) -> Seq<u8> {
    Seq::new(
        if count < 0 {
            0
        } else {
            count as nat
        },
        |k: int| byte_or_zero(data, at, k),
    )
}

/// Trusted: `byteorder::LittleEndian::read_u16`. The crate reads the first
/// two bytes of `buf` as an unsigned integer, low byte first, and panics on
/// a shorter slice, which the precondition rules out.
#[verifier::external_body]
fn le_read_u16(buf: &[u8]) -> (v: u16)
    requires
        buf@.len() >= 2,
    ensures
        v == le_u16_at(buf@, 0),
{
    LittleEndian::read_u16(buf)
}

/// Trusted: `byteorder::LittleEndian::read_u32`. The crate reads the first
/// four bytes of `buf` as an unsigned integer, low byte first, and panics on
/// a shorter slice, which the precondition rules out.
#[verifier::external_body]
fn le_read_u32(buf: &[u8]) -> (v: u32)
    requires
        buf@.len() >= 4,
    ensures
        v == le_u32_at(buf@, 0),
{
    LittleEndian::read_u32(buf)
}

/// A read position over a borrowed buffer.
///
/// The position may be moved anywhere, also past the end; only a read
/// checks it. A read that succeeds advances the position by the width of
/// what was read, and a read that fails leaves it where it was.
pub struct ByteCursor<'a> {
    data: &'a [u8],
    pos: u64,
}

impl<'a> ByteCursor<'a> {
    /// The bytes under the cursor.
    pub closed spec fn bytes(&self) -> Seq<u8> {
        self.data@
    }

    /// The read position, counted from the start of the buffer.
    pub closed spec fn offset(&self) -> u64 {
        self.pos
    }

    /// Whether a read of `n` bytes at the current position stays inside the
    /// buffer.
    pub open spec fn can_read(&self, n: int) -> bool {
        in_bounds(self.bytes(), self.offset() as int, n)
    }

    /// A cursor at the start of `data`.
    pub fn new(data: &'a [u8]) -> (cursor: Self)
        ensures
            cursor.bytes() == data@,
            cursor.offset() == 0,
    {
        ByteCursor { data, pos: 0 }
    }

    /// The read position, counted from the start of the buffer.
    pub fn position(&self) -> (pos: u64)
        ensures
            pos == self.offset(),
    {
        self.pos
    }

    /// Absolute seek.
    pub fn seek(&mut self, pos: u64)
        ensures
            final(self).bytes() == old(self).bytes(),
            final(self).offset() == pos,
    {
        self.pos = pos;
    }

    /// Relative seek forward; the position stops at `u64::MAX`.
    pub fn skip(&mut self, n: u64)
        ensures
            final(self).bytes() == old(self).bytes(),
            final(self).offset() == if old(self).offset() + n <= u64::MAX {
                old(self).offset() + n
            } else {
                u64::MAX as int
            },
    {
        if n <= u64::MAX - self.pos {
            self.pos = self.pos + n;
        } else {
            self.pos = u64::MAX;
        }
    }

    /// The next `n` bytes, if the buffer holds them.
    fn take(&mut self, n: usize) -> (r: Result<&'a [u8], FormatError>)
        ensures
            final(self).bytes() == old(self).bytes(),
            match r {
                Ok(piece) => {
                    &&& old(self).can_read(n as int)
                    &&& piece@ == old(self).bytes().subrange(
                        old(self).offset() as int,
                        old(self).offset() + n,
                    )
                    &&& final(self).offset() == old(self).offset() + n
                },
                Err(e) => {
                    &&& e == FormatError::TruncatedInput
                    &&& !old(self).can_read(n as int)
                    &&& final(self).offset() == old(self).offset()
                },
            },
    {
        let len: usize = self.data.len();
        if n <= len && self.pos <= (len - n) as u64 {
            let start: usize = self.pos as usize;
            let piece = slice_subrange(self.data, start, start + n);
            self.pos = self.pos + n as u64;
            Ok(piece)
        } else {
            Err(FormatError::TruncatedInput)
        }
    }

    /// Reads one byte.
    pub fn read_u8(&mut self) -> (r: Result<u8, FormatError>)
        ensures
            final(self).bytes() == old(self).bytes(),
            match r {
                Ok(v) => {
                    &&& old(self).can_read(1)
                    &&& v == old(self).bytes()[old(self).offset() as int]
                    &&& final(self).offset() == old(self).offset() + 1
                },
                Err(e) => {
                    &&& e == FormatError::TruncatedInput
                    &&& !old(self).can_read(1)
                    &&& final(self).offset() == old(self).offset()
                },
            },
    {
        match self.take(1) {
            Ok(piece) => Ok(piece[0]),
            Err(e) => Err(e),
        }
    }

    /// Reads an unsigned 16-bit integer.
    pub fn read_u16(&mut self) -> (r: Result<u16, FormatError>)
        ensures
            final(self).bytes() == old(self).bytes(),
            match r {
                Ok(v) => {
                    &&& old(self).can_read(2)
                    &&& v == le_u16_at(old(self).bytes(), old(self).offset() as int)
                    &&& final(self).offset() == old(self).offset() + 2
                },
                Err(e) => {
                    &&& e == FormatError::TruncatedInput
                    &&& !old(self).can_read(2)
                    &&& final(self).offset() == old(self).offset()
                },
            },
    {
        match self.take(2) {
            Ok(piece) => Ok(le_read_u16(piece)),
            Err(e) => Err(e),
        }
    }

    /// Reads an unsigned 32-bit integer.
    pub fn read_u32(&mut self) -> (r: Result<u32, FormatError>)
        ensures
            final(self).bytes() == old(self).bytes(),
            match r {
                Ok(v) => {
                    &&& old(self).can_read(4)
                    &&& v == le_u32_at(old(self).bytes(), old(self).offset() as int)
                    &&& final(self).offset() == old(self).offset() + 4
                },
                Err(e) => {
                    &&& e == FormatError::TruncatedInput
                    &&& !old(self).can_read(4)
                    &&& final(self).offset() == old(self).offset()
                },
            },
    {
        match self.take(4) {
            Ok(piece) => Ok(le_read_u32(piece)),
            Err(e) => Err(e),
        }
    }

    /// Reads a 32-bit IEEE-754 number and hands out its bit pattern.
    pub fn read_float_bits(&mut self) -> (r: Result<u32, FormatError>)
        ensures
            final(self).bytes() == old(self).bytes(),
            match r {
                Ok(v) => {
                    &&& old(self).can_read(4)
                    &&& v == le_u32_at(old(self).bytes(), old(self).offset() as int)
                    &&& final(self).offset() == old(self).offset() + 4
                },
                Err(e) => {
                    &&& e == FormatError::TruncatedInput
                    &&& !old(self).can_read(4)
                    &&& final(self).offset() == old(self).offset()
                },
            },
    {
        self.read_u32()
    }
}

/// Appends to `out` the `count` words that start at byte `at`, or fails and
/// appends nothing if the buffer holds fewer.
pub fn read_words(data: &[u8], at: u64, count: u64, out: &mut Vec<u32>) -> (r: Result<
    (),
    FormatError,
>)
    ensures
        match r {
            Ok(_) => {
                &&& words_present(data@, at as int, count as int)
                &&& final(out)@ == old(out)@ + word_block(data@, at as int, count as int)
            },
            Err(e) => {
                &&& e == FormatError::TruncatedInput
                &&& !words_present(data@, at as int, count as int)
                &&& final(out)@ == old(out)@
            },
        },
{
    if count == 0 {
        assert(out@ =~= old(out)@ + word_block(data@, at as int, 0));
        return Ok(());
    }
    let len: u64 = data.len() as u64;
    if at > len || count > (len - at) / 4 {
        return Err(FormatError::TruncatedInput);
    }
    let mut cursor = ByteCursor::new(data);
    cursor.seek(at);
    let mut k: u64 = 0;
    while k < count
        invariant
            k <= count,
            cursor.bytes() == data@,
            cursor.offset() == at + 4 * k,
            in_bounds(data@, at as int, 4 * count),
            out@ == old(out)@ + word_block(data@, at as int, k as int),
        decreases count - k,
    {
        match cursor.read_u32() {
            Ok(v) => {
                out.push(v);
            },
            Err(e) => {
                return Err(e);
            },
        }
        assert(out@ =~= old(out)@ + word_block(data@, at as int, k + 1));
        k += 1;
    }
    Ok(())
}

/// Appends to `out` a block of `count` words that starts at byte `at`, with
/// zero for every word that the buffer does not hold.
pub fn read_words_or_zero(data: &[u8], at: u64, count: u64, out: &mut Vec<u32>)
    ensures
        final(out)@ == old(out)@ + word_block(data@, at as int, count as int),
{
    let mut cursor = ByteCursor::new(data);
    cursor.seek(at);
    let mut k: u64 = 0;
    assert(out@ =~= old(out)@ + word_block(data@, at as int, 0));
    while k < count
        invariant
            k <= count,
            cursor.bytes() == data@,
            at <= cursor.offset() <= at + 4 * k,
            cursor.offset() == at + 4 * k || !cursor.can_read(4),
            out@ == old(out)@ + word_block(data@, at as int, k as int),
        decreases count - k,
    {
        let v: u32 = match cursor.read_u32() {
            Ok(v) => v,
            Err(_) => 0,
        };
        out.push(v);
        assert(out@ =~= old(out)@ + word_block(data@, at as int, k + 1));
        k += 1;
    }
}

/// Appends to `out` a block of `count` bytes that starts at byte `at`, with
/// zero for every byte that the buffer does not hold.
pub fn read_bytes_or_zero(data: &[u8], at: u64, count: u64, out: &mut Vec<u8>)
    ensures
        final(out)@ == old(out)@ + byte_block(data@, at as int, count as int),
{
    let mut cursor = ByteCursor::new(data);
    cursor.seek(at);
    let mut k: u64 = 0;
    assert(out@ =~= old(out)@ + byte_block(data@, at as int, 0));
    while k < count
        invariant
            k <= count,
            cursor.bytes() == data@,
            at <= cursor.offset() <= at + k,
            cursor.offset() == at + k || !cursor.can_read(1),
            out@ == old(out)@ + byte_block(data@, at as int, k as int),
        decreases count - k,
    {
        let v: u8 = match cursor.read_u8() {
            Ok(v) => v,
            Err(_) => 0,
        };
        out.push(v);
        assert(out@ =~= old(out)@ + byte_block(data@, at as int, k + 1));
        k += 1;
    }
}

} // verus!
