use crate::error::ReadError;
use vstd::prelude::*;
use vstd::slice::*;

verus! {

/// What reading one item from a byte sequence gives: the item, or the reason
/// why there is none, and the position at which the reading stopped.
///
/// A reading that runs out of bytes stops at the end of the sequence; every
/// other reading stops behind the last byte that it looked at.
pub struct Step<T> {
    pub outcome: Result<T, ReadError>,
    pub end: int,
}

impl<T> Step<T> {
    /// The item `value` was read, and the reading stopped at `end`.
    pub open spec fn ok(value: T, end: int) -> Step<T> {
        Step { outcome: Ok(value), end }
    }

    /// Nothing was read because of `error`, and the reading stopped at `end`.
    pub open spec fn fail(error: ReadError, end: int) -> Step<T> {
        Step { outcome: Err(error), end }
    }

    /// The sequence ended before the item did.
    pub open spec fn cut_short(bytes: Seq<u8>) -> Step<T> {
        Step { outcome: Err(ReadError::UnexpectedEnd), end: bytes.len() as int }
    }
}

/// The reading `step` of a list, with the items `earlier` put before the
/// items that it read.
pub open spec fn preceded_by<T>(earlier: Seq<T>, step: Step<Seq<T>>) -> Step<Seq<T>> {
    match step.outcome {
        Ok(later) => Step::ok(earlier + later, step.end),
        Err(error) => Step::fail(error, step.end),
    }
}

/// `bytes` holds `count` bytes from position `pos` on.
pub open spec fn has_bytes(bytes: Seq<u8>, pos: int, count: int) -> bool {
    0 <= pos && 0 <= count && pos + count <= bytes.len()
}

/// The unsigned number that the two bytes at `pos` spell, low byte first.
pub open spec fn le_u16(bytes: Seq<u8>, pos: int) -> u16 {
    (bytes[pos] + 0x100 * bytes[pos + 1]) as u16
}

/// The signed number that the two bytes at `pos` spell in two's complement,
/// low byte first.
pub open spec fn le_i16(bytes: Seq<u8>, pos: int) -> i16 {
    let unsigned = bytes[pos] + 0x100 * bytes[pos + 1];
    if unsigned < 0x8000 {
        unsigned as i16
    } else {
        (unsigned - 0x1_0000) as i16
    }
}

/// The unsigned number that the four bytes at `pos` spell, low byte first.
pub open spec fn le_u32(bytes: Seq<u8>, pos: int) -> u32 {
    (bytes[pos] + 0x100 * bytes[pos + 1] + 0x1_0000 * bytes[pos + 2] + 0x100_0000 * bytes[pos
        + 3]) as u32
}

/// Reading one byte at `pos`.
pub open spec fn u8_at(bytes: Seq<u8>, pos: int) -> Step<u8> {
    if has_bytes(bytes, pos, 1) {
        Step::ok(bytes[pos], pos + 1)
    } else {
        Step::cut_short(bytes)
    }
}

/// Reading an unsigned 16-bit number at `pos`.
pub open spec fn u16_at(bytes: Seq<u8>, pos: int) -> Step<u16> {
    if has_bytes(bytes, pos, 2) {
        Step::ok(le_u16(bytes, pos), pos + 2)
    } else {
        Step::cut_short(bytes)
    }
}

/// Reading a signed 16-bit number at `pos`.
pub open spec fn i16_at(bytes: Seq<u8>, pos: int) -> Step<i16> {
    if has_bytes(bytes, pos, 2) {
        Step::ok(le_i16(bytes, pos), pos + 2)
    } else {
        Step::cut_short(bytes)
    }
}

/// Reading an unsigned 32-bit number at `pos`.
pub open spec fn u32_at(bytes: Seq<u8>, pos: int) -> Step<u32> {
    if has_bytes(bytes, pos, 4) {
        Step::ok(le_u32(bytes, pos), pos + 4)
    } else {
        Step::cut_short(bytes)
    }
}

/// Reading `count` bytes at `pos`.
pub open spec fn bytes_at(bytes: Seq<u8>, pos: int, count: int) -> Step<Seq<u8>> {
    if has_bytes(bytes, pos, count) {
        Step::ok(bytes.subrange(pos, pos + count), pos + count)
    } else {
        Step::cut_short(bytes)
    }
}

/// A position in a byte slice that only moves forward.
///
/// Each read takes the bytes of one item and moves past them. A read for
/// which too few bytes are left takes them all: it reports
/// [`ReadError::UnexpectedEnd`] and leaves the cursor at the end of the
/// slice, so that every later read of at least one byte fails in the same
/// way.
pub struct ByteCursor<'a> {
    input: &'a [u8],
    offset: usize,
}

impl<'a> ByteCursor<'a> {
    #[verifier::type_invariant]
    spec fn in_bounds(self) -> bool {
        self.offset <= self.input@.len()
    }

    /// The bytes that the cursor moves over, read or not.
    pub closed spec fn bytes(self) -> Seq<u8> {
        self.input@
    }

    /// The number of bytes that have been read.
    pub closed spec fn position(self) -> int {
        self.offset as int
    }

    /// A cursor at the start of `input`.
    pub fn new(input: &'a [u8]) -> (cursor: Self)
        ensures
            cursor.bytes() == input@,
            cursor.position() == 0,
    {
        ByteCursor { input, offset: 0 }
    }

    /// The number of bytes that have been read.
    pub fn consumed(&self) -> (count: usize)
        ensures
            count == self.position(),
    {
        self.offset
    }

    /// The number of bytes that are left to read.
    pub fn remaining(&self) -> (count: usize)
        ensures
            count == self.bytes().len() - self.position(),
    {
        proof {
            use_type_invariant(self);
        }
        self.input.len() - self.offset
    }

    /// Moves past `count` bytes and returns the position of the first of
    /// them, or moves to the end if fewer are left.
    fn claim(&mut self, count: usize) -> (start: Option<usize>)
        ensures
            final(self).bytes() == old(self).bytes(),
            match start {
                Some(first) => {
                    &&& first == old(self).position()
                    &&& has_bytes(old(self).bytes(), first as int, count as int)
                    &&& final(self).position() == first + count
                },
                None => {
                    &&& !has_bytes(old(self).bytes(), old(self).position(), count as int)
                    &&& final(self).position() == old(self).bytes().len()
                },
            },
    {
        proof {
            use_type_invariant(&*self);
        }
        let first = self.offset;
        if self.input.len() - first < count {
            self.offset = self.input.len();
            None
        } else {
            self.offset = first + count;
            Some(first)
        }
    }

    /// Reads one byte.
    pub fn read_u8(&mut self) -> (value: Result<u8, ReadError>)
        ensures
            final(self).bytes() == old(self).bytes(),
            final(self).position() == u8_at(old(self).bytes(), old(self).position()).end,
            value == u8_at(old(self).bytes(), old(self).position()).outcome,
    {
        match self.claim(1) {
            None => Err(ReadError::UnexpectedEnd),
            Some(first) => Ok(self.input[first]),
        }
    }

    /// Reads an unsigned 16-bit number, low byte first.
    pub fn read_u16(&mut self) -> (value: Result<u16, ReadError>)
        ensures
            final(self).bytes() == old(self).bytes(),
            final(self).position() == u16_at(old(self).bytes(), old(self).position()).end,
            value == u16_at(old(self).bytes(), old(self).position()).outcome,
    {
        match self.claim(2) {
            None => Err(ReadError::UnexpectedEnd),
            Some(first) => {
                let low = self.input[first] as u16;
                let high = self.input[first + 1] as u16;
                Ok(low + 0x100 * high)
            },
        }
    }

    /// Reads a signed 16-bit number in two's complement, low byte first.
    pub fn read_i16(&mut self) -> (value: Result<i16, ReadError>)
        ensures
            final(self).bytes() == old(self).bytes(),
            final(self).position() == i16_at(old(self).bytes(), old(self).position()).end,
            value == i16_at(old(self).bytes(), old(self).position()).outcome,
    {
        match self.claim(2) {
            None => Err(ReadError::UnexpectedEnd),
            Some(first) => {
                let low = self.input[first] as i32;
                let high = self.input[first + 1] as i32;
                let unsigned: i32 = low + 0x100 * high;
                if unsigned < 0x8000 {
                    Ok(unsigned as i16)
                } else {
                    Ok((unsigned - 0x1_0000) as i16)
                }
            },
        }
    }

    /// Reads an unsigned 32-bit number, low byte first.
    pub fn read_u32(&mut self) -> (value: Result<u32, ReadError>)
        ensures
            final(self).bytes() == old(self).bytes(),
            final(self).position() == u32_at(old(self).bytes(), old(self).position()).end,
            value == u32_at(old(self).bytes(), old(self).position()).outcome,
    {
        match self.claim(4) {
            None => Err(ReadError::UnexpectedEnd),
            Some(first) => {
                let b0 = self.input[first] as u32;
                let b1 = self.input[first + 1] as u32;
                let b2 = self.input[first + 2] as u32;
                let b3 = self.input[first + 3] as u32;
                Ok(b0 + 0x100 * b1 + 0x1_0000 * b2 + 0x100_0000 * b3)
            },
        }
    }

    /// Reads `count` bytes.
    pub fn read_bytes(&mut self, count: usize) -> (value: Result<Vec<u8>, ReadError>)
        ensures
            final(self).bytes() == old(self).bytes(),
            final(self).position() == bytes_at(
                old(self).bytes(),
                old(self).position(),
                count as int,
            ).end,
            match value {
                Ok(taken) => bytes_at(old(self).bytes(), old(self).position(), count as int).outcome
                    == Ok::<Seq<u8>, ReadError>(taken@),
                Err(error) => bytes_at(
                    old(self).bytes(),
                    old(self).position(),
                    count as int,
                ).outcome == Err::<Seq<u8>, ReadError>(error),
            },
    {
        match self.claim(count) {
            None => Err(ReadError::UnexpectedEnd),
            Some(first) => Ok(slice_to_vec(slice_subrange(self.input, first, first + count))),
        }
    }
}

} // verus!
