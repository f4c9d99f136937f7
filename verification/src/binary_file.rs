//! A binary file opened for typed reads at arbitrary offsets: the bounds that
//! every seek and bulk read is checked against, and the values that the bytes
//! read from the file decode to.
//!
//! The file keeps the length it had when it was opened. Its read position is
//! kept by the reader that moves through the file; the checks here take that
//! position as an argument and answer where the reader may go, or how many
//! bytes it may read, or why the request is refused.
use vstd::prelude::*;

use crate::byte_order::{lemma_value_bound, pow256, ByteOrder};
use crate::file_error::BinaryFileError;

verus! {

/// The bulk reads, each named as in the message of its refusal.
#[derive(Clone, Copy, Debug, PartialEq, Eq, Structural)]
pub enum VecKind {
    F32,
    F64,
    U32,
    I32,
    I64,
}

impl VecKind {
    /// The name of the bulk read.
    pub open spec fn spec_name(self) -> Seq<char> {
        match self {
            VecKind::F32 => "read_f32_vec"@,
            VecKind::F64 => "read_f64_vec"@,
            VecKind::U32 => "read_u32_vec"@,
            VecKind::I32 => "read_i32_vec"@,
            VecKind::I64 => "read_i64_vec"@,
        }
    }

    /// The size in bytes of one element.
    pub open spec fn spec_elem_size(self) -> nat {
        match self {
            VecKind::F32 | VecKind::U32 | VecKind::I32 => 4,
            VecKind::F64 | VecKind::I64 => 8,
        }
    }

    /// The name of the bulk read.
    pub fn name(self) -> (s: &'static str)
        ensures
            s@ == self.spec_name(),
    {
        match self {
            VecKind::F32 => "read_f32_vec",
            VecKind::F64 => "read_f64_vec",
            VecKind::U32 => "read_u32_vec",
            VecKind::I32 => "read_i32_vec",
            VecKind::I64 => "read_i64_vec",
        }
    }

    /// The size in bytes of one element.
    pub fn elem_size(self) -> (n: usize)
        ensures
            n == self.spec_elem_size(),
    {
        match self {
            VecKind::F32 | VecKind::U32 | VecKind::I32 => 4,
            VecKind::F64 | VecKind::I64 => 8,
        }
    }
}

/// The two's complement reading of a 32-bit pattern `v`.
pub open spec fn signed32(v: nat) -> int {
    if v < 0x8000_0000 {
        v as int
    } else {
        v - 0x1_0000_0000
    }
}

/// The two's complement reading of a 64-bit pattern `v`.
pub open spec fn signed64(v: nat) -> int {
    if v < 0x8000_0000_0000_0000 {
        v as int
    } else {
        v - 0x1_0000_0000_0000_0000
    }
}

/// The two's complement reading of a 32-bit pattern, widened.
fn signed_from_u32(v: u32) -> (r: i64)
    ensures
        r == signed32(v as nat),
        -0x8000_0000 <= r < 0x8000_0000,
        (r - v) % 0x1_0000_0000 == 0,
{
    if v < 0x8000_0000 {
        v as i64
    } else {
        v as i64 - 0x1_0000_0000
    }
}

/// The two's complement reading of a 64-bit pattern.
fn signed_from_u64(v: u64) -> (r: i64)
    ensures
        r == signed64(v as nat),
        (r - v) % 0x1_0000_0000_0000_0000 == 0,
{
    if v < 0x8000_0000_0000_0000 {
        v as i64
    } else {
        -((u64::MAX - v) as i64) - 1
    }
}

/// A binary file opened for reading typed values (scalars and arrays, in the
/// byte order given per call) at arbitrary offsets, with the length it had
/// when it was opened.
#[derive(Clone, Copy, Debug)]
pub struct BinaryFile {
    len: u64,
}

impl BinaryFile {
    /// The length of the file in bytes.
    pub closed spec fn file_len(self) -> u64 {
        self.len
    }

    /// The bytes that remain from `position` to the end of the file; none past it.
    pub open spec fn remaining(self, position: nat) -> nat {
        if position >= self.file_len() {
            0
        } else {
            (self.file_len() - position) as nat
        }
    }

    /// What an absolute seek to `offset` answers: the position to move to, or
    /// the refusal. The offset must lie within `0..=len`.
    pub open spec fn seek_outcome(self, offset: i64) -> Result<u64, BinaryFileError> {
        if offset < 0 {
            Err(BinaryFileError::NegativeOffset { offset })
        } else if offset > self.file_len() {
            Err(BinaryFileError::OffsetBeyondEnd { offset: offset as u64, len: self.file_len() })
        } else {
            Ok(offset as u64)
        }
    }

    /// What a seek by `delta` from `position` answers: the position to move to,
    /// or the refusal. The resulting position must lie within `0..=len`.
    pub open spec fn seek_relative_outcome(self, position: u64, delta: i64) -> Result<
        u64,
        BinaryFileError,
    > {
        let target = position + delta;
        if target < 0 || target > self.file_len() {
            Err(
                BinaryFileError::TargetOutsideFile {
                    target: target as i128,
                    len: self.file_len(),
                },
            )
        } else {
            Ok(target as u64)
        }
    }

    /// What the element count of a bulk read answers: the size in bytes of
    /// `count` elements of `what`, or the refusal of the count.
    pub open spec fn size_outcome(count: i64, what: VecKind) -> Result<usize, BinaryFileError> {
        let bytes = count * what.spec_elem_size();
        if count < 0 || count > usize::MAX {
            Err(BinaryFileError::NegativeCount { what, count })
        } else if bytes > usize::MAX {
            Err(BinaryFileError::CountTooLarge { what, count: count as usize })
        } else {
            Ok(bytes as usize)
        }
    }

    /// What a bulk read of `bytes` bytes from `position` answers: the number
    /// of bytes to read, or the refusal when fewer remain in the file.
    pub open spec fn fit_outcome(self, position: u64, bytes: usize, what: VecKind) -> Result<
        usize,
        BinaryFileError,
    > {
        if bytes > self.remaining(position as nat) {
            Err(
                BinaryFileError::NotEnoughData {
                    what,
                    requested: bytes,
                    remaining: self.remaining(position as nat) as u64,
                },
            )
        } else {
            Ok(bytes)
        }
    }

    /// What a bulk read of `count` elements from `position` answers: the number
    /// of bytes to read, or the refusal. The check comes before any byte is read.
    pub open spec fn bulk_outcome(self, position: u64, count: i64, what: VecKind) -> Result<
        usize,
        BinaryFileError,
    > {
        match Self::size_outcome(count, what) {
            Ok(bytes) => self.fit_outcome(position, bytes, what),
            Err(e) => Err(e),
        }
    }

    /// A file of `len` bytes.
    pub fn new(len: u64) -> (f: Self)
        ensures
            f.file_len() == len,
    {
        BinaryFile { len }
    }

    /// The file size in bytes, as a signed 64-bit integer (two's complement
    /// wrapping for sizes beyond `i64::MAX`).
    pub fn len(&self) -> (r: i64)
        ensures
            r == signed64(self.file_len() as nat),
            (r - self.file_len()) % 0x1_0000_0000_0000_0000 == 0,
            self.file_len() <= i64::MAX ==> r == self.file_len(),
    {
        signed_from_u64(self.len)
    }

    /// Checks an absolute seek to `offset` and answers the position to move to.
    pub fn seek(&self, offset: i64) -> (r: Result<u64, BinaryFileError>)
        ensures
            r == self.seek_outcome(offset),
            r is Ok <==> 0 <= offset <= self.file_len(),
            r is Ok ==> r->Ok_0 == offset,
    {
        if offset < 0 {
            return Err(BinaryFileError::NegativeOffset { offset });
        }
        let offset_u: u64 = offset as u64;
        if offset_u > self.len {
            return Err(BinaryFileError::OffsetBeyondEnd { offset: offset_u, len: self.len });
        }
        Ok(offset_u)
    }

    /// Checks a seek by `delta` bytes from `position` (negative moves
    /// backwards) and answers the position to move to.
    pub fn seek_relative(&self, position: u64, delta: i64) -> (r: Result<u64, BinaryFileError>)
        ensures
            r == self.seek_relative_outcome(position, delta),
            r is Ok <==> 0 <= position + delta <= self.file_len(),
            r is Ok ==> r->Ok_0 == position + delta,
    {
        let target: i128 = position as i128 + delta as i128;
        if target < 0 || target > self.len as i128 {
            return Err(BinaryFileError::TargetOutsideFile { target, len: self.len });
        }
        Ok(target as u64)
    }

    /// Checks the element count of a bulk read of `what` and answers its size
    /// in bytes.
    pub fn bulk_size(count: i64, what: VecKind) -> (r: Result<usize, BinaryFileError>)
        ensures
            r == Self::size_outcome(count, what),
            r is Ok <==> 0 <= count && count * what.spec_elem_size() <= usize::MAX,
            r is Ok ==> r->Ok_0 == count * what.spec_elem_size(),
    {
        proof {
            let size = what.spec_elem_size() as int;
            let c = count as int;
            assert(0 <= c && c * size <= usize::MAX ==> c <= usize::MAX) by (nonlinear_arith)
                requires
                    size >= 1,
            ;
        }
        if count < 0 || count as u64 > usize::MAX as u64 {
            return Err(BinaryFileError::NegativeCount { what, count });
        }
        let n: usize = count as usize;
        match n.checked_mul(what.elem_size()) {
            Some(bytes) => Ok(bytes),
            None => Err(BinaryFileError::CountTooLarge { what, count: n }),
        }
    }

    /// Checks that `bytes` bytes remain in the file from `position` and
    /// answers how many bytes to read.
    pub fn fit_in_file(&self, position: u64, bytes: usize, what: VecKind) -> (r: Result<
        usize,
        BinaryFileError,
    >)
        ensures
            r == self.fit_outcome(position, bytes, what),
            r is Ok <==> bytes == 0 || position + bytes <= self.file_len(),
            r is Ok ==> r->Ok_0 == bytes,
    {
        let remaining = self.len.saturating_sub(position);
        if bytes as u64 > remaining {
            return Err(BinaryFileError::NotEnoughData { what, requested: bytes, remaining });
        }
        Ok(bytes)
    }

    /// Checks a bulk read of `count` elements of `what` from `position` and
    /// answers how many bytes to read.
    pub fn read_bulk(&self, position: u64, count: i64, what: VecKind) -> (r: Result<
        usize,
        BinaryFileError,
    >)
        ensures
            r == self.bulk_outcome(position, count, what),
            r is Ok <==> 0 <= count && count * what.spec_elem_size() <= usize::MAX && (count == 0
                || position + count * what.spec_elem_size() <= self.file_len()),
            r is Ok ==> r->Ok_0 == count * what.spec_elem_size(),
    {
        let bytes = Self::bulk_size(count, what)?;
        self.fit_in_file(position, bytes, what)
    }

    /// The unsigned 32-bit integer that four bytes read from the file encode,
    /// widened to 64 bits.
    pub fn read_u32(order: ByteOrder, bytes: [u8; 4]) -> (r: i64)
        ensures
            r == order.value(bytes@),
    {
        order.decode_u32(bytes) as i64
    }

    /// The signed 32-bit integer that four bytes read from the file encode,
    /// widened to 64 bits.
    pub fn read_i32(order: ByteOrder, bytes: [u8; 4]) -> (r: i64)
        ensures
            r == signed32(order.value(bytes@)),
            -0x8000_0000 <= r < 0x8000_0000,
            (r - order.value(bytes@)) % 0x1_0000_0000 == 0,
    {
        signed_from_u32(order.decode_u32(bytes))
    }

    /// The signed 64-bit integer that eight bytes read from the file encode.
    pub fn read_i64(order: ByteOrder, bytes: [u8; 8]) -> (r: i64)
        ensures
            r == signed64(order.value(bytes@)),
            (r - order.value(bytes@)) % 0x1_0000_0000_0000_0000 == 0,
    {
        signed_from_u64(order.decode_u64(bytes))
    }

    /// The unsigned 32-bit integers that the bytes of a bulk read encode,
    /// four bytes each, widened to 64 bits.
    pub fn read_u32_vec(order: ByteOrder, bytes: &[u8]) -> (r: Vec<i64>)
        ensures
            r@.len() == bytes@.len() / 4,
            forall|k: int|
                0 <= k < r@.len() ==> #[trigger] r@[k] == order.value(
                    bytes@.subrange(4 * k, 4 * k + 4),
                ),
    {
        let raw = order.decode_u32_chunks(bytes);
        let mut out: Vec<i64> = Vec::new();
        let mut k: usize = 0;
        while k < raw.len()
            invariant
                k <= raw@.len(),
                out@.len() == k,
                forall|j: int| 0 <= j < k ==> #[trigger] out@[j] == raw@[j],
            decreases raw.len() - k,
        {
            out.push(raw[k] as i64);
            k = k + 1;
        }
        out
    }

    /// The signed 32-bit integers that the bytes of a bulk read encode, four
    /// bytes each, widened to 64 bits.
    pub fn read_i32_vec(order: ByteOrder, bytes: &[u8]) -> (r: Vec<i64>)
        ensures
            r@.len() == bytes@.len() / 4,
            forall|k: int|
                0 <= k < r@.len() ==> #[trigger] r@[k] == signed32(
                    order.value(bytes@.subrange(4 * k, 4 * k + 4)),
                ),
            forall|k: int|
                0 <= k < r@.len() ==> -0x8000_0000 <= #[trigger] r@[k] < 0x8000_0000 && (r@[k]
                    - order.value(bytes@.subrange(4 * k, 4 * k + 4))) % 0x1_0000_0000 == 0,
    {
        let raw = order.decode_u32_chunks(bytes);
        let mut out: Vec<i64> = Vec::new();
        let mut k: usize = 0;
        while k < raw.len()
            invariant
                k <= raw@.len(),
                out@.len() == k,
                forall|j: int| 0 <= j < k ==> #[trigger] out@[j] == signed32(raw@[j] as nat),
                forall|j: int|
                    0 <= j < k ==> -0x8000_0000 <= #[trigger] out@[j] < 0x8000_0000 && (out@[j]
                        - raw@[j]) % 0x1_0000_0000 == 0,
            decreases raw.len() - k,
        {
            out.push(signed_from_u32(raw[k]));
            k = k + 1;
        }
        out
    }

    /// The signed 64-bit integers that the bytes of a bulk read encode, eight
    /// bytes each.
    pub fn read_i64_vec(order: ByteOrder, bytes: &[u8]) -> (r: Vec<i64>)
        ensures
            r@.len() == bytes@.len() / 8,
            forall|k: int|
                0 <= k < r@.len() ==> #[trigger] r@[k] == signed64(
                    order.value(bytes@.subrange(8 * k, 8 * k + 8)),
                ),
            forall|k: int|
                0 <= k < r@.len() ==> (#[trigger] r@[k] - order.value(
                    bytes@.subrange(8 * k, 8 * k + 8),
                )) % 0x1_0000_0000_0000_0000 == 0,
    {
        let raw = order.decode_u64_chunks(bytes);
        let mut out: Vec<i64> = Vec::new();
        let mut k: usize = 0;
        while k < raw.len()
            invariant
                k <= raw@.len(),
                out@.len() == k,
                forall|j: int| 0 <= j < k ==> #[trigger] out@[j] == signed64(raw@[j] as nat),
                forall|j: int|
                    0 <= j < k ==> (#[trigger] out@[j] - raw@[j]) % 0x1_0000_0000_0000_0000 == 0,
            decreases raw.len() - k,
        {
            out.push(signed_from_u64(raw[k]));
            k = k + 1;
        }
        out
    }
}

/// Reading four bytes as unsigned gives the signed reading of the same bytes
/// taken modulo 2^32: a value in `0..2^32`, which a negative signed reading
/// becomes by adding 2^32.
pub proof fn lemma_unsigned_reading_wraps_signed_reading(order: ByteOrder, bytes: Seq<u8>)
    requires
        bytes.len() == 4,
    ensures
        0 <= order.value(bytes) < 0x1_0000_0000,
        order.value(bytes) == if signed32(order.value(bytes)) < 0 {
            signed32(order.value(bytes)) + 0x1_0000_0000
        } else {
            signed32(order.value(bytes))
        },
{
    lemma_value_bound(order, bytes);
    reveal_with_fuel(pow256, 5);
}

/// A seek, absolute or relative, that is not refused answers a position
/// within `0..=len`.
pub proof fn lemma_seeks_stay_in_file(file: BinaryFile, position: u64, offset: i64, delta: i64)
    ensures
        file.seek_outcome(offset) is Ok ==> file.seek_outcome(offset)->Ok_0 <= file.file_len(),
        file.seek_relative_outcome(position, delta) is Ok ==> file.seek_relative_outcome(
            position,
            delta,
        )->Ok_0 <= file.file_len(),
{
}

/// A relative seek lands where the absolute seek to the sum lands, and is
/// refused exactly when that absolute seek is refused, wherever the sum is an
/// offset that an absolute seek can be asked for.
pub proof fn lemma_relative_seek_is_absolute_seek(file: BinaryFile, position: u64, delta: i64)
    requires
        i64::MIN <= position + delta <= i64::MAX,
    ensures
        file.seek_relative_outcome(position, delta) is Ok <==> file.seek_outcome(
            (position + delta) as i64,
        ) is Ok,
        file.seek_relative_outcome(position, delta) is Ok ==> file.seek_relative_outcome(
            position,
            delta,
        )->Ok_0 == file.seek_outcome((position + delta) as i64)->Ok_0,
{
}

/// A relative seek from a position within the file that is not refused is
/// undone by the seek back by the same distance from where it landed.
pub proof fn lemma_seek_relative_undone(file: BinaryFile, position: u64, delta: i64, target: u64)
    requires
        position <= file.file_len(),
        delta != i64::MIN,
        file.seek_relative_outcome(position, delta) == Ok::<u64, BinaryFileError>(target),
    ensures
        file.seek_relative_outcome(target, -delta as i64) == Ok::<u64, BinaryFileError>(
            position,
        ),
{
    let back: int = -delta;
    assert(back as i64 == back);
}

/// A bulk read that is not refused asks for `count` whole elements, no more
/// bytes than remain between the position and the end of the file; from a
/// position within the file, it ends within the file.
pub proof fn lemma_bulk_read_stays_in_file(
    file: BinaryFile,
    position: u64,
    count: i64,
    what: VecKind,
)
    ensures
        file.bulk_outcome(position, count, what) is Ok ==> {
            let n = file.bulk_outcome(position, count, what)->Ok_0;
            &&& n == count * what.spec_elem_size()
            &&& n <= file.remaining(position as nat)
            &&& position <= file.file_len() ==> position + n <= file.file_len()
        },
{
    if BinaryFile::size_outcome(count, what) is Ok {
        let bytes = count * what.spec_elem_size();
        assert(0 <= bytes <= usize::MAX);
        assert(bytes as usize == bytes);
    }
}

/// The signed reading of a 32-bit pattern is the one value in `-2^31..2^31`
/// that differs from the pattern by a multiple of 2^32: a pattern below 2^31
/// reads as itself, and the others read as the pattern less 2^32.
pub proof fn lemma_signed32_is_the_wrapped_reading(v: nat, r: int)
    requires
        v < 0x1_0000_0000,
    ensures
        -0x8000_0000 <= signed32(v) < 0x8000_0000,
        (signed32(v) - v) % 0x1_0000_0000 == 0,
        v < 0x8000_0000 ==> signed32(v) == v,
        -0x8000_0000 <= r < 0x8000_0000 && (r - v) % 0x1_0000_0000 == 0 ==> r == signed32(v),
{
    if -0x8000_0000 <= r < 0x8000_0000 && (r - v) % 0x1_0000_0000 == 0 {
        let d = r - signed32(v);
        assert(d % 0x1_0000_0000 == 0);
        assert(-0x1_0000_0000 < d < 0x1_0000_0000);
        assert(d == 0) by (nonlinear_arith)
            requires
                d % 0x1_0000_0000 == 0,
                -0x1_0000_0000 < d < 0x1_0000_0000,
        ;
    }
}

/// The signed reading of a 64-bit pattern is the one value in `-2^63..2^63`
/// that differs from the pattern by a multiple of 2^64: a pattern below 2^63
/// reads as itself, and the others read as the pattern less 2^64.
pub proof fn lemma_signed64_is_the_wrapped_reading(v: nat, r: int)
    requires
        v < 0x1_0000_0000_0000_0000,
    ensures
        -0x8000_0000_0000_0000 <= signed64(v) < 0x8000_0000_0000_0000,
        (signed64(v) - v) % 0x1_0000_0000_0000_0000 == 0,
        v < 0x8000_0000_0000_0000 ==> signed64(v) == v,
        -0x8000_0000_0000_0000 <= r < 0x8000_0000_0000_0000 && (r - v) % 0x1_0000_0000_0000_0000
            == 0 ==> r == signed64(v),
{
    if -0x8000_0000_0000_0000 <= r < 0x8000_0000_0000_0000 && (r - v) % 0x1_0000_0000_0000_0000
        == 0 {
        let d = r - signed64(v);
        assert(d % 0x1_0000_0000_0000_0000 == 0);
        assert(-0x1_0000_0000_0000_0000 < d < 0x1_0000_0000_0000_0000);
        assert(d == 0) by (nonlinear_arith)
            requires
                d % 0x1_0000_0000_0000_0000 == 0,
                -0x1_0000_0000_0000_0000 < d < 0x1_0000_0000_0000_0000,
        ;
    }
}

/// A seek is refused exactly when it would leave `0..=len`, and otherwise
/// lands at the position asked for: the offset, or the position moved by
/// `delta`.
pub proof fn lemma_seek_lands_where_asked(file: BinaryFile, offset: i64, position: u64, delta: i64)
    ensures
        file.seek_outcome(offset) is Ok <==> 0 <= offset <= file.file_len(),
        file.seek_outcome(offset) is Ok ==> file.seek_outcome(offset)->Ok_0 == offset,
        file.seek_relative_outcome(position, delta) is Ok <==> 0 <= position + delta
            <= file.file_len(),
        file.seek_relative_outcome(position, delta) is Ok ==> file.seek_relative_outcome(
            position,
            delta,
        )->Ok_0 == position + delta,
{
}

/// A bulk read is refused exactly when its count is negative, its size in
/// bytes does not fit a `usize`, or it asks for more bytes than lie between
/// the position and the end of the file; otherwise it reads `count` whole
/// elements.
pub proof fn lemma_bulk_read_refused_only_when_short(
    file: BinaryFile,
    position: u64,
    count: i64,
    bytes: usize,
    what: VecKind,
)
    ensures
        file.fit_outcome(position, bytes, what) is Ok <==> bytes == 0 || position + bytes
            <= file.file_len(),
        file.fit_outcome(position, bytes, what) is Ok ==> file.fit_outcome(
            position,
            bytes,
            what,
        )->Ok_0 == bytes,
        file.bulk_outcome(position, count, what) is Ok <==> 0 <= count && count
            * what.spec_elem_size() <= usize::MAX && (count == 0 || position + count
            * what.spec_elem_size() <= file.file_len()),
        file.bulk_outcome(position, count, what) is Ok ==> file.bulk_outcome(
            position,
            count,
            what,
        )->Ok_0 == count * what.spec_elem_size(),
{
    let size = what.spec_elem_size() as int;
    let c = count as int;
    assert(0 <= c && c * size <= usize::MAX ==> c <= usize::MAX) by (nonlinear_arith)
        requires
            size >= 1,
    ;
    assert(c * size == 0 <==> c == 0) by (nonlinear_arith)
        requires
            size >= 1,
    ;
}

/// A bulk read that is not refused asks for whole elements of the width its
/// decoder takes: four bytes for 32-bit elements, eight for 64-bit ones.
pub proof fn lemma_bulk_read_takes_whole_elements(
    file: BinaryFile,
    position: u64,
    count: i64,
    what: VecKind,
)
    ensures
        file.bulk_outcome(position, count, what) is Ok ==> {
            let n = file.bulk_outcome(position, count, what)->Ok_0 as int;
            match what {
                VecKind::F64 | VecKind::I64 => n == 8 * count && n % 8 == 0,
                VecKind::F32 | VecKind::U32 | VecKind::I32 => n == 4 * count && n % 4 == 0,
            }
        },
{
    lemma_bulk_read_refused_only_when_short(file, position, count, 0, what);
}

} // verus!
