//! Byte orders and the decoding of fixed-width unsigned integers from bytes.
use vstd::prelude::*;
use vstd::string::*;

use crate::file_error::BinaryFileError;

verus! {

/// Byte order for typed reads, selected per call.
#[derive(Clone, Copy, Debug, PartialEq, Eq, Structural)]
pub enum ByteOrder {
    Le,
    Be,
}

/// 256 raised to the power `n`: one more than the largest value of `n` bytes.
pub open spec fn pow256(n: nat) -> nat
    decreases n,
{
    if n == 0 {
        1
    } else {
        256 * pow256((n - 1) as nat)
    }
}

/// The unsigned integer that `bytes` encode, least significant byte first.
pub open spec fn le_value(bytes: Seq<u8>) -> nat
    decreases bytes.len(),
{
    if bytes.len() == 0 {
        0
    } else {
        bytes[0] as nat + 256 * le_value(bytes.drop_first())
    }
}

/// The unsigned integer that `bytes` encode, most significant byte first.
pub open spec fn be_value(bytes: Seq<u8>) -> nat
    decreases bytes.len(),
{
    if bytes.len() == 0 {
        0
    } else {
        256 * be_value(bytes.drop_last()) + bytes.last() as nat
    }
}

impl ByteOrder {
    /// The unsigned integer that `bytes` encode in this byte order.
    pub open spec fn value(self, bytes: Seq<u8>) -> nat {
        match self {
            ByteOrder::Le => le_value(bytes),
            ByteOrder::Be => be_value(bytes),
        }
    }
}

/// `n` bytes never encode more than `256^n - 1`, in either order.
pub proof fn lemma_value_bound(order: ByteOrder, bytes: Seq<u8>)
    ensures
        order.value(bytes) < pow256(bytes.len()),
    decreases bytes.len(),
{
    if bytes.len() > 0 {
        let p = pow256((bytes.len() - 1) as nat);
        match order {
            ByteOrder::Le => {
                lemma_value_bound(order, bytes.drop_first());
                let r = le_value(bytes.drop_first());
                let b = bytes[0] as nat;
                assert(b + 256 * r < 256 * p) by (nonlinear_arith)
                    requires
                        r < p,
                        b < 256,
                ;
            },
            ByteOrder::Be => {
                lemma_value_bound(order, bytes.drop_last());
                let r = be_value(bytes.drop_last());
                let b = bytes.last() as nat;
                assert(256 * r + b < 256 * p) by (nonlinear_arith)
                    requires
                        r < p,
                        b < 256,
                ;
            },
        }
    }
}

/// Reading bytes most significant first gives what reading the reversed
/// bytes least significant first gives.
pub proof fn lemma_big_endian_is_reversed_little_endian(bytes: Seq<u8>)
    ensures
        be_value(bytes) == le_value(bytes.reverse()),
    decreases bytes.len(),
{
    if bytes.len() > 0 {
        lemma_big_endian_is_reversed_little_endian(bytes.drop_last());
        let r = bytes.reverse();
        assert(r[0] == bytes.last());
        assert(r.drop_first() =~= bytes.drop_last().reverse());
    }
}

/// `pow256(n)` is 256 to the power `n`.
pub proof fn lemma_pow256_is_power(n: nat)
    ensures
        pow256(n) == vstd::arithmetic::power::pow(256, n),
    decreases n,
{
    reveal(vstd::arithmetic::power::pow);
    if n > 0 {
        lemma_pow256_is_power((n - 1) as nat);
    }
}

/// Least significant byte first, no bytes encode 0, and a byte appended after
/// the others counts 256 to the power of its position.
pub proof fn lemma_le_value_appends(bytes: Seq<u8>, b: u8)
    ensures
        le_value(Seq::<u8>::empty()) == 0,
        le_value(bytes.push(b)) == le_value(bytes) + b * pow256(bytes.len()),
    decreases bytes.len(),
{
    if bytes.len() > 0 {
        let rest = bytes.drop_first();
        lemma_le_value_appends(rest, b);
        assert(bytes.push(b).drop_first() =~= rest.push(b));
        let p = pow256(rest.len());
        let x = b as int;
        assert(256 * (le_value(rest) + x * p) == 256 * le_value(rest) + x * (256 * p))
            by (nonlinear_arith);
        assert(bytes.push(b)[0] == bytes[0]);
        assert(pow256(bytes.len()) == 256 * p);
    } else {
        assert(le_value(bytes.push(b).drop_first()) == 0);
        assert(pow256(0) == 1);
        assert(bytes.push(b).drop_first() =~= Seq::<u8>::empty());
    }
}

/// Most significant byte first, a byte put in front of the others counts 256
/// to the power of the number of bytes after it.
pub proof fn lemma_be_value_prepends(bytes: Seq<u8>, b: u8)
    ensures
        be_value(seq![b] + bytes) == b * pow256(bytes.len()) + be_value(bytes),
{
    lemma_big_endian_is_reversed_little_endian(seq![b] + bytes);
    lemma_big_endian_is_reversed_little_endian(bytes);
    assert((seq![b] + bytes).reverse() =~= bytes.reverse().push(b));
    lemma_le_value_appends(bytes.reverse(), b);
}

/// Two byte sequences of one length that encode the same value, least
/// significant byte first, are the same bytes.
proof fn lemma_le_value_injective(a: Seq<u8>, b: Seq<u8>)
    requires
        a.len() == b.len(),
        le_value(a) == le_value(b),
    ensures
        a == b,
    decreases a.len(),
{
    if a.len() > 0 {
        let x = a[0] as int;
        let y = b[0] as int;
        let p = le_value(a.drop_first()) as int;
        let q = le_value(b.drop_first()) as int;
        assert(x == y && p == q) by (nonlinear_arith)
            requires
                0 <= x < 256,
                0 <= y < 256,
                0 <= p,
                0 <= q,
                x + 256 * p == y + 256 * q,
        ;
        lemma_le_value_injective(a.drop_first(), b.drop_first());
        assert(a =~= b) by {
            assert forall|i: int| 0 <= i < a.len() implies a[i] == b[i] by {
                if i > 0 {
                    assert(a[i] == a.drop_first()[i - 1]);
                    assert(b[i] == b.drop_first()[i - 1]);
                }
            }
        }
    } else {
        assert(a =~= b);
    }
}

/// The two byte orders read the same value from exactly the byte patterns
/// that read the same backwards.
pub proof fn lemma_orders_agree_only_on_palindromes(bytes: Seq<u8>)
    ensures
        ByteOrder::Le.value(bytes) == ByteOrder::Be.value(bytes) <==> bytes == bytes.reverse(),
{
    lemma_big_endian_is_reversed_little_endian(bytes);
    if le_value(bytes) == be_value(bytes) {
        lemma_le_value_injective(bytes, bytes.reverse());
    }
}

/// `pow256` grows with its exponent.
proof fn lemma_pow256_monotone(i: nat, j: nat)
    requires
        i <= j,
    ensures
        pow256(i) <= pow256(j),
    decreases j,
{
    if i < j {
        lemma_pow256_monotone(i, (j - 1) as nat);
    }
}

/// Decodes the `width` bytes of `bytes` that start at `start`.
fn decode_at(order: ByteOrder, bytes: &[u8], start: usize, width: usize) -> (r: u64)
    requires
        width <= 8,
        start + width <= bytes@.len(),
    ensures
        r == order.value(bytes@.subrange(start as int, start + width)),
{
    let mut v: u64 = 0;
    let mut i: usize = 0;
    let ghost end: int = start + width;
    proof {
        reveal_with_fuel(pow256, 9);
        assert(pow256(8) == 0x1_0000_0000_0000_0000);
    }
    while i < width
        invariant
            i <= width <= 8,
            end == start + width,
            end <= bytes@.len(),
            start + width <= bytes.len(),
            pow256(8) == 0x1_0000_0000_0000_0000,
            v < pow256(i as nat),
            order is Le ==> v == le_value(bytes@.subrange(end - i, end)),
            order is Be ==> v == be_value(bytes@.subrange(start as int, start + i)),
        decreases width - i,
    {
        proof {
            lemma_pow256_monotone((i + 1) as nat, 8);
        }
        let b: u8 = match order {
            ByteOrder::Le => bytes[start + width - 1 - i],
            ByteOrder::Be => bytes[start + i],
        };
        proof {
            let next = (i + 1) as nat;
            match order {
                ByteOrder::Le => {
                    let t = bytes@.subrange(end - next, end);
                    assert(t[0] == b);
                    assert(t.drop_first() =~= bytes@.subrange(end - i, end));
                },
                ByteOrder::Be => {
                    let t = bytes@.subrange(start as int, start + next);
                    assert(t.last() == b);
                    assert(t.drop_last() =~= bytes@.subrange(start as int, start + i));
                },
            }
        }
        v = v * 256 + b as u64;
        i = i + 1;
    }
    proof {
        assert(bytes@.subrange(end - width, end) =~= bytes@.subrange(start as int, end));
    }
    v
}

impl ByteOrder {
    /// Decodes four bytes as an unsigned 32-bit integer in this byte order.
    pub fn decode_u32(self, bytes: [u8; 4]) -> (r: u32)
        ensures
            r == self.value(bytes@),
    {
        let s = bytes.as_slice();
        let v = decode_at(self, s, 0, 4);
        proof {
            assert(s@.subrange(0, 4) =~= bytes@);
            lemma_value_bound(self, bytes@);
            reveal_with_fuel(pow256, 5);
        }
        v as u32
    }

    /// Decodes eight bytes as an unsigned 64-bit integer in this byte order.
    pub fn decode_u64(self, bytes: [u8; 8]) -> (r: u64)
        ensures
            r == self.value(bytes@),
    {
        let s = bytes.as_slice();
        let v = decode_at(self, s, 0, 8);
        proof {
            assert(s@.subrange(0, 8) =~= bytes@);
        }
        v
    }

    /// Decodes `bytes` as consecutive unsigned 32-bit integers, four bytes
    /// each; bytes after the last whole group of four are ignored.
    pub fn decode_u32_chunks(self, bytes: &[u8]) -> (r: Vec<u32>)
        ensures
            r@.len() == bytes@.len() / 4,
            forall|k: int|
                0 <= k < r@.len() ==> #[trigger] r@[k] == self.value(
                    bytes@.subrange(4 * k, 4 * k + 4),
                ),
    {
        let n = bytes.len() / 4;
        let mut out: Vec<u32> = Vec::new();
        let mut k: usize = 0;
        while k < n
            invariant
                n == bytes@.len() / 4,
                n == bytes.len() / 4,
                k <= n,
                out@.len() == k,
                forall|j: int|
                    0 <= j < k ==> #[trigger] out@[j] == self.value(
                        bytes@.subrange(4 * j, 4 * j + 4),
                    ),
            decreases n - k,
        {
            let v = decode_at(self, bytes, 4 * k, 4);
            proof {
                lemma_value_bound(self, bytes@.subrange(4 * k, 4 * k + 4));
                reveal_with_fuel(pow256, 5);
            }
            out.push(v as u32);
            k = k + 1;
        }
        out
    }

    /// Decodes `bytes` as consecutive unsigned 64-bit integers, eight bytes
    /// each; bytes after the last whole group of eight are ignored.
    pub fn decode_u64_chunks(self, bytes: &[u8]) -> (r: Vec<u64>)
        ensures
            r@.len() == bytes@.len() / 8,
            forall|k: int|
                0 <= k < r@.len() ==> #[trigger] r@[k] == self.value(
                    bytes@.subrange(8 * k, 8 * k + 8),
                ),
    {
        let n = bytes.len() / 8;
        let mut out: Vec<u64> = Vec::new();
        let mut k: usize = 0;
        while k < n
            invariant
                n == bytes@.len() / 8,
                n == bytes.len() / 8,
                k <= n,
                out@.len() == k,
                forall|j: int|
                    0 <= j < k ==> #[trigger] out@[j] == self.value(
                        bytes@.subrange(8 * j, 8 * j + 8),
                    ),
            decreases n - k,
        {
            let v = decode_at(self, bytes, 8 * k, 8);
            out.push(v);
            k = k + 1;
        }
        out
    }
}

/// The code of `c` with the ASCII capitals folded to small letters; other
/// characters keep their code.
pub open spec fn ascii_folded(c: char) -> int {
    let x = c as int;
    if 65 <= x <= 90 {
        x + 32
    } else {
        x
    }
}

/// Whether `a` and `b` are the same text when ASCII letters are compared
/// without regard to case.
pub open spec fn eq_ignore_ascii_case(a: Seq<char>, b: Seq<char>) -> bool {
    &&& a.len() == b.len()
    &&& forall|i: int| 0 <= i < a.len() ==> ascii_folded(#[trigger] a[i]) == ascii_folded(b[i])
}

/// The code of `c` with ASCII capitals folded to small letters.
fn fold_ascii(c: char) -> (r: u32)
    ensures
        r == ascii_folded(c),
{
    let x = c as u32;
    if 65 <= x && x <= 90 {
        x + 32
    } else {
        x
    }
}

/// Compares two texts, ASCII letters without regard to case.
fn same_ignoring_ascii_case(a: &str, b: &str) -> (r: bool)
    ensures
        r == eq_ignore_ascii_case(a@, b@),
{
    let n = a.unicode_len();
    if n != b.unicode_len() {
        return false;
    }
    let mut i: usize = 0;
    while i < n
        invariant
            n == a@.len(),
            n == b@.len(),
            i <= n,
            forall|j: int| 0 <= j < i ==> ascii_folded(#[trigger] a@[j]) == ascii_folded(b@[j]),
        decreases n - i,
    {
        if fold_ascii(a.get_char(i)) != fold_ascii(b.get_char(i)) {
            return false;
        }
        i = i + 1;
    }
    true
}

impl ByteOrder {
    /// Reads a byte order from its name: "le" or "be", in any case.
    pub fn parse(order: &str) -> (r: Result<ByteOrder, BinaryFileError>)
        ensures
            eq_ignore_ascii_case(order@, "le"@) ==> r == Ok::<ByteOrder, BinaryFileError>(
                ByteOrder::Le,
            ),
            !eq_ignore_ascii_case(order@, "le"@) && eq_ignore_ascii_case(order@, "be"@) ==> r
                == Ok::<ByteOrder, BinaryFileError>(ByteOrder::Be),
            !eq_ignore_ascii_case(order@, "le"@) && !eq_ignore_ascii_case(order@, "be"@) ==> (
            match r {
                Err(BinaryFileError::InvalidByteOrder { given }) => given@ == order@,
                _ => false,
            }),
    {
        if same_ignoring_ascii_case(order, "le") {
            Ok(ByteOrder::Le)
        } else if same_ignoring_ascii_case(order, "be") {
            Ok(ByteOrder::Be)
        } else {
            Err(BinaryFileError::InvalidByteOrder { given: order.to_owned() })
        }
    }
}

/// The names of the byte orders are their two letters, each small or
/// capital: "le", "lE", "Le" or "LE", and "be", "bE", "Be" or "BE".
pub proof fn lemma_byte_order_names(text: Seq<char>)
    ensures
        eq_ignore_ascii_case(text, "le"@) <==> text.len() == 2 && (text[0] == 'l' || text[0]
            == 'L') && (text[1] == 'e' || text[1] == 'E'),
        eq_ignore_ascii_case(text, "be"@) <==> text.len() == 2 && (text[0] == 'b' || text[0]
            == 'B') && (text[1] == 'e' || text[1] == 'E'),
{
    reveal_strlit("le");
    reveal_strlit("be");
    if text.len() == 2 {
        assert(ascii_folded(text[0]) == ascii_folded("le"@[0]) <==> (text[0] == 'l' || text[0]
            == 'L'));
        assert(ascii_folded(text[1]) == ascii_folded("le"@[1]) <==> (text[1] == 'e' || text[1]
            == 'E'));
        assert(ascii_folded(text[0]) == ascii_folded("be"@[0]) <==> (text[0] == 'b' || text[0]
            == 'B'));
    }
}

} // verus!
