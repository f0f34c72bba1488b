//! Little-endian integers on the wire.
//!
//! Every multi-byte field of a request is an integer written least significant
//! byte first. The model is arithmetic: a byte sequence denotes the number
//! `s[0] + 256 * s[1] + 256^2 * s[2] + ...`, and signed fields are two's
//! complement over the width of the field.
use vstd::prelude::*;

verus! {

/// `256^n`.
pub open spec fn pow256(n: nat) -> nat
    decreases n,
{
    if n == 0 {
        1
    } else {
        256 * pow256((n - 1) as nat)
    }
}

/// The natural number that `s` denotes, least significant byte first.
pub open spec fn le_value(s: Seq<u8>) -> nat
    decreases s.len(),
{
    if s.len() == 0 {
        0
    } else {
        s[0] as nat + 256 * le_value(s.drop_first())
    }
}

/// The `n` low bytes of `x`, least significant byte first.
pub open spec fn le_bytes(x: nat, n: nat) -> Seq<u8>
    decreases n,
{
    if n == 0 {
        Seq::empty()
    } else {
        seq![(x % 256) as u8] + le_bytes(x / 256, (n - 1) as nat)
    }
}

/// The integer that `s` denotes in two's complement over `s.len()` bytes.
pub open spec fn le_signed(s: Seq<u8>) -> int {
    if 2 * le_value(s) < pow256(s.len()) {
        le_value(s) as int
    } else {
        le_value(s) - pow256(s.len())
    }
}

/// The `n` bytes of `x` in two's complement, least significant byte first.
pub open spec fn le_signed_bytes(x: int, n: nat) -> Seq<u8> {
    if x >= 0 {
        le_bytes(x as nat, n)
    } else {
        le_bytes((x + pow256(n)) as nat, n)
    }
}

/// The field of `n` bytes that starts at `off`.
pub open spec fn field(data: Seq<u8>, off: int, n: int) -> Seq<u8> {
    data.subrange(off, off + n)
}

/// The powers of 256 at the widths of the fields.
pub proof fn lemma_pow256_values()
    ensures
        pow256(0) == 1,
        pow256(1) == 0x100,
        pow256(2) == 0x1_0000,
        pow256(4) == 0x1_0000_0000,
        pow256(8) == 0x1_0000_0000_0000_0000,
        pow256(15) == 0x1_0000_0000_0000_0000_0000_0000_0000_00,
        pow256(16) == 0x1_0000_0000_0000_0000_0000_0000_0000_0000,
{
    reveal_with_fuel(pow256, 17);
}

/// Powers of 256 are positive and grow with the exponent.
pub proof fn lemma_pow256_monotone(a: nat, b: nat)
    requires
        a <= b,
    ensures
        1 <= pow256(a) <= pow256(b),
    decreases b,
{
    if b == 0 {
    } else if a == b {
        lemma_pow256_monotone((a - 1) as nat, (b - 1) as nat);
    } else {
        lemma_pow256_monotone(a, (b - 1) as nat);
    }
}

/// A sequence of `n` bytes denotes a number below `256^n`.
pub proof fn lemma_le_value_bound(s: Seq<u8>)
    ensures
        le_value(s) < pow256(s.len()),
    decreases s.len(),
{
    if s.len() > 0 {
        lemma_le_value_bound(s.drop_first());
    }
}

/// Writing `n` bytes gives `n` bytes.
pub broadcast proof fn lemma_le_bytes_len(x: nat, n: nat)
    ensures
        #[trigger] le_bytes(x, n).len() == n,
    decreases n,
{
    if n > 0 {
        lemma_le_bytes_len(x / 256, (n - 1) as nat);
    }
}

/// Reading back what was written gives the number, where it fits the width.
pub proof fn lemma_le_value_of_bytes(x: nat, n: nat)
    requires
        x < pow256(n),
    ensures
        le_value(le_bytes(x, n)) == x,
    decreases n,
{
    if n > 0 {
        let rest = le_bytes(x / 256, (n - 1) as nat);
        let s = le_bytes(x, n);
        lemma_le_value_of_bytes(x / 256, (n - 1) as nat);
        assert(s.drop_first() =~= rest);
    }
}

/// Writing the number that a sequence denotes gives the sequence back.
pub proof fn lemma_le_bytes_of_value(s: Seq<u8>)
    ensures
        le_bytes(le_value(s), s.len()) == s,
    decreases s.len(),
{
    if s.len() > 0 {
        let t = s.drop_first();
        lemma_le_bytes_of_value(t);
        let x = le_value(s);
        assert(x % 256 == s[0] as nat);
        assert(x / 256 == le_value(t));
        assert(le_bytes(x, s.len()) =~= s);
    } else {
        assert(le_bytes(le_value(s), s.len()) =~= s);
    }
}

/// Two's complement round trip, from the number to bytes and back.
pub proof fn lemma_le_signed_of_bytes(x: int, n: nat)
    requires
        n > 0,
        -(pow256(n) as int) <= 2 * x < pow256(n),
    ensures
        le_signed_bytes(x, n).len() == n,
        le_signed(le_signed_bytes(x, n)) == x,
{
    if x >= 0 {
        lemma_le_bytes_len(x as nat, n);
        lemma_le_value_of_bytes(x as nat, n);
    } else {
        lemma_le_bytes_len((x + pow256(n)) as nat, n);
        lemma_le_value_of_bytes((x + pow256(n)) as nat, n);
    }
}

/// The field at `off` starts with the byte at `off`, and the rest is the field
/// one byte further on.
proof fn lemma_field_step(data: Seq<u8>, off: int, n: int)
    requires
        0 <= off,
        0 < n,
        off + n <= data.len(),
    ensures
        le_value(field(data, off, n)) == data[off] as nat + 256 * le_value(
            field(data, off + 1, n - 1),
        ),
{
    assert(field(data, off, n).drop_first() =~= field(data, off + 1, n - 1));
}

/// Reads the unsigned field of `n` bytes at `off`.
pub(crate) fn read_uint(data: &[u8], off: usize, n: usize) -> (r: u128)
    requires
        n <= 16,
        off + n <= data@.len(),
    ensures
        r == le_value(field(data@, off as int, n as int)),
        r < pow256(n as nat),
{
    let len: usize = data.len();
    let mut acc: u128 = 0;
    let mut i: usize = n;
    proof {
        lemma_pow256_values();
    }
    while i > 0
        invariant
            i <= n <= 16,
            off + n <= len,
            len == data@.len(),
            acc == le_value(field(data@, off + i, n - i)),
            acc < pow256((n - i) as nat),
        decreases i,
    {
        proof {
            lemma_field_step(data@, off + i - 1, n - i + 1);
            lemma_pow256_monotone((n - i) as nat, 15);
            lemma_pow256_values();
        }
        i = i - 1;
        acc = acc * 256 + data[off + i] as u128;
    }
    acc
}

/// Reads the `u16` at `off`.
pub(crate) fn read_u16(data: &[u8], off: usize) -> (r: u16)
    requires
        off + 2 <= data@.len(),
    ensures
        r == le_value(field(data@, off as int, 2)),
{
    proof {
        lemma_pow256_values();
    }
    read_uint(data, off, 2) as u16
}

/// Reads the `u32` at `off`.
pub(crate) fn read_u32(data: &[u8], off: usize) -> (r: u32)
    requires
        off + 4 <= data@.len(),
    ensures
        r == le_value(field(data@, off as int, 4)),
{
    proof {
        lemma_pow256_values();
    }
    read_uint(data, off, 4) as u32
}

/// Reads the `u64` at `off`.
pub(crate) fn read_u64(data: &[u8], off: usize) -> (r: u64)
    requires
        off + 8 <= data@.len(),
    ensures
        r == le_value(field(data@, off as int, 8)),
{
    proof {
        lemma_pow256_values();
    }
    read_uint(data, off, 8) as u64
}

/// Reads the `u128` at `off`.
pub(crate) fn read_u128(data: &[u8], off: usize) -> (r: u128)
    requires
        off + 16 <= data@.len(),
    ensures
        r == le_value(field(data@, off as int, 16)),
{
    read_uint(data, off, 16)
}

/// Reads the two's complement `i64` at `off`.
pub(crate) fn read_i64(data: &[u8], off: usize) -> (r: i64)
    requires
        off + 8 <= data@.len(),
    ensures
        r == le_signed(field(data@, off as int, 8)),
{
    proof {
        lemma_pow256_values();
    }
    let u: u128 = read_uint(data, off, 8);
    if u < 0x8000_0000_0000_0000 {
        u as i64
    } else {
        (u as i128 - 0x1_0000_0000_0000_0000) as i64
    }
}

/// Reads the two's complement `i128` at `off`.
pub(crate) fn read_i128(data: &[u8], off: usize) -> (r: i128)
    requires
        off + 16 <= data@.len(),
    ensures
        r == le_signed(field(data@, off as int, 16)),
{
    proof {
        lemma_pow256_values();
    }
    let u: u128 = read_uint(data, off, 16);
    if u < 0x8000_0000_0000_0000_0000_0000_0000_0000 {
        u as i128
    } else {
        (u - 0x8000_0000_0000_0000_0000_0000_0000_0000) as i128 + i128::MIN
    }
}

/// Appends the `n` low bytes of `x`, least significant byte first.
pub(crate) fn write_uint(out: &mut Vec<u8>, x: u128, n: usize)
    ensures
        final(out)@ == old(out)@ + le_bytes(x as nat, n as nat),
{
    let mut v: u128 = x;
    let mut i: usize = 0;
    while i < n
        invariant
            i <= n,
            old(out)@ + le_bytes(x as nat, n as nat) == out@ + le_bytes(v as nat, (n - i) as nat),
        decreases n - i,
    {
        let ghost before = out@;
        out.push((v % 256) as u8);
        proof {
            let tail = le_bytes((v / 256) as nat, (n - i - 1) as nat);
            assert(le_bytes(v as nat, (n - i) as nat) == seq![(v % 256) as u8] + tail);
            assert(before + (seq![(v % 256) as u8] + tail) =~= out@ + tail);
        }
        v = v / 256;
        i = i + 1;
    }
    proof {
        assert(out@ + le_bytes(v as nat, 0) =~= out@);
    }
}

/// Appends `x` as 2 bytes.
pub(crate) fn write_u16(out: &mut Vec<u8>, x: u16)
    ensures
        final(out)@ == old(out)@ + le_bytes(x as nat, 2),
{
    write_uint(out, x as u128, 2)
}

/// Appends `x` as 4 bytes.
pub(crate) fn write_u32(out: &mut Vec<u8>, x: u32)
    ensures
        final(out)@ == old(out)@ + le_bytes(x as nat, 4),
{
    write_uint(out, x as u128, 4)
}

/// Appends `x` as 8 bytes.
pub(crate) fn write_u64(out: &mut Vec<u8>, x: u64)
    ensures
        final(out)@ == old(out)@ + le_bytes(x as nat, 8),
{
    write_uint(out, x as u128, 8)
}

/// Appends `x` as 16 bytes.
pub(crate) fn write_u128(out: &mut Vec<u8>, x: u128)
    ensures
        final(out)@ == old(out)@ + le_bytes(x as nat, 16),
{
    write_uint(out, x, 16)
}

/// Appends `x` as 8 bytes in two's complement.
pub(crate) fn write_i64(out: &mut Vec<u8>, x: i64)
    ensures
        final(out)@ == old(out)@ + le_signed_bytes(x as int, 8),
{
    proof {
        lemma_pow256_values();
    }
    if x >= 0 {
        write_uint(out, x as u128, 8)
    } else {
        write_uint(out, (x as i128 + 0x1_0000_0000_0000_0000) as u128, 8)
    }
}

/// Appends `x` as 16 bytes in two's complement.
pub(crate) fn write_i128(out: &mut Vec<u8>, x: i128)
    ensures
        final(out)@ == old(out)@ + le_signed_bytes(x as int, 16),
{
    proof {
        lemma_pow256_values();
    }
    if x >= 0 {
        write_uint(out, x as u128, 16)
    } else {
        write_uint(
            out,
            (x - i128::MIN) as u128 + 0x8000_0000_0000_0000_0000_0000_0000_0000,
            16,
        )
    }
}

} // verus!
