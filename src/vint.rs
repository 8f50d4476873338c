//! Variable-length integers: tag identifiers and tag sizes.
use vstd::prelude::*;

verus! {

/// Number of bytes of a variable-length integer whose first byte is `b`
/// (one more than its leading zero bits); 0 when `b` carries no marker bit.
pub open spec fn vint_width(b: u8) -> nat {
    if b >= 0x80 { 1 }
    else if b >= 0x40 { 2 }
    else if b >= 0x20 { 3 }
    else if b >= 0x10 { 4 }
    else if b >= 0x08 { 5 }
    else if b >= 0x04 { 6 }
    else if b >= 0x02 { 7 }
    else if b >= 0x01 { 8 }
    else { 0 }
}

/// The length-marker bit of the first byte of a `width`-byte integer.
pub open spec fn marker_bit(width: nat) -> nat {
    if width == 1 { 0x80 }
    else if width == 2 { 0x40 }
    else if width == 3 { 0x20 }
    else if width == 4 { 0x10 }
    else if width == 5 { 0x08 }
    else if width == 6 { 0x04 }
    else if width == 7 { 0x02 }
    else { 0x01 }
}

/// The value with all `7 * width` value bits set: the reserved "unknown size".
pub open spec fn all_ones(width: nat) -> nat {
    if width == 1 { 0x7f }
    else if width == 2 { 0x3fff }
    else if width == 3 { 0x1f_ffff }
    else if width == 4 { 0x0fff_ffff }
    else if width == 5 { 0x07_ffff_ffff }
    else if width == 6 { 0x03ff_ffff_ffff }
    else if width == 7 { 0x01_ffff_ffff_ffff }
    else { 0x00ff_ffff_ffff_ffff }
}

pub open spec fn pow256(n: nat) -> nat
    decreases n,
{
    if n == 0 { 1 } else { 256 * pow256((n - 1) as nat) }
}

/// Big-endian value of `s`, read after a leading digit `head`.
pub open spec fn be_after(head: nat, s: Seq<u8>) -> nat
    decreases s.len(),
{
    if s.len() == 0 {
        head
    } else {
        be_after(head, s.drop_last()) * 256 + s.last() as nat
    }
}

/// Big-endian unsigned value of `s`.
pub open spec fn be_value(s: Seq<u8>) -> nat {
    if s.len() == 0 { 0 } else { be_after(s[0] as nat, s.subrange(1, s.len() as int)) }
}

/// The raw bit pattern of the integer at the front of `s`, marker bit kept.
pub open spec fn vint_raw(s: Seq<u8>) -> nat {
    be_after(s[0] as nat, s.subrange(1, vint_width(s[0]) as int))
}

/// The value of the integer at the front of `s`, marker bit removed.
pub open spec fn vint_value(s: Seq<u8>) -> nat {
    be_after((s[0] - marker_bit(vint_width(s[0]))) as nat, s.subrange(1, vint_width(s[0]) as int))
}

/// What the front of a byte window holds.
#[derive(Clone, Copy, Debug, PartialEq, Eq, Structural)]
pub enum Vint {
    /// A complete integer: its value (marker bit removed), its raw bit
    /// pattern (marker bit kept) and its width in bytes.
    Complete { value: u64, raw: u64, width: usize },
    /// The window ends before the integer does.
    Incomplete,
    /// The first byte has no marker bit.
    Malformed,
}

pub proof fn lemma_be_after_bound(head: nat, s: Seq<u8>)
    ensures
        be_after(head, s) < (head + 1) * pow256(s.len()),
        be_after(head, s) >= head * pow256(s.len()),
    decreases s.len(),
{
    if s.len() > 0 {
        let t = s.drop_last();
        lemma_be_after_bound(head, t);
        let a = be_after(head, t);
        let p = pow256(t.len());
        assert(pow256(s.len()) == 256 * p);
        assert(be_after(head, s) == a * 256 + s.last() as nat);
        let l = s.last() as nat;
        let q = pow256(s.len());
        assert(a * 256 + l < (head + 1) * q && a * 256 + l >= head * q) by (nonlinear_arith)
            requires a < (head + 1) * p, a >= head * p, l < 256, q == 256 * p;
    } else {
        assert(pow256(0) == 1);
        assert(be_after(head, s) == head);
    }
}

proof fn lemma_be_after_injective(h1: nat, a: Seq<u8>, h2: nat, b: Seq<u8>)
    requires
        a.len() == b.len(),
        be_after(h1, a) == be_after(h2, b),
    ensures
        h1 == h2,
        a == b,
    decreases a.len(),
{
    if a.len() > 0 {
        let x = be_after(h1, a.drop_last());
        let y = be_after(h2, b.drop_last());
        let l = a.last() as int;
        let m = b.last() as int;
        assert(x * 256 + l == y * 256 + m);
        assert(x == y && l == m) by (nonlinear_arith)
            requires x * 256 + l == y * 256 + m, 0 <= l < 256, 0 <= m < 256, x >= 0, y >= 0;
        lemma_be_after_injective(h1, a.drop_last(), h2, b.drop_last());
        assert(a =~= a.drop_last().push(a.last()));
        assert(b =~= b.drop_last().push(b.last()));
    }
}

/// A tag identifier keeps its encoded form: two headers of the same width
/// that decode to the same identifier hold the same bytes, so the bytes can
/// be written back from the identifier and its width.
pub proof fn lemma_raw_determines_bytes(a: Seq<u8>, b: Seq<u8>)
    requires
        vint_spec(a) is Complete,
        vint_spec(b) is Complete,
        vint_width(a[0]) == vint_width(b[0]),
        vint_raw(a) == vint_raw(b),
    ensures
        a.subrange(0, vint_width(a[0]) as int) == b.subrange(0, vint_width(b[0]) as int),
{
    let w = vint_width(a[0]) as int;
    lemma_be_after_injective(a[0] as nat, a.subrange(1, w), b[0] as nat, b.subrange(1, w));
    assert(a.subrange(0, w) =~= seq![a[0]] + a.subrange(1, w));
    assert(b.subrange(0, w) =~= seq![b[0]] + b.subrange(1, w));
}

pub proof fn lemma_pow256_7()
    ensures pow256(7) == 0x100_0000_0000_0000,
{
    reveal_with_fuel(pow256, 8);
}

pub proof fn lemma_pow256_mono(a: nat, b: nat)
    requires a <= b,
    ensures pow256(a) <= pow256(b),
    decreases b,
{
    if a < b {
        lemma_pow256_mono(a, (b - 1) as nat);
    }
}

/// Accumulates `bytes[from..to]` big-endian after `head`.
pub(crate) fn fold_be(head: u8, bytes: &[u8], from: usize, to: usize) -> (r: u64)
    requires
        1 <= from <= to <= bytes@.len(),
        to - from <= 7,
    ensures
        r as nat == be_after(head as nat, bytes@.subrange(from as int, to as int)),
{
    let mut acc: u64 = head as u64;
    let mut i: usize = from;
    while i < to
        invariant
            from <= i <= to,
            to <= bytes@.len(),
            to - from <= 7,
            acc as nat == be_after(head as nat, bytes@.subrange(from as int, i as int)),
        decreases to - i,
    {
        let ghost s = bytes@.subrange(from as int, i as int + 1);
        assert(s.drop_last() =~= bytes@.subrange(from as int, i as int));
        proof {
            lemma_be_after_bound(head as nat, s);
            lemma_pow256_mono(s.len(), 7);
            lemma_pow256_7();
            assert((head as nat + 1) * pow256(s.len()) <= 256 * pow256(7)) by (nonlinear_arith)
                requires head < 256, pow256(s.len()) <= pow256(7);
        }
        acc = acc * 256 + bytes[i] as u64;
        i = i + 1;
    }
    acc
}

/// Width of the integer starting with byte `b`, 0 if it has no marker bit.
pub fn width_of(b: u8) -> (r: usize)
    ensures
        r as nat == vint_width(b),
{
    if b >= 0x80 { 1 }
    else if b >= 0x40 { 2 }
    else if b >= 0x20 { 3 }
    else if b >= 0x10 { 4 }
    else if b >= 0x08 { 5 }
    else if b >= 0x04 { 6 }
    else if b >= 0x02 { 7 }
    else if b >= 0x01 { 8 }
    else { 0 }
}

fn marker_of(width: usize) -> (r: u8)
    requires
        1 <= width <= 8,
    ensures
        r as nat == marker_bit(width as nat),
{
    if width == 1 { 0x80 }
    else if width == 2 { 0x40 }
    else if width == 3 { 0x20 }
    else if width == 4 { 0x10 }
    else if width == 5 { 0x08 }
    else if width == 6 { 0x04 }
    else if width == 7 { 0x02 }
    else { 0x01 }
}

/// Value whose bits are all set across a `width`-byte integer.
pub fn all_ones_of(width: usize) -> (r: u64)
    requires
        1 <= width <= 8,
    ensures
        r as nat == all_ones(width as nat),
{
    if width == 1 { 0x7f }
    else if width == 2 { 0x3fff }
    else if width == 3 { 0x1f_ffff }
    else if width == 4 { 0x0fff_ffff }
    else if width == 5 { 0x07_ffff_ffff }
    else if width == 6 { 0x03ff_ffff_ffff }
    else if width == 7 { 0x01_ffff_ffff_ffff }
    else { 0x00ff_ffff_ffff_ffff }
}

/// What the front of `s` holds as a variable-length integer.
pub open spec fn vint_spec(s: Seq<u8>) -> Vint {
    if s.len() == 0 {
        Vint::Incomplete
    } else if vint_width(s[0]) == 0 {
        Vint::Malformed
    } else if s.len() < vint_width(s[0]) {
        Vint::Incomplete
    } else {
        Vint::Complete {
            value: vint_value(s) as u64,
            raw: vint_raw(s) as u64,
            width: vint_width(s[0]) as usize,
        }
    }
}

/// Decodes the variable-length integer at `bytes[at..]` without consuming it.
pub fn read_vint(bytes: &[u8], at: usize) -> (r: Vint)
    requires
        at <= bytes@.len(),
    ensures
        r == vint_spec(bytes@.subrange(at as int, bytes@.len() as int)),
        r matches Vint::Complete { width, .. } ==> 1 <= width <= 8 && at + width <= bytes@.len(),
        ({
            let s = bytes@.subrange(at as int, bytes@.len() as int);
            r is Complete ==> vint_value(s) <= u64::MAX && vint_raw(s) <= u64::MAX
        }),
{
    let ghost s = bytes@.subrange(at as int, bytes@.len() as int);
    if at >= bytes.len() {
        return Vint::Incomplete;
    }
    let first = bytes[at];
    assert(s[0] == first);
    let width = width_of(first);
    if width == 0 {
        return Vint::Malformed;
    }
    if bytes.len() - at < width {
        return Vint::Incomplete;
    }
    let marker = marker_of(width);
    assert(first >= marker) by {
        assert(vint_width(first) == width as nat);
    }
    let value = fold_be(first - marker, bytes, at + 1, at + width);
    let raw = fold_be(first, bytes, at + 1, at + width);
    assert(s.subrange(1, width as int) =~= bytes@.subrange(at + 1, at + width));
    Vint::Complete { value, raw, width }
}

} // verus!
