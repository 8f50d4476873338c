//! Typed decoding of leaf payloads.
use vstd::prelude::*;
use crate::vint::{be_after, be_value, pow256, fold_be, lemma_be_after_bound, lemma_pow256_mono, lemma_pow256_7};

verus! {

/// The text that `bytes` hold as UTF-8, or `None` where they are not valid UTF-8.
pub uninterp spec fn utf8_text(bytes: Seq<u8>) -> Option<Seq<char>>;

/// Relies on `String::from_utf8`: it succeeds exactly on valid UTF-8, and on
/// failure hands the bytes back through `FromUtf8Error::into_bytes`.
#[verifier::external_body]
pub(crate) fn decode_utf8(bytes: Vec<u8>) -> (r: Result<String, Vec<u8>>)
    ensures
        r is Ok ==> utf8_text(bytes@) == Some(r->Ok_0@),
        r is Err ==> utf8_text(bytes@) is None && r->Err_0@ == bytes@,
        bytes@.len() == 0 ==> r is Ok && r->Ok_0@.len() == 0,
{
    String::from_utf8(bytes).map_err(|e| e.into_bytes())
}

/// Two's-complement value of the big-endian bytes `s`.
pub open spec fn signed_value(s: Seq<u8>) -> int {
    if s.len() > 0 && s[0] >= 0x80 {
        be_value(s) - pow256(s.len())
    } else {
        be_value(s) as int
    }
}

/// Big-endian unsigned integer of at most eight bytes.
pub fn be_u64(bytes: &[u8]) -> (r: u64)
    requires
        bytes@.len() <= 8,
    ensures
        r as nat == be_value(bytes@),
{
    if bytes.len() == 0 {
        return 0;
    }
    let r = fold_be(bytes[0], bytes, 1, bytes.len());
    assert(bytes@.subrange(1, bytes@.len() as int) =~= bytes@.subrange(1, bytes.len() as int));
    r
}

fn pow256_of(n: usize) -> (r: u128)
    requires
        1 <= n <= 8,
    ensures
        r as nat == pow256(n as nat),
{
    proof {
        reveal_with_fuel(pow256, 9);
    }
    if n == 1 { 0x100 }
    else if n == 2 { 0x1_0000 }
    else if n == 3 { 0x100_0000 }
    else if n == 4 { 0x1_0000_0000 }
    else if n == 5 { 0x100_0000_0000 }
    else if n == 6 { 0x1_0000_0000_0000 }
    else if n == 7 { 0x100_0000_0000_0000 }
    else { 0x1_0000_0000_0000_0000 }
}

/// Big-endian two's-complement integer of at most eight bytes.
pub fn be_i64(bytes: &[u8]) -> (r: i64)
    requires
        bytes@.len() <= 8,
    ensures
        r as int == signed_value(bytes@),
{
    let u = be_u64(bytes);
    if bytes.len() == 0 || bytes[0] < 0x80 {
        proof {
            if bytes@.len() > 0 {
                let t = bytes@.subrange(1, bytes@.len() as int);
                lemma_be_after_bound(bytes@[0] as nat, t);
                lemma_pow256_mono(t.len(), 7);
                lemma_pow256_7();
                assert(be_value(bytes@) < 0x80 * 0x100_0000_0000_0000) by (nonlinear_arith)
                    requires be_value(bytes@) < (bytes@[0] as nat + 1) * pow256(t.len()),
                        bytes@[0] < 0x80, pow256(t.len()) <= 0x100_0000_0000_0000;
            }
        }
        return u as i64;
    }
    let p = pow256_of(bytes.len());
    proof {
        let t = bytes@.subrange(1, bytes@.len() as int);
        lemma_be_after_bound(bytes@[0] as nat, t);
        reveal_with_fuel(pow256, 2);
        assert(pow256(bytes@.len() as nat) == 256 * pow256(t.len()));
        assert(be_value(bytes@) >= 0x80 * pow256(t.len())) by (nonlinear_arith)
            requires be_value(bytes@) >= (bytes@[0] as nat) * pow256(t.len()), bytes@[0] >= 0x80;
        lemma_pow256_mono(t.len(), 7);
        lemma_pow256_7();
        assert(be_value(bytes@) < 256 * pow256(t.len())) by (nonlinear_arith)
            requires be_value(bytes@) < (bytes@[0] as nat + 1) * pow256(t.len()), bytes@[0] < 256;
        assert(u as int - p as int >= -0x8000_0000_0000_0000);
    }
    (u as i128 - p as i128) as i64
}

} // verus!
