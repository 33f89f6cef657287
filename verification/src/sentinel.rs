//! Sentinel float patcher: scans a binary buffer byte by byte for four-byte
//! windows holding the little-endian IEEE-754 bit pattern of a reserved
//! sentinel value and overwrites each with a replacement bit pattern. The
//! match is bit-exact, so values merely close to the sentinel are untouched.
use vstd::prelude::*;
use vstd::arithmetic::power2::{
    pow2,
    lemma_pow2_adds,
    lemma_pow2_unfold,
    lemma_pow2_strictly_increases,
    lemma2_to64,
};
use crate::patch::{matches_at, overwrite, lemma_overwrite_props, bytes_disjoint};

verus! {

/// Floor of the base-two logarithm of `n`.
pub open spec fn log2_floor(n: nat) -> nat
    decreases n,
{
    if n < 2 {
        0
    } else {
        1 + log2_floor(n / 2)
    }
}

/// The IEEE-754 single-precision bit pattern of the small positive integer
/// `n`: a biased exponent of `log2_floor(n) + 127` and the 23-bit fraction
/// left once the leading binary digit of `n` is dropped. Integers below
/// 2^24 are exactly representable, so this is exactly how `n` is stored as
/// a 32-bit float.
pub open spec fn float_bits_spec(n: nat) -> nat
    recommends
        1 <= n < pow2(24),
{
    let e = log2_floor(n);
    ((e + 127) * pow2(23) + (n * pow2((23 - e) as nat) - pow2(23))) as nat
}

/// The four little-endian bytes of a 32-bit pattern.
pub open spec fn le_bytes(x: u32) -> Seq<u8> {
    seq![
        (x & 0xff) as u8,
        ((x >> 8) & 0xff) as u8,
        ((x >> 16) & 0xff) as u8,
        ((x >> 24) & 0xff) as u8,
    ]
}

/// The sentinel scan from offset `i` on: each four-byte window equal to
/// `target` as the scan reaches it is overwritten with `rep`, and the scan
/// moves on one byte at a time.
pub open spec fn patch_from(b: Seq<u8>, target: Seq<u8>, rep: Seq<u8>, i: int) -> Seq<u8>
    decreases b.len() - i,
    when target.len() == 4 && rep.len() == 4 && 0 <= i
{
    if i + 4 > b.len() {
        b
    } else if b.subrange(i, i + 4) == target {
        patch_from(overwrite(b, i, rep), target, rep, i + 1)
    } else {
        patch_from(b, target, rep, i + 1)
    }
}

/// Computes the IEEE-754 single-precision bit pattern of the integer `n`.
#[verifier::loop_isolation(false)]
pub fn float_bits_of_int(n: u32) -> (bits: u32)
    requires
        1 <= n < 0x1000000,
    ensures
        bits == float_bits_spec(n as nat),
{
    proof {
        lemma2_to64();
    }
    let mut e: u32 = 0;
    let mut p: u32 = 1;
    while n >= 2 * p
        invariant
            p == pow2(e as nat),
            p <= n,
            e <= 23,
        decreases n - p,
    {
        proof {
            lemma_pow2_unfold((e + 1) as nat);
            if e + 1 > 23 {
                if e + 1 < 24 {
                } else {
                    assert(pow2((e + 1) as nat) >= pow2(24)) by {
                        if e + 1 > 24 {
                            lemma_pow2_strictly_increases(24, (e + 1) as nat);
                        }
                    }
                    assert(false);
                }
            }
        }
        p = 2 * p;
        e = e + 1;
    }
    proof {
        assert(log2_floor(n as nat) == e) by {
            lemma_log2_of_range(n as nat, e as nat);
        }
        lemma_pow2_adds(e as nat, (23 - e) as nat);
        assert(pow2((23 - e) as nat) <= pow2(23)) by {
            if e > 0 {
                lemma_pow2_strictly_increases((23 - e) as nat, 23);
            }
        }
    }
    let q = 0x800000u32 / p;
    proof {
        assert(q == pow2((23 - e) as nat)) by {
            assert(pow2(e as nat) * pow2((23 - e) as nat) / pow2(e as nat) == pow2(
                (23 - e) as nat,
            )) by (nonlinear_arith)
                requires
                    pow2(e as nat) > 0,
            ;
        }
        assert(0x800000 <= n * q < 0x1000000) by (nonlinear_arith)
            requires
                pow2(e as nat) <= n < 2 * pow2(e as nat),
                q == pow2((23 - e) as nat),
                pow2(e as nat) * pow2((23 - e) as nat) == 0x800000,
        ;
    }
    (e + 127) * 0x800000 + (n * q - 0x800000)
}

/// The exponent found by repeated doubling is the floor logarithm.
proof fn lemma_log2_of_range(n: nat, e: nat)
    requires
        pow2(e) <= n < 2 * pow2(e),
    ensures
        log2_floor(n) == e,
    decreases e,
{
    vstd::arithmetic::power2::lemma_pow2_pos(e);
    if e == 0 {
        assert(pow2(0) == 1) by {
            lemma2_to64();
        }
        assert(log2_floor(n) == 0);
    } else {
        lemma_pow2_unfold(e);
        vstd::arithmetic::power2::lemma_pow2_pos((e - 1) as nat);
        assert(pow2((e - 1) as nat) <= n / 2 < 2 * pow2((e - 1) as nat)) by (nonlinear_arith)
            requires
                pow2(e) == 2 * pow2((e - 1) as nat),
                pow2(e) <= n < 2 * pow2(e),
        ;
        lemma_log2_of_range(n / 2, (e - 1) as nat);
        assert(n >= 2);
        assert(log2_floor(n) == 1 + log2_floor(n / 2));
    }
}

/// Overwrites every four-byte window holding exactly the little-endian bit
/// pattern `target_bits` with the bit pattern `replacement_bits`, scanning
/// byte by byte so unaligned values are found as well.
#[verifier::loop_isolation(false)]
pub fn find_and_replace_float(buffer: &mut Vec<u8>, target_bits: u32, replacement_bits: u32)
    ensures
        final(buffer)@ == patch_from(
            old(buffer)@,
            le_bytes(target_bits),
            le_bytes(replacement_bits),
            0,
        ),
        final(buffer)@.len() == old(buffer)@.len(),
{
    let ghost tgt = le_bytes(target_bits);
    let ghost rp = le_bytes(replacement_bits);
    let t0 = (target_bits & 0xff) as u8;
    let t1 = ((target_bits >> 8) & 0xff) as u8;
    let t2 = ((target_bits >> 16) & 0xff) as u8;
    let t3 = ((target_bits >> 24) & 0xff) as u8;
    let r0 = (replacement_bits & 0xff) as u8;
    let r1 = ((replacement_bits >> 8) & 0xff) as u8;
    let r2 = ((replacement_bits >> 16) & 0xff) as u8;
    let r3 = ((replacement_bits >> 24) & 0xff) as u8;
    if buffer.len() < 4 {
        proof {
            assert(patch_from(buffer@, tgt, rp, 0) == buffer@);
        }
        return ;
    }
    let ghost b0 = buffer@;
    let mut i: usize = 0;
    while i <= buffer.len() - 4
        invariant
            buffer@.len() == b0.len(),
            4 <= b0.len(),
            i <= buffer@.len(),
            patch_from(b0, tgt, rp, 0) == patch_from(buffer@, tgt, rp, i as int),
        decreases buffer@.len() - i,
    {
        if buffer[i] == t0 && buffer[i + 1] == t1 && buffer[i + 2] == t2 && buffer[i + 3] == t3 {
            proof {
                assert(buffer@.subrange(i as int, i as int + 4) =~= tgt);
            }
            let ghost before = buffer@;
            buffer.set(i, r0);
            buffer.set(i + 1, r1);
            buffer.set(i + 2, r2);
            buffer.set(i + 3, r3);
            proof {
                assert(buffer@ =~= overwrite(before, i as int, rp));
                assert(patch_from(before, tgt, rp, i as int) == patch_from(
                    buffer@,
                    tgt,
                    rp,
                    i as int + 1,
                ));
            }
        } else {
            proof {
                if buffer@.subrange(i as int, i as int + 4) == tgt {
                    assert(buffer@.subrange(i as int, i as int + 4)[0] == buffer@[i as int]);
                    assert(buffer@.subrange(i as int, i as int + 4)[1] == buffer@[i as int + 1]);
                    assert(buffer@.subrange(i as int, i as int + 4)[2] == buffer@[i as int + 2]);
                    assert(buffer@.subrange(i as int, i as int + 4)[3] == buffer@[i as int + 3]);
                    assert(false);
                }
            }
        }
        i = i + 1;
    }
}

/// No two occurrences of `target` in `b` overlap.
pub open spec fn isolated_matches(b: Seq<u8>, target: Seq<u8>) -> bool {
    forall|k1: int, k2: int|
        matches_at(b, target, k1) && matches_at(b, target, k2) && k1 < k2 ==> k1 + 4 <= k2
}

/// Byte `p` lies inside an occurrence of `target` in `b` starting before `i`.
pub open spec fn covered_before(b: Seq<u8>, target: Seq<u8>, p: int, i: int) -> bool {
    exists|k: int| matches_at(b, target, k) && k < i && k <= p < k + 4
}

/// Byte `p` lies inside some occurrence of `target` in `b`.
pub open spec fn covered(b: Seq<u8>, target: Seq<u8>, p: int) -> bool {
    exists|k: int| matches_at(b, target, k) && k <= p < k + 4
}

/// Induction step of the exactness law: `c` is `b` with every occurrence of
/// the target before `i` already rewritten; finishing the scan from `i`
/// rewrites the remaining occurrences and nothing else.
proof fn lemma_patch_from_general(b: Seq<u8>, c: Seq<u8>, target: Seq<u8>, rep: Seq<u8>, i: int)
    requires
        target.len() == 4,
        rep.len() == 4,
        bytes_disjoint(target, rep),
        isolated_matches(b, target),
        c.len() == b.len(),
        0 <= i,
        forall|k: int| matches_at(b, target, k) && k < i ==> c.subrange(k, k + 4) == rep,
        forall|p: int| 0 <= p < b.len() && !covered_before(b, target, p, i) ==> c[p] == b[p],
    ensures
        patch_from(c, target, rep, i).len() == b.len(),
        forall|k: int|
            matches_at(b, target, k) ==> patch_from(c, target, rep, i).subrange(k, k + 4) == rep,
        forall|p: int|
            0 <= p < b.len() && !covered(b, target, p) ==> patch_from(c, target, rep, i)[p] == b[p],
    decreases b.len() - i,
{
    let r = patch_from(c, target, rep, i);
    if i + 4 > b.len() {
        assert(r == c);
        assert forall|k: int| matches_at(b, target, k) implies c.subrange(k, k + 4) == rep by {
            assert(k < i);
        }
        assert forall|p: int| 0 <= p < b.len() && !covered(b, target, p) implies c[p] == b[p] by {
            if covered_before(b, target, p, i) {
                let k = choose|k: int|
                    matches_at(b, target, k) && k < i && k <= p < k + 4;
                assert(covered(b, target, p));
                assert(false);
            }
        }
    } else if matches_at(b, target, i) {
        assert forall|p: int| i <= p < i + 4 implies c[p] == b[p] by {
            if covered_before(b, target, p, i) {
                let k = choose|k: int|
                    matches_at(b, target, k) && k < i && k <= p < k + 4;
                assert(k + 4 <= i);
                assert(false);
            }
        }
        assert(c.subrange(i, i + 4) =~= target) by {
            assert forall|j: int| 0 <= j < 4 implies c.subrange(i, i + 4)[j] == target[j] by {
                assert(c[i + j] == b[i + j]);
                assert(b.subrange(i, i + 4)[j] == target[j]);
            }
        }
        let c2 = overwrite(c, i, rep);
        lemma_overwrite_props(c, i, rep);
        assert forall|k: int|
            matches_at(b, target, k) && k < i + 1 implies c2.subrange(k, k + 4) == rep by {
            if k < i {
                assert(k + 4 <= i);
                assert(c2.subrange(k, k + 4) =~= c.subrange(k, k + 4));
            } else {
                assert(c2.subrange(i, i + 4) =~= rep);
            }
        }
        assert forall|p: int|
            0 <= p < b.len() && !covered_before(b, target, p, i + 1) implies c2[p] == b[p] by {
            if i <= p < i + 4 {
                assert(covered_before(b, target, p, i + 1));
                assert(false);
            }
            if covered_before(b, target, p, i) {
                let k = choose|k: int|
                    matches_at(b, target, k) && k < i && k <= p < k + 4;
                assert(covered_before(b, target, p, i + 1));
                assert(false);
            }
            assert(c[p] == b[p]);
        }
        lemma_patch_from_general(b, c2, target, rep, i + 1);
        assert(r == patch_from(c2, target, rep, i + 1));
    } else {
        if c.subrange(i, i + 4) == target {
            assert forall|p: int| i <= p < i + 4 implies c[p] == b[p] by {
                if covered_before(b, target, p, i) {
                    let k = choose|k: int|
                        matches_at(b, target, k) && k < i && k <= p < k + 4;
                    assert(c.subrange(k, k + 4) == rep);
                    assert(c.subrange(k, k + 4)[p - k] == c[p]);
                    assert(c[p] == rep[p - k]);
                    assert(c.subrange(i, i + 4)[p - i] == c[p]);
                    assert(c[p] == target[p - i]);
                    assert(target[p - i] != rep[p - k]);
                    assert(false);
                }
            }
            assert(b.subrange(i, i + 4) =~= target) by {
                assert forall|j: int| 0 <= j < 4 implies b.subrange(i, i + 4)[j] == target[j] by {
                    assert(c[i + j] == b[i + j]);
                    assert(c.subrange(i, i + 4)[j] == target[j]);
                }
            }
            assert(matches_at(b, target, i));
            assert(false);
        }
        assert forall|k: int|
            matches_at(b, target, k) && k < i + 1 implies c.subrange(k, k + 4) == rep by {
            assert(k != i);
        }
        assert forall|p: int|
            0 <= p < b.len() && !covered_before(b, target, p, i + 1) implies c[p] == b[p] by {
            if covered_before(b, target, p, i) {
                let k = choose|k: int|
                    matches_at(b, target, k) && k < i && k <= p < k + 4;
                assert(covered_before(b, target, p, i + 1));
                assert(false);
            }
        }
        lemma_patch_from_general(b, c, target, rep, i + 1);
        assert(r == patch_from(c, target, rep, i + 1));
    }
}

/// Exactness of the sentinel scan: when the target bytes share no byte with
/// the replacement and no two occurrences of the target overlap, the scan
/// rewrites every window that held the target bit pattern with the
/// replacement and leaves each byte outside those windows untouched, so a
/// window close to, but not bit-equal to, the target is never altered.
pub proof fn lemma_patch_floats_exact(b: Seq<u8>, target: Seq<u8>, rep: Seq<u8>)
    requires
        target.len() == 4,
        rep.len() == 4,
        bytes_disjoint(target, rep),
        isolated_matches(b, target),
    ensures
        patch_from(b, target, rep, 0).len() == b.len(),
        forall|k: int|
            matches_at(b, target, k) ==> patch_from(b, target, rep, 0).subrange(k, k + 4) == rep,
        forall|p: int|
            0 <= p < b.len() && !covered(b, target, p) ==> patch_from(b, target, rep, 0)[p] == b[p],
{
    lemma_patch_from_general(b, b, target, rep, 0);
}

} // verus!
