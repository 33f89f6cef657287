//! Byte-pattern substitution engine: finds exact byte sequences inside a
//! binary buffer and overwrites them in place, either every non-overlapping
//! occurrence or only the first one. Replacements are padded with `'X'` to
//! the width of the pattern, so the buffer length never changes.
use vstd::prelude::*;
use crate::codec::{elongate, pad_spec, LengthError};

verus! {

/// The fill byte used to widen a replacement to the width of the pattern it
/// overwrites: ASCII `'X'`.
pub const FILL_X: u8 = 88;

/// The pattern occurs in `b` at offset `i`.
pub open spec fn matches_at(b: Seq<u8>, pat: Seq<u8>, i: int) -> bool {
    0 <= i && i + pat.len() <= b.len() && b.subrange(i, i + pat.len()) == pat
}

/// `b` with the bytes at `at .. at + s.len()` overwritten by `s`.
pub open spec fn overwrite(b: Seq<u8>, at: int, s: Seq<u8>) -> Seq<u8> {
    b.take(at) + s + b.skip(at + s.len())
}

/// Offset of the first occurrence of `pat` in `b` at or after `i`, or `-1`
/// if there is none.
pub open spec fn find_from(b: Seq<u8>, pat: Seq<u8>, i: int) -> int
    decreases b.len() - i,
    when pat.len() >= 1
{
    if i + pat.len() > b.len() {
        -1
    } else if matches_at(b, pat, i) {
        i
    } else {
        find_from(b, pat, i + 1)
    }
}

/// Number of occurrences of `pat` in `b` found by a left-to-right scan that
/// resumes immediately after each consumed match.
pub open spec fn count_from(b: Seq<u8>, pat: Seq<u8>, i: int) -> nat
    decreases b.len() - i,
    when pat.len() >= 1
{
    if i + pat.len() > b.len() {
        0
    } else if matches_at(b, pat, i) {
        1 + count_from(b, pat, i + pat.len())
    } else {
        count_from(b, pat, i + 1)
    }
}

/// `b` after a left-to-right scan from `i` that overwrites every
/// non-overlapping occurrence of `pat` with `rep` and resumes immediately
/// after each consumed match.
pub open spec fn rep_all_from(b: Seq<u8>, pat: Seq<u8>, rep: Seq<u8>, i: int) -> Seq<u8>
    decreases b.len() - i,
    when pat.len() >= 1 && rep.len() == pat.len()
{
    if i + pat.len() > b.len() {
        b
    } else if matches_at(b, pat, i) {
        rep_all_from(overwrite(b, i, rep), pat, rep, i + pat.len())
    } else {
        rep_all_from(b, pat, rep, i + 1)
    }
}

/// `b` with only the first occurrence of `pat`, if any, overwritten by `rep`.
pub open spec fn replace_first_spec(b: Seq<u8>, pat: Seq<u8>, rep: Seq<u8>) -> Seq<u8> {
    let m = find_from(b, pat, 0);
    if m == -1 {
        b
    } else {
        overwrite(b, m, rep)
    }
}

/// Basic shape of an overwrite: the length is kept, the written range holds
/// `s`, and every byte outside it is untouched.
pub proof fn lemma_overwrite_props(b: Seq<u8>, at: int, s: Seq<u8>)
    requires
        0 <= at,
        at + s.len() <= b.len(),
    ensures
        overwrite(b, at, s).len() == b.len(),
        forall|p: int| 0 <= p < at ==> overwrite(b, at, s)[p] == b[p],
        forall|p: int| at <= p < at + s.len() ==> overwrite(b, at, s)[p] == s[p - at],
        forall|p: int| at + s.len() <= p < b.len() ==> overwrite(b, at, s)[p] == b[p],
{
}

/// A substitution scan with a replacement as wide as the pattern keeps the
/// buffer length.
pub proof fn lemma_rep_all_len(b: Seq<u8>, pat: Seq<u8>, rep: Seq<u8>, i: int)
    requires
        pat.len() >= 1,
        rep.len() == pat.len(),
    ensures
        rep_all_from(b, pat, rep, i).len() == b.len(),
    decreases b.len() - i,
{
    if i + pat.len() > b.len() {
    } else if matches_at(b, pat, i) {
        lemma_overwrite_props(b, i, rep);
        lemma_rep_all_len(overwrite(b, i, rep), pat, rep, i + pat.len());
    } else {
        lemma_rep_all_len(b, pat, rep, i + 1);
    }
}

/// What a successful or failed search means: a found offset lies at or after
/// the start, carries a real match, and skips no earlier one; a failed
/// search means there is no match at or after the start.
pub proof fn lemma_find_props(b: Seq<u8>, pat: Seq<u8>, i: int)
    requires
        pat.len() >= 1,
    ensures
        find_from(b, pat, i) != -1 ==> i <= find_from(b, pat, i) && matches_at(
            b,
            pat,
            find_from(b, pat, i),
        ),
        forall|k: int| i <= k < find_from(b, pat, i) ==> !matches_at(b, pat, k),
        find_from(b, pat, i) == -1 ==> forall|k: int| i <= k ==> !matches_at(b, pat, k),
    decreases b.len() - i,
{
    if i + pat.len() > b.len() {
        assert forall|k: int| i <= k implies !matches_at(b, pat, k) by {
            assert(k + pat.len() > b.len());
        }
    } else if matches_at(b, pat, i) {
    } else {
        lemma_find_props(b, pat, i + 1);
    }
}

/// A scan started anywhere inside a match-free stretch ends the same way.
pub proof fn lemma_rep_all_skip(b: Seq<u8>, pat: Seq<u8>, rep: Seq<u8>, i: int, j: int)
    requires
        pat.len() >= 1,
        rep.len() == pat.len(),
        i <= j,
        forall|k: int| i <= k < j ==> !matches_at(b, pat, k),
    ensures
        rep_all_from(b, pat, rep, i) == rep_all_from(b, pat, rep, j),
    decreases j - i,
{
    if i < j {
        if i + pat.len() > b.len() {
            assert(rep_all_from(b, pat, rep, j) == b);
        } else {
            assert(!matches_at(b, pat, i));
            lemma_rep_all_skip(b, pat, rep, i + 1, j);
        }
    }
}

/// A scan started where no match remains leaves the buffer unchanged.
pub proof fn lemma_rep_all_none(b: Seq<u8>, pat: Seq<u8>, rep: Seq<u8>, i: int)
    requires
        pat.len() >= 1,
        rep.len() == pat.len(),
        find_from(b, pat, i) == -1,
    ensures
        rep_all_from(b, pat, rep, i) == b,
    decreases b.len() - i,
{
    if i + pat.len() > b.len() {
    } else if matches_at(b, pat, i) {
        assert(find_from(b, pat, i) == i);
    } else {
        lemma_rep_all_none(b, pat, rep, i + 1);
    }
}

/// A count started anywhere inside a match-free stretch is the same.
pub proof fn lemma_count_skip(b: Seq<u8>, pat: Seq<u8>, i: int, j: int)
    requires
        pat.len() >= 1,
        i <= j,
        forall|k: int| i <= k < j ==> !matches_at(b, pat, k),
    ensures
        count_from(b, pat, i) == count_from(b, pat, j),
    decreases j - i,
{
    if i < j {
        if i + pat.len() > b.len() {
            assert(count_from(b, pat, j) == 0);
        } else {
            assert(!matches_at(b, pat, i));
            lemma_count_skip(b, pat, i + 1, j);
        }
    }
}

/// The scan cannot count more occurrences than there are bytes left.
pub proof fn lemma_count_bound(b: Seq<u8>, pat: Seq<u8>, i: int)
    requires
        pat.len() >= 1,
        0 <= i <= b.len(),
    ensures
        count_from(b, pat, i) <= b.len() - i,
    decreases b.len() - i,
{
    if i + pat.len() > b.len() {
    } else if matches_at(b, pat, i) {
        lemma_count_bound(b, pat, i + pat.len());
    } else {
        lemma_count_bound(b, pat, i + 1);
    }
}

/// A buffer without any occurrence of the pattern counts zero.
pub proof fn lemma_count_zero(b: Seq<u8>, pat: Seq<u8>, i: int)
    requires
        pat.len() >= 1,
        forall|k: int| i <= k ==> !matches_at(b, pat, k),
    ensures
        count_from(b, pat, i) == 0,
    decreases b.len() - i,
{
    if i + pat.len() > b.len() {
    } else {
        assert(!matches_at(b, pat, i));
        lemma_count_zero(b, pat, i + 1);
    }
}

/// Finds and overwrites every non-overlapping occurrence of `pattern` in
/// `data`, left to right, with `replacement` padded at the front with `'X'`
/// to the width of the pattern. Absence of the pattern is not an error; a
/// replacement wider than the pattern is, and leaves the buffer untouched.
#[verifier::loop_isolation(false)]
pub fn replace_all_strings_in_bytes(data: &mut Vec<u8>, pattern: &[u8], replacement: &[u8])
    -> (result: Result<(), LengthError>)
    requires
        pattern@.len() >= 1,
    ensures
        result is Err <==> replacement@.len() > pattern@.len(),
        result is Err ==> final(data)@ == old(data)@,
        result is Ok ==> final(data)@ == rep_all_from(
            old(data)@,
            pattern@,
            pad_spec(replacement@, FILL_X, pattern@.len() as int, true),
            0,
        ),
        final(data)@.len() == old(data)@.len(),
{
    let padded = match elongate(replacement, FILL_X, pattern.len(), true) {
        Ok(p) => p,
        Err(e) => {
            return Err(e);
        },
    };
    let _n = data.len();
    let ghost d0 = data@;
    let ghost pad = padded@;
    proof {
        lemma_rep_all_len(d0, pattern@, pad, 0);
    }
    let mut position: usize = 0;
    loop
        invariant
            pattern@.len() >= 1,
            pad.len() == pattern@.len(),
            padded@ == pad,
            data@.len() == d0.len(),
            position <= data@.len(),
            rep_all_from(d0, pattern@, pad, 0) == rep_all_from(data@, pattern@, pad, position as int),
        decreases data@.len() - position,
    {
        let found = find_first_from(data, pattern, position);
        match found {
            None => {
                proof {
                    lemma_rep_all_none(data@, pattern@, pad, position as int);
                }
                return Ok(());
            },
            Some(m) => {
                proof {
                    lemma_find_props(data@, pattern@, position as int);
                    lemma_rep_all_skip(data@, pattern@, pad, position as int, m as int);
                    lemma_overwrite_props(data@, m as int, pad);
                }
                let ghost before = data@;
                write_range(data, m, padded.as_slice());
                proof {
                    assert(rep_all_from(before, pattern@, pad, m as int) == rep_all_from(
                        data@,
                        pattern@,
                        pad,
                        m + pattern@.len(),
                    ));
                }
                position = m + pattern.len();
            },
        }
    }
}

/// Counts the non-overlapping occurrences of `search` in `data`, scanning
/// left to right and resuming after each consumed match.
#[verifier::loop_isolation(false)]
pub fn count_strings_in_bytes(data: &[u8], search: &[u8]) -> (count: u32)
    requires
        search@.len() >= 1,
        data@.len() <= u32::MAX,
    ensures
        count == count_from(data@, search@, 0),
{
    let _n = data.len();
    let mut counter: u32 = 0;
    let mut position: usize = 0;
    proof {
        lemma_count_bound(data@, search@, 0);
    }
    loop
        invariant
            search@.len() >= 1,
            data@.len() <= u32::MAX,
            position <= data@.len(),
            count_from(data@, search@, 0) == counter + count_from(data@, search@, position as int),
            counter <= position,
        decreases data@.len() - position,
    {
        let found = find_first_from_slice(data, search, position);
        match found {
            None => {
                proof {
                    lemma_find_props(data@, search@, position as int);
                    lemma_count_zero(data@, search@, position as int);
                }
                return counter;
            },
            Some(m) => {
                proof {
                    lemma_find_props(data@, search@, position as int);
                    lemma_count_skip(data@, search@, position as int, m as int);
                    lemma_count_bound(data@, search@, m + search@.len());
                }
                counter = counter + 1;
                position = m + search.len();
            },
        }
    }
}

/// Finds and overwrites only the first occurrence of `pattern` in `data`
/// with `replacement` padded at the front with `'X'` to the width of the
/// pattern; a buffer without the pattern is left unchanged.
pub fn replace_first_string_in_bytes(data: &mut Vec<u8>, pattern: &[u8], replacement: &[u8])
    -> (result: Result<(), LengthError>)
    requires
        pattern@.len() >= 1,
    ensures
        result is Err <==> replacement@.len() > pattern@.len(),
        result is Err ==> final(data)@ == old(data)@,
        result is Ok ==> final(data)@ == replace_first_spec(
            old(data)@,
            pattern@,
            pad_spec(replacement@, FILL_X, pattern@.len() as int, true),
        ),
        final(data)@.len() == old(data)@.len(),
{
    let padded = match elongate(replacement, FILL_X, pattern.len(), true) {
        Ok(p) => p,
        Err(e) => {
            return Err(e);
        },
    };
    let found = find_first_from(data, pattern, 0);
    match found {
        None => Ok(()),
        Some(m) => {
            proof {
                lemma_overwrite_props(data@, m as int, padded@);
            }
            write_range(data, m, padded.as_slice());
            Ok(())
        },
    }
}

/// Compares the bytes of `data` at `at` with `pat`.
#[verifier::loop_isolation(false)]
fn is_match(data: &[u8], pat: &[u8], at: usize) -> (r: bool)
    requires
        at + pat@.len() <= data@.len(),
    ensures
        r == matches_at(data@, pat@, at as int),
{
    let _n = data.len();
    let mut j: usize = 0;
    while j < pat.len()
        invariant
            at + pat@.len() <= data@.len(),
            j <= pat@.len(),
            forall|k: int| 0 <= k < j ==> data@[at as int + k] == pat@[k],
        decreases pat@.len() - j,
    {
        if data[at + j] != pat[j] {
            proof {
                if matches_at(data@, pat@, at as int) {
                    assert(data@.subrange(at as int, at as int + pat@.len() as int)[j as int]
                        == pat@[j as int]);
                }
            }
            return false;
        }
        j = j + 1;
    }
    proof {
        assert(data@.subrange(at as int, at as int + pat@.len() as int) =~= pat@);
    }
    true
}

/// Finds the first occurrence of `pat` in `data` at or after `from`.
#[verifier::loop_isolation(false)]
fn find_first_from_slice(data: &[u8], pat: &[u8], from: usize) -> (r: Option<usize>)
    requires
        pat@.len() >= 1,
    ensures
        match r {
            Some(m) => {
                &&& from <= m
                &&& m + pat@.len() <= data@.len()
                &&& matches_at(data@, pat@, m as int)
                &&& find_from(data@, pat@, from as int) == m
            },
            None => find_from(data@, pat@, from as int) == -1,
        },
{
    if data.len() < pat.len() || from > data.len() - pat.len() {
        proof {
            lemma_find_props(data@, pat@, from as int);
            if find_from(data@, pat@, from as int) != -1 {
                assert(matches_at(data@, pat@, find_from(data@, pat@, from as int)));
            }
        }
        return None;
    }
    let last = data.len() - pat.len();
    let mut i: usize = from;
    while i <= last
        invariant
            from <= i,
            i <= last + 1,
            pat@.len() + last == data@.len(),
            find_from(data@, pat@, from as int) == find_from(data@, pat@, i as int),
        decreases last + 1 - i,
    {
        if is_match(data, pat, i) {
            return Some(i);
        }
        i = i + 1;
    }
    proof {
        assert(find_from(data@, pat@, i as int) == -1);
    }
    None
}

/// Finds the first occurrence of `pat` in `data` at or after `from`.
fn find_first_from(data: &Vec<u8>, pat: &[u8], from: usize) -> (r: Option<usize>)
    requires
        pat@.len() >= 1,
    ensures
        match r {
            Some(m) => {
                &&& from <= m
                &&& m + pat@.len() <= data@.len()
                &&& matches_at(data@, pat@, m as int)
                &&& find_from(data@, pat@, from as int) == m
            },
            None => find_from(data@, pat@, from as int) == -1,
        },
{
    find_first_from_slice(data.as_slice(), pat, from)
}

/// Overwrites the bytes of `data` at `at .. at + src.len()` with `src`.
#[verifier::loop_isolation(false)]
fn write_range(data: &mut Vec<u8>, at: usize, src: &[u8])
    requires
        at + src@.len() <= old(data)@.len(),
    ensures
        final(data)@ == overwrite(old(data)@, at as int, src@),
{
    let _n = data.len();
    let ghost d0 = old(data)@;
    let mut j: usize = 0;
    while j < src.len()
        invariant
            at + src@.len() <= d0.len(),
            data@.len() == d0.len(),
            j <= src@.len(),
            forall|p: int| 0 <= p < d0.len() && !(at <= p < at + j) ==> data@[p] == d0[p],
            forall|k: int| 0 <= k < j ==> data@[at as int + k] == src@[k],
        decreases src@.len() - j,
    {
        data.set(at + j, src[j]);
        j = j + 1;
    }
    proof {
        assert(data@ =~= overwrite(d0, at as int, src@));
    }
}

/// No byte of `a` occurs in `b`.
pub open spec fn bytes_disjoint(a: Seq<u8>, b: Seq<u8>) -> bool {
    forall|i: int, j: int| 0 <= i < a.len() && 0 <= j < b.len() ==> a[i] != b[j]
}

/// A replacement that can never recreate the pattern: it is as wide as the
/// pattern but differs from it (so the pattern does not re-occur inside
/// it), no proper suffix of the pattern is a prefix of the replacement,
/// and no proper prefix of the pattern is a suffix of the replacement (so
/// the pattern cannot straddle the edge of a replaced stretch either).
pub open spec fn safe_replacement(pat: Seq<u8>, rep: Seq<u8>) -> bool {
    &&& pat.len() == rep.len()
    &&& pat != rep
    &&& forall|d: int|
        1 <= d < pat.len() ==> pat.subrange(pat.len() - d, pat.len() as int) != rep.subrange(0, d)
    &&& forall|d: int|
        1 <= d < pat.len() ==> pat.subrange(0, d) != rep.subrange(rep.len() - d, rep.len() as int)
}

/// A window that intersects a freshly replaced stretch holds no match of
/// the pattern, as long as the replacement is safe.
proof fn lemma_no_match_into_replacement(b: Seq<u8>, pat: Seq<u8>, rep: Seq<u8>, i: int, k: int)
    requires
        pat.len() >= 1,
        safe_replacement(pat, rep),
        0 <= i,
        i + pat.len() <= b.len(),
        k + pat.len() > i,
        k < i + pat.len(),
        0 <= k,
        k + pat.len() <= b.len(),
    ensures
        !matches_at(overwrite(b, i, rep), pat, k),
{
    let len = pat.len() as int;
    let b2 = overwrite(b, i, rep);
    lemma_overwrite_props(b, i, rep);
    if matches_at(b2, pat, k) {
        assert forall|q: int| 0 <= q < len implies pat[q] == b2[k + q] by {
            assert(b2.subrange(k, k + len)[q] == pat[q]);
        }
        if k == i {
            assert(pat =~= rep);
        } else if k < i {
            let d = k + len - i;
            assert(1 <= d < len);
            assert(pat.subrange(len - d, len) =~= rep.subrange(0, d)) by {
                assert forall|q: int| 0 <= q < d implies pat.subrange(len - d, len)[q]
                    == rep.subrange(0, d)[q] by {
                    assert(pat[len - d + q] == b2[i + q]);
                    assert(b2[i + q] == rep[q]);
                }
            }
        } else {
            let d = i + len - k;
            assert(1 <= d < len);
            assert(pat.subrange(0, d) =~= rep.subrange(len - d, len)) by {
                assert forall|q: int| 0 <= q < d implies pat.subrange(0, d)[q]
                    == rep.subrange(len - d, len)[q] by {
                    assert(pat[q] == b2[k + q]);
                    assert(b2[k + q] == rep[k + q - i]);
                }
            }
        }
        assert(false);
    }
}

/// The scan sees at least one occurrence when one lies at or after its
/// starting point.
proof fn lemma_count_pos(b: Seq<u8>, pat: Seq<u8>, i: int, k: int)
    requires
        pat.len() >= 1,
        i <= k,
        matches_at(b, pat, k),
    ensures
        count_from(b, pat, i) >= 1,
    decreases b.len() - i,
{
    if i + pat.len() > b.len() {
        assert(false);
    } else if matches_at(b, pat, i) {
    } else {
        assert(i != k);
        lemma_count_pos(b, pat, i + 1, k);
    }
}

/// Core of the removal law: with a safe replacement, a scan that has left
/// no match behind it leaves a buffer without any match at all.
proof fn lemma_rep_all_clean(b: Seq<u8>, pat: Seq<u8>, rep: Seq<u8>, i: int)
    requires
        pat.len() >= 1,
        safe_replacement(pat, rep),
        forall|k: int| k < i ==> !matches_at(b, pat, k),
    ensures
        forall|k: int| !matches_at(rep_all_from(b, pat, rep, i), pat, k),
    decreases b.len() - i,
{
    if i + pat.len() > b.len() {
        assert(rep_all_from(b, pat, rep, i) == b);
        assert forall|k: int| !matches_at(b, pat, k) by {
            if 0 <= k && k + pat.len() <= b.len() {
                assert(k < i);
                assert(!matches_at(b, pat, k));
            }
        }
    } else if matches_at(b, pat, i) {
        let b2 = overwrite(b, i, rep);
        lemma_overwrite_props(b, i, rep);
        assert forall|k: int| k < i + pat.len() implies !matches_at(b2, pat, k) by {
            if 0 <= k && k + pat.len() <= b2.len() {
                if k + pat.len() > i {
                    lemma_no_match_into_replacement(b, pat, rep, i, k);
                } else {
                    if matches_at(b2, pat, k) {
                        assert(b2.subrange(k, k + pat.len()) =~= b.subrange(k, k + pat.len()));
                        assert(matches_at(b, pat, k));
                        assert(k < i);
                        assert(false);
                    }
                }
            }
        }
        lemma_rep_all_clean(b2, pat, rep, i + pat.len());
        assert(rep_all_from(b, pat, rep, i) == rep_all_from(b2, pat, rep, i + pat.len()));
    } else {
        assert forall|k: int| k < i + 1 implies !matches_at(b, pat, k) by {
            if k < i {
                assert(!matches_at(b, pat, k));
            }
        }
        lemma_rep_all_clean(b, pat, rep, i + 1);
        assert(rep_all_from(b, pat, rep, i) == rep_all_from(b, pat, rep, i + 1));
    }
}

/// Full substitution keeps the byte length unchanged and, with a safe
/// replacement — one the pattern neither occurs in nor can straddle the
/// edge of — drives the count of the pattern over the patched buffer to
/// zero.
pub proof fn lemma_replace_all_removes_pattern(b: Seq<u8>, pat: Seq<u8>, rep: Seq<u8>)
    requires
        pat.len() >= 1,
        safe_replacement(pat, rep),
    ensures
        rep_all_from(b, pat, rep, 0).len() == b.len(),
        count_from(rep_all_from(b, pat, rep, 0), pat, 0) == 0,
{
    lemma_rep_all_len(b, pat, rep, 0);
    lemma_rep_all_clean(b, pat, rep, 0);
    lemma_count_zero(rep_all_from(b, pat, rep, 0), pat, 0);
}

/// One-shot substitution is idempotent: on a buffer holding exactly one
/// occurrence of the pattern, with a safe replacement — one the pattern
/// neither occurs in nor can straddle the edge of — the substitution
/// removes the only occurrence, so a second one with the same pattern
/// finds nothing and changes nothing.
pub proof fn lemma_replace_first_idempotent(b: Seq<u8>, pat: Seq<u8>, rep: Seq<u8>)
    requires
        pat.len() >= 1,
        safe_replacement(pat, rep),
        count_from(b, pat, 0) == 1,
    ensures
        count_from(replace_first_spec(b, pat, rep), pat, 0) == 0,
        replace_first_spec(replace_first_spec(b, pat, rep), pat, rep) == replace_first_spec(
            b,
            pat,
            rep,
        ),
{
    lemma_find_props(b, pat, 0);
    let m = find_from(b, pat, 0);
    if m == -1 {
        lemma_count_zero(b, pat, 0);
        assert(false);
    }
    assert(matches_at(b, pat, m));
    let r = overwrite(b, m, rep);
    lemma_overwrite_props(b, m, rep);
    assert forall|k: int| !matches_at(r, pat, k) by {
        if 0 <= k && k + pat.len() <= r.len() {
            if k + pat.len() > m && k < m + pat.len() {
                lemma_no_match_into_replacement(b, pat, rep, m, k);
            } else if k + pat.len() <= m {
                if matches_at(r, pat, k) {
                    assert(r.subrange(k, k + pat.len()) =~= b.subrange(k, k + pat.len()));
                    assert(matches_at(b, pat, k));
                    assert(false);
                }
            } else {
                if matches_at(r, pat, k) {
                    assert(r.subrange(k, k + pat.len()) =~= b.subrange(k, k + pat.len()));
                    assert(matches_at(b, pat, k));
                    lemma_count_skip(b, pat, 0, m);
                    lemma_count_pos(b, pat, m + pat.len(), k);
                    assert(false);
                }
            }
        }
    }
    lemma_count_zero(r, pat, 0);
    lemma_find_props(r, pat, 0);
    if find_from(r, pat, 0) != -1 {
        assert(matches_at(r, pat, find_from(r, pat, 0)));
        assert(false);
    }
}

} // verus!
