//! Identifier padding codec: renders a short name into a fixed-width token
//! by filling with a chosen byte on one side.
use vstd::prelude::*;

verus! {

/// Error returned when a name is longer than the fixed width it must fit.
#[derive(Clone, Copy, PartialEq, Eq, Structural, Debug)]
pub struct LengthError;

/// A run of `n` copies of `fill`.
pub open spec fn fill_seq(fill: u8, n: int) -> Seq<u8> {
    Seq::new(n as nat, |i: int| fill)
}

/// The fixed-width encoding of `name`: `fill` bytes put at the front
/// (`leading`) or at the back (otherwise) until the length is `length`.
pub open spec fn pad_spec(name: Seq<u8>, fill: u8, length: int, leading: bool) -> Seq<u8> {
    if leading {
        fill_seq(fill, length - name.len()) + name
    } else {
        name + fill_seq(fill, length - name.len())
    }
}

/// Appends every byte of `src` to `dst`.
pub fn push_all(dst: &mut Vec<u8>, src: &[u8])
    ensures
        final(dst)@ == old(dst)@ + src@,
{
    let ghost dst0 = old(dst)@;
    let mut i: usize = 0;
    while i < src.len()
        invariant
            i <= src@.len(),
            dst@ == dst0 + src@.take(i as int),
        decreases src@.len() - i,
    {
        dst.push(src[i]);
        i = i + 1;
        proof {
            assert(dst@ =~= dst0 + src@.take(i as int));
        }
    }
    proof {
        assert(dst0 + src@.take(i as int) =~= dst0 + src@);
    }
}

/// Appends `n` copies of `fill` to `dst`.
pub fn push_fill(dst: &mut Vec<u8>, fill: u8, n: usize)
    ensures
        final(dst)@ == old(dst)@ + fill_seq(fill, n as int),
{
    let ghost dst0 = old(dst)@;
    let mut i: usize = 0;
    while i < n
        invariant
            i <= n,
            dst@ == dst0 + fill_seq(fill, i as int),
        decreases n - i,
    {
        dst.push(fill);
        i = i + 1;
        proof {
            assert(dst@ =~= dst0 + fill_seq(fill, i as int));
        }
    }
}

/// Pads `name` with `fill` on the chosen side to exactly `length` bytes;
/// a name longer than `length` is rejected.
pub fn elongate(name: &[u8], fill: u8, length: usize, leading: bool) -> (result: Result<
    Vec<u8>,
    LengthError,
>)
    ensures
        result is Err <==> name@.len() > length,
        result matches Ok(padded) ==> padded@ == pad_spec(name@, fill, length as int, leading),
{
    if name.len() > length {
        return Err(LengthError);
    }
    let pad_len = length - name.len();
    let mut out: Vec<u8> = Vec::new();
    if leading {
        push_fill(&mut out, fill, pad_len);
        push_all(&mut out, name);
    } else {
        push_all(&mut out, name);
        push_fill(&mut out, fill, pad_len);
    }
    proof {
        assert(out@ =~= pad_spec(name@, fill, length as int, leading));
    }
    Ok(out)
}

/// Padding round-trip: a name that fits gives a padded form of exactly the
/// requested length, and stripping the `length - name.len()` fill bytes from
/// the side they were added on recovers the name unchanged.
pub proof fn lemma_pad_roundtrip(name: Seq<u8>, fill: u8, length: int, leading: bool)
    requires
        name.len() <= length,
    ensures
        pad_spec(name, fill, length, leading).len() == length,
        leading ==> pad_spec(name, fill, length, leading).skip(length - name.len()) == name,
        leading ==> pad_spec(name, fill, length, leading).take(length - name.len()) == fill_seq(
            fill,
            length - name.len(),
        ),
        !leading ==> pad_spec(name, fill, length, leading).take(name.len() as int) == name,
        !leading ==> pad_spec(name, fill, length, leading).skip(name.len() as int) == fill_seq(
            fill,
            length - name.len(),
        ),
{
    let padded = pad_spec(name, fill, length, leading);
    if leading {
        assert(padded.skip(length - name.len()) =~= name);
        assert(padded.take(length - name.len()) =~= fill_seq(fill, length - name.len()));
    } else {
        assert(padded.take(name.len() as int) =~= name);
        assert(padded.skip(name.len() as int) =~= fill_seq(fill, length - name.len()));
    }
}

/// A name already at the target length is unchanged by padding.
pub proof fn lemma_pad_exact_len(name: Seq<u8>, fill: u8, length: int, leading: bool)
    requires
        name.len() == length,
    ensures
        pad_spec(name, fill, length, leading) == name,
{
    assert(pad_spec(name, fill, length, leading) =~= name);
}

} // verus!
