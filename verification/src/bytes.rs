//! Big-endian numbers in a byte stream.

use vstd::prelude::*;
use vstd::slice::*;

verus! {

/// `n` as `count` bytes, the most significant first. What does not fit is cut
/// off.
pub open spec fn be_bytes(n: nat, count: nat) -> Seq<u8>
    decreases count,
{
    if count == 0 {
        seq![]
    } else {
        be_bytes(n / 256, (count - 1) as nat).push((n % 256) as u8)
    }
}

/// The number that bytes stand for, the most significant first.
pub open spec fn be_value(bytes: Seq<u8>) -> nat
    decreases bytes.len(),
{
    if bytes.len() == 0 {
        0
    } else {
        be_value(bytes.drop_last()) * 256 + bytes.last() as nat
    }
}

/// The numbers that fit in `count` bytes are those below this bound.
pub open spec fn be_bound(count: nat) -> nat
    decreases count,
{
    if count == 0 {
        1
    } else {
        be_bound((count - 1) as nat) * 256
    }
}

/// A number that fits is read back as it was written.
pub proof fn be_round_trip(n: nat, count: nat)
    requires
        n < be_bound(count),
    ensures
        be_bytes(n, count).len() == count,
        be_value(be_bytes(n, count)) == n,
    decreases count,
{
    if count > 0 {
        let higher = be_bytes(n / 256, (count - 1) as nat);
        be_round_trip(n / 256, (count - 1) as nat);
        assert(be_bytes(n, count).drop_last() =~= higher);
    }
}

/// Bytes stand for a number that fits in as many bytes.
pub proof fn be_value_fits(bytes: Seq<u8>)
    ensures
        be_value(bytes) < be_bound(bytes.len()),
    decreases bytes.len(),
{
    if bytes.len() > 0 {
        be_value_fits(bytes.drop_last());
    }
}

/// Different byte strings of the same length stand for different numbers: what
/// was read is what writes back the same bytes.
pub proof fn be_value_is_exact(bytes: Seq<u8>)
    ensures
        be_bytes(be_value(bytes), bytes.len()) == bytes,
    decreases bytes.len(),
{
    if bytes.len() > 0 {
        be_value_is_exact(bytes.drop_last());
        assert(be_value(bytes) / 256 == be_value(bytes.drop_last()));
        assert(be_bytes(be_value(bytes), bytes.len()) =~= bytes);
    } else {
        assert(be_bytes(be_value(bytes), bytes.len()) =~= bytes);
    }
}

/// The bounds of the two widths in use.
pub proof fn be_bounds()
    ensures
        be_bound(4) == 0x1_0000_0000,
        be_bound(8) == 0x1_0000_0000_0000_0000,
{
    assert(be_bound(4) == 0x1_0000_0000) by {
        reveal_with_fuel(be_bound, 5);
    }
    assert(be_bound(8) == 0x1_0000_0000_0000_0000) by {
        reveal_with_fuel(be_bound, 5);
    }
}

/// Append `n` as `count` bytes.
pub fn push_be(out: &mut Vec<u8>, n: u64, count: usize)
    ensures
        final(out)@ == old(out)@ + be_bytes(n as nat, count as nat),
    decreases count,
{
    let ghost before = out@;
    if count > 0 {
        push_be(out, n / 256, count - 1);
        out.push((n % 256) as u8);
    }
    assert(out@ =~= before + be_bytes(n as nat, count as nat));
}

/// The number that at most eight bytes stand for.
pub fn read_be(bytes: &[u8]) -> (r: u64)
    requires
        bytes@.len() <= 8,
    ensures
        r == be_value(bytes@),
{
    let mut value: u64 = 0;
    let mut i: usize = 0;
    assert(be_value(bytes@.take(0)) == 0);
    while i < bytes.len()
        invariant
            i <= bytes@.len() <= 8,
            value == be_value(bytes@.take(i as int)),
        decreases bytes@.len() - i,
    {
        proof {
            let next = bytes@.take(i + 1);
            assert(next.drop_last() =~= bytes@.take(i as int));
            be_value_fits(next);
            be_bounds();
            be_bound_grows(next.len(), 8);
        }
        value = value * 256 + bytes[i] as u64;
        i += 1;
    }
    assert(bytes@.take(bytes@.len() as int) =~= bytes@);
    value
}

proof fn be_bound_grows(few: nat, many: nat)
    requires
        few <= many,
    ensures
        be_bound(few) <= be_bound(many),
        be_bound(few) > 0,
    decreases many,
{
    if few < many {
        be_bound_grows(few, (many - 1) as nat);
    } else if few > 0 {
        be_bound_grows((few - 1) as nat, (few - 1) as nat);
    }
}

/// Append every byte of `more`.
pub fn push_bytes(out: &mut Vec<u8>, more: &[u8])
    ensures
        final(out)@ == old(out)@ + more@,
{
    let ghost before = out@;
    let mut i: usize = 0;
    while i < more.len()
        invariant
            i <= more@.len(),
            out@ == before + more@.take(i as int),
        decreases more@.len() - i,
    {
        out.push(more[i]);
        i += 1;
        assert(out@ =~= before + more@.take(i as int));
    }
    assert(more@.take(more@.len() as int) =~= more@);
}

/// The first byte weighs most: it counts as many times as the bytes behind it
/// can tell numbers apart.
pub proof fn the_first_byte_weighs_most(first: u8, rest: Seq<u8>)
    ensures
        be_value(seq![first] + rest) == first * be_bound(rest.len()) + be_value(rest),
        be_bound(0) == 1,
        be_bound(rest.len() + 1) == 256 * be_bound(rest.len()),
    decreases rest.len(),
{
    let all = seq![first] + rest;
    reveal_with_fuel(be_value, 2);
    if rest.len() == 0 {
        assert(all.drop_last() =~= Seq::<u8>::empty());
        assert(all.last() == first);
        assert(first * be_bound(rest.len()) == first) by (nonlinear_arith)
            requires
                be_bound(rest.len()) == 1,
        ;
    } else {
        assert(all.last() == rest.last());
        assert(all.drop_last() =~= seq![first] + rest.drop_last());
        the_first_byte_weighs_most(first, rest.drop_last());
        let b = be_bound((rest.len() - 1) as nat);
        assert((first * b) * 256 == first * (256 * b)) by (nonlinear_arith);
        assert((first * b + be_value(rest.drop_last())) * 256 == (first * b) * 256 + be_value(
            rest.drop_last(),
        ) * 256) by (nonlinear_arith);
    }
}

} // verus!
