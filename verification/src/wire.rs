use vstd::arithmetic::div_mod::{
    lemma_fundamental_div_mod, lemma_fundamental_div_mod_converse, lemma_multiply_divide_lt,
};
use vstd::prelude::*;
use vstd::slice::{slice_index_get, slice_subrange};

verus! {

/// 256 to the power `w`: the number of values a `w`-byte prefix can express.
pub open spec fn pow256(w: nat) -> nat
    decreases w,
{
    if w == 0 {
        1
    } else {
        256 * pow256((w - 1) as nat)
    }
}

/// The `w` low-order bytes of `v`, least significant first. High-order bits
/// of `v` beyond `w` bytes are dropped.
pub open spec fn spec_le_bytes(v: nat, w: nat) -> Seq<u8>
    decreases w,
{
    if w == 0 {
        Seq::empty()
    } else {
        seq![(v % 256) as u8] + spec_le_bytes(v / 256, (w - 1) as nat)
    }
}

/// The unsigned integer that `s` spells, least significant byte first.
pub open spec fn spec_le_value(s: Seq<u8>) -> nat
    decreases s.len(),
{
    if s.len() == 0 {
        0
    } else {
        s[0] as nat + 256 * spec_le_value(s.skip(1))
    }
}

pub proof fn lemma_le_bytes_len(v: nat, w: nat)
    ensures
        spec_le_bytes(v, w).len() == w,
    decreases w,
{
    if w > 0 {
        lemma_le_bytes_len(v / 256, (w - 1) as nat);
    }
}

pub proof fn lemma_pow256_bounds(w: nat)
    requires
        w <= 4,
    ensures
        pow256(w) <= 0x1_0000_0000,
        pow256(w) >= 1,
{
    reveal_with_fuel(pow256, 5);
    if w == 0 {
        assert(pow256(0) == 1);
    } else if w == 1 {
        assert(pow256(1) == 256);
    } else if w == 2 {
        assert(pow256(2) == 65536);
    } else if w == 3 {
        assert(pow256(3) == 16777216);
    } else {
        assert(pow256(4) == 0x1_0000_0000);
    }
}

/// A sequence of `w` bytes can spell no value of `pow256(w)` or above.
pub proof fn lemma_le_value_bound(s: Seq<u8>)
    ensures
        spec_le_value(s) < pow256(s.len()),
    decreases s.len(),
{
    if s.len() > 0 {
        lemma_le_value_bound(s.skip(1));
        assert(s.skip(1).len() == s.len() - 1);
        assert(spec_le_value(s) == s[0] as nat + 256 * spec_le_value(s.skip(1)));
        assert(256 * spec_le_value(s.skip(1)) <= 256 * (pow256((s.len() - 1) as nat) - 1))
            by (nonlinear_arith)
            requires
                spec_le_value(s.skip(1)) <= pow256((s.len() - 1) as nat) - 1,
        ;
    }
}

/// Reading back the `w`-byte spelling of `v` yields `v`, provided `v` fits.
pub proof fn lemma_le_value_of_le_bytes(v: nat, w: nat)
    requires
        v < pow256(w),
    ensures
        spec_le_value(spec_le_bytes(v, w)) == v,
    decreases w,
{
    if w == 0 {
        assert(spec_le_bytes(v, 0) =~= Seq::<u8>::empty());
    } else {
        let tail = spec_le_bytes(v / 256, (w - 1) as nat);
        lemma_le_bytes_len(v / 256, (w - 1) as nat);
        assert(spec_le_bytes(v, w).skip(1) =~= tail);
        assert((v / 256) < pow256((w - 1) as nat)) by {
            lemma_multiply_divide_lt(v as int, 256, pow256((w - 1) as nat) as int);
        }
        lemma_le_value_of_le_bytes(v / 256, (w - 1) as nat);
        lemma_fundamental_div_mod(v as int, 256);
    }
}

/// Spelling back the value of `s` over `s.len()` bytes yields `s` itself.
pub proof fn lemma_le_bytes_of_le_value(s: Seq<u8>)
    ensures
        spec_le_bytes(spec_le_value(s), s.len()) == s,
    decreases s.len(),
{
    if s.len() == 0 {
        assert(spec_le_bytes(spec_le_value(s), 0) =~= s);
    } else {
        let v = spec_le_value(s);
        let k = spec_le_value(s.skip(1));
        assert(v == s[0] as nat + 256 * k);
        lemma_fundamental_div_mod_converse(v as int, 256, k as int, s[0] as int);
        assert(v % 256 == s[0] as nat);
        assert(v / 256 == k);
        lemma_le_bytes_of_le_value(s.skip(1));
        assert(s.skip(1).len() == s.len() - 1);
        assert(spec_le_bytes(v, s.len()) =~= s);
    }
}

/// Appending to a byte sequence leaves the original as a prefix.
pub proof fn lemma_append_keeps_prefix(a: Seq<u8>, b: Seq<u8>)
    ensures
        (a + b).len() >= a.len(),
        (a + b).subrange(0, a.len() as int) == a,
{
    assert((a + b).subrange(0, a.len() as int) =~= a);
}

/// A prefix of a prefix is a prefix.
pub proof fn lemma_prefix_chain(a: Seq<u8>, b: Seq<u8>, c: Seq<u8>)
    requires
        b.len() >= a.len(),
        b.subrange(0, a.len() as int) == a,
        c.len() >= b.len(),
        c.subrange(0, b.len() as int) == b,
    ensures
        c.len() >= a.len(),
        c.subrange(0, a.len() as int) == a,
{
    assert(c.subrange(0, a.len() as int) =~= a) by {
        assert forall|i: int| 0 <= i < a.len() implies c[i] == a[i] by {
            assert(c[i] == c.subrange(0, b.len() as int)[i]);
            assert(a[i] == b.subrange(0, a.len() as int)[i]);
            assert(b[i] == c.subrange(0, b.len() as int)[i]);
        }
    }
}

/// Appends the `width` low-order bytes of `value` to `to`, least significant
/// first.
pub fn append_le_bytes(to: &mut Vec<u8>, value: usize, width: usize)
    requires
        value <= u32::MAX as usize,
    ensures
        final(to)@ == old(to)@ + spec_le_bytes(value as nat, width as nat),
    decreases width,
{
    if width == 0 {
        proof {
            assert(old(to)@ + spec_le_bytes(value as nat, 0) =~= old(to)@);
        }
    } else {
        let b: u8 = (value % 256) as u8;
        to.push(b);
        append_le_bytes(to, value / 256, width - 1);
        proof {
            assert(old(to)@ + spec_le_bytes(value as nat, width as nat) =~= old(to)@.push(
                (value as nat % 256) as u8,
            ) + spec_le_bytes(value as nat / 256, (width - 1) as nat));
        }
    }
}

/// Reads the `width`-byte little-endian unsigned integer at the front of
/// `bytes`, zero-extending to the machine word.
pub fn read_le_prefix(bytes: &[u8], width: usize) -> (v: usize)
    requires
        width <= bytes@.len(),
        width <= 4,
    ensures
        v as nat == spec_le_value(bytes@.subrange(0, width as int)),
        (v as nat) < pow256(width as nat),
        v <= u32::MAX as usize,
    decreases width,
{
    if width == 0 {
        proof {
            assert(bytes@.subrange(0, 0) =~= Seq::<u8>::empty());
        }
        0
    } else {
        let b0: u8 = *slice_index_get(bytes, 0);
        let tail = slice_subrange(bytes, 1, bytes.len());
        let hi = read_le_prefix(tail, width - 1);
        proof {
            let here = bytes@.subrange(0, width as int);
            assert(tail@.subrange(0, width - 1) =~= here.skip(1));
            assert(here[0] == b0);
            lemma_pow256_bounds(width as nat);
            assert(spec_le_value(here) == b0 as nat + 256 * spec_le_value(here.skip(1)));
            assert(256 * (hi as nat) <= 256 * (pow256((width - 1) as nat) - 1))
                by (nonlinear_arith)
                requires
                    hi as nat <= pow256((width - 1) as nat) - 1,
            ;
            assert(pow256(width as nat) == 256 * pow256((width - 1) as nat));
        }
        b0 as usize + 256 * hi
    }
}

/// Appends all of `bytes` to `to`, in order.
pub fn append_slice(to: &mut Vec<u8>, bytes: &[u8])
    ensures
        final(to)@ == old(to)@ + bytes@,
{
    let n = bytes.len();
    let mut i: usize = 0;
    while i < n
        invariant
            i <= n,
            n == bytes@.len(),
            to@ == old(to)@ + bytes@.subrange(0, i as int),
        decreases n - i,
    {
        let b: u8 = *slice_index_get(bytes, i);
        to.push(b);
        proof {
            assert(old(to)@ + bytes@.subrange(0, i as int) + seq![bytes@[i as int]] =~= old(to)@
                + bytes@.subrange(0, i + 1));
        }
        i += 1;
    }
    proof {
        assert(bytes@.subrange(0, n as int) =~= bytes@);
    }
}

} // verus!
