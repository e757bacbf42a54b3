//! Big-endian byte order for unsigned integers.
use vstd::arithmetic::div_mod::lemma_fundamental_div_mod;
use vstd::arithmetic::power::pow;
use vstd::prelude::*;

verus! {

/// The `n` low-order bytes of `x`, most significant first.
pub open spec fn be_of(x: nat, n: nat) -> Seq<u8>
    decreases n,
{
    if n == 0 {
        Seq::empty()
    } else {
        be_of(x / 256, (n - 1) as nat).push((x % 256) as u8)
    }
}

/// The number that a sequence of bytes spells, most significant first.
pub open spec fn be_value(b: Seq<u8>) -> nat
    decreases b.len(),
{
    if b.len() == 0 {
        0
    } else {
        (be_value(b.drop_last()) * 256 + b.last()) as nat
    }
}

/// Writing `x` in `n` bytes and reading it back gives `x`, when it fits.
pub proof fn lemma_be_round_trip(x: nat, n: nat)
    requires
        x < pow(256, n),
    ensures
        be_value(be_of(x, n)) == x,
        be_of(x, n).len() == n,
    decreases n,
{
    if n == 0 {
        reveal(pow);
    } else {
        reveal(pow);
        lemma_fundamental_div_mod(x as int, 256);
        assert(x / 256 < pow(256, (n - 1) as nat)) by (nonlinear_arith)
            requires
                x < 256 * pow(256, (n - 1) as nat),
                x == 256 * (x / 256) + x % 256,
                0 <= x % 256,
        ;
        lemma_be_round_trip(x / 256, (n - 1) as nat);
        let s = be_of(x, n);
        assert(s.drop_last() =~= be_of(x / 256, (n - 1) as nat));
    }
}

/// Appends `x` as four big-endian bytes.
pub fn push_u32_be(v: &mut Vec<u8>, x: u32)
    ensures
        final(v)@ == old(v)@ + be_of(x as nat, 4),
{
    proof {
        reveal_with_fuel(be_of, 5);
    }
    let x1: u32 = x / 256;
    let x2: u32 = x1 / 256;
    let x3: u32 = x2 / 256;
    v.push((x3 % 256) as u8);
    v.push((x2 % 256) as u8);
    v.push((x1 % 256) as u8);
    v.push((x % 256) as u8);
    assert(final(v)@ =~= old(v)@ + be_of(x as nat, 4));
}

/// Appends `x` as eight big-endian bytes.
pub fn push_u64_be(v: &mut Vec<u8>, x: u64)
    ensures
        final(v)@ == old(v)@ + be_of(x as nat, 8),
{
    proof {
        reveal_with_fuel(be_of, 9);
    }
    let x1: u64 = x / 256;
    let x2: u64 = x1 / 256;
    let x3: u64 = x2 / 256;
    let x4: u64 = x3 / 256;
    let x5: u64 = x4 / 256;
    let x6: u64 = x5 / 256;
    let x7: u64 = x6 / 256;
    v.push((x7 % 256) as u8);
    v.push((x6 % 256) as u8);
    v.push((x5 % 256) as u8);
    v.push((x4 % 256) as u8);
    v.push((x3 % 256) as u8);
    v.push((x2 % 256) as u8);
    v.push((x1 % 256) as u8);
    v.push((x % 256) as u8);
    assert(final(v)@ =~= old(v)@ + be_of(x as nat, 8));
}

/// Reads `n` big-endian bytes of `b` from position `at`.
pub fn read_be(b: &[u8], at: usize, n: usize) -> (r: u64)
    requires
        n <= 8,
        at + n <= b@.len(),
    ensures
        r == be_value(b@.subrange(at as int, at + n)),
{
    let len: usize = b.len();
    let mut r: u64 = 0;
    let mut i: usize = 0;
    proof {
        reveal(pow);
    }
    while i < n
        invariant
            i <= n <= 8,
            at + n <= b@.len() == len,
            r == be_value(b@.subrange(at as int, at + i)),
            r < pow(256, i as nat),
        decreases n - i,
    {
        let ghost before = b@.subrange(at as int, at + i);
        let ghost after = b@.subrange(at as int, at + i + 1);
        proof {
            assert(after.drop_last() =~= before);
            reveal(pow);
            assert(pow(256, (i + 1) as nat) == 256 * pow(256, i as nat));
            assert(pow(256, 8) == 0x1_0000_0000_0000_0000) by {
                reveal_with_fuel(pow, 9);
            }
            assert(pow(256, (i + 1) as nat) <= pow(256, 8)) by {
                vstd::arithmetic::power::lemma_pow_increases(256, (i + 1) as nat, 8);
            }
            assert(r * 256 + b@[at + i as int] < pow(256, (i + 1) as nat)) by (nonlinear_arith)
                requires
                    r < pow(256, i as nat),
                    b@[at + i as int] < 256,
                    pow(256, (i + 1) as nat) == 256 * pow(256, i as nat),
            ;
        }
        let byte: u8 = b[at + i];
        r = r * 256 + byte as u64;
        i = i + 1;
    }
    r
}

} // verus!
