//! Balances are whole numbers of units. On the wire a balance travels as an
//! IEEE-754 binary64 value; this module converts between the two without
//! floating-point arithmetic, by reading and writing the sign, exponent and
//! mantissa fields of the 64-bit pattern.
use vstd::arithmetic::div_mod::{lemma_div_multiples_vanish, lemma_fundamental_div_mod_converse};
use vstd::arithmetic::mul::lemma_mul_is_associative;
use vstd::arithmetic::power2::{lemma2_to64, lemma_pow2_adds, lemma_pow2_pos, pow2};
use vstd::prelude::*;

verus! {

/// Largest magnitude a balance may have: 2^53, the end of the range in which
/// a double holds every whole number exactly.
pub const MONEY_LIMIT: i64 = 9007199254740992;

/// 2^52, the weight of the implicit leading bit of a normal double.
pub const HIDDEN_BIT: u64 = 4503599627370496;

/// 2^63, the weight of the sign bit.
pub const SIGN_BIT: u64 = 9223372036854775808;

pub open spec fn sign_field(bits: int) -> int {
    bits / (SIGN_BIT as int)
}

pub open spec fn exponent_field(bits: int) -> int {
    (bits / (HIDDEN_BIT as int)) % 2048
}

pub open spec fn mantissa_field(bits: int) -> int {
    bits % (HIDDEN_BIT as int)
}

pub open spec fn abs(n: int) -> int {
    if n < 0 {
        -n
    } else {
        n
    }
}

/// A balance brought into the range `-MONEY_LIMIT ..= MONEY_LIMIT`.
pub open spec fn clamp_money(n: int) -> int {
    if n > MONEY_LIMIT {
        MONEY_LIMIT as int
    } else if n < -MONEY_LIMIT {
        -MONEY_LIMIT
    } else {
        n
    }
}

pub open spec fn money_in_range(n: int) -> bool {
    -MONEY_LIMIT <= n <= MONEY_LIMIT
}

/// `bits` is the binary64 encoding of the whole number `n`: zero is the
/// all-zero pattern, any other number is the normal double
/// `(-1)^sign * (2^52 + mantissa) * 2^(exponent - 1075)`.
pub open spec fn is_double_of(bits: int, n: int) -> bool {
    if n == 0 {
        bits == 0
    } else {
        &&& 0 <= bits < pow2(64)
        &&& sign_field(bits) == (if n < 0 { 1int } else { 0int })
        &&& 1023 <= exponent_field(bits) <= 1076
        &&& abs(n) * pow2(52) == (pow2(52) + mantissa_field(bits)) * pow2(
            (exponent_field(bits) - 1023) as nat,
        )
    }
}

/// The balance that a binary64 pattern stands for: the value truncated toward
/// zero, NaN read as zero, and magnitudes (infinities included) capped at
/// `MONEY_LIMIT`.
pub open spec fn money_of_bits(bits: int) -> int {
    let e = exponent_field(bits);
    let m = mantissa_field(bits);
    let mag = if e < 1023 {
        0
    } else if e == 2047 && m != 0 {
        0
    } else if e > 1075 {
        MONEY_LIMIT as int
    } else {
        (pow2(52) + m) / (pow2((1075 - e) as nat) as int)
    };
    if sign_field(bits) == 1 {
        -mag
    } else {
        mag
    }
}

proof fn lemma_constants()
    ensures
        pow2(0) == 1,
        pow2(52) == HIDDEN_BIT,
        pow2(53) == MONEY_LIMIT,
        pow2(63) == SIGN_BIT,
        pow2(64) == 0x1_0000_0000_0000_0000,
{
    lemma2_to64();
    vstd::arithmetic::power2::lemma2_to64_rest();
}

/// The three fields of a pattern assembled from a sign, an exponent and a
/// mantissa are those parts.
proof fn lemma_fields(s: int, x: int, m: int)
    requires
        0 <= s <= 1,
        0 <= x < 2048,
        0 <= m < HIDDEN_BIT,
    ensures
        ({
            let bits = s * SIGN_BIT + x * HIDDEN_BIT + m;
            &&& 0 <= bits < 0x1_0000_0000_0000_0000
            &&& sign_field(bits) == s
            &&& exponent_field(bits) == x
            &&& mantissa_field(bits) == m
        }),
{
    let bits = s * SIGN_BIT + x * HIDDEN_BIT + m;
    assert(s * SIGN_BIT == (s * 2048) * HIDDEN_BIT) by (nonlinear_arith);
    assert(bits == (s * 2048 + x) * HIDDEN_BIT + m) by (nonlinear_arith)
        requires
            bits == s * SIGN_BIT + x * HIDDEN_BIT + m,
            s * SIGN_BIT == (s * 2048) * HIDDEN_BIT,
    ;
    lemma_fundamental_div_mod_converse(bits, HIDDEN_BIT as int, s * 2048 + x, m);
    lemma_fundamental_div_mod_converse(s * 2048 + x, 2048, s, x);
    assert(x * HIDDEN_BIT + m < SIGN_BIT) by (nonlinear_arith)
        requires
            0 <= x < 2048,
            0 <= m < HIDDEN_BIT,
    ;
    assert(0 <= x * HIDDEN_BIT) by (nonlinear_arith)
        requires
            0 <= x,
    ;
    lemma_fundamental_div_mod_converse(bits, SIGN_BIT as int, s, x * HIDDEN_BIT + m);
}

/// `2^k` for `k < 64`.
fn pow2_u64(k: u64) -> (r: u64)
    requires
        k < 64,
    ensures
        r == pow2(k as nat),
{
    proof {
        lemma_constants();
    }
    let mut r: u64 = 1;
    let mut i: u64 = 0;
    while i < k
        invariant
            i <= k < 64,
            r == pow2(i as nat),
        decreases k - i,
    {
        proof {
            lemma_constants();
            vstd::arithmetic::power2::lemma_pow2_strictly_increases((i + 1) as nat, 64);
            vstd::arithmetic::power2::lemma_pow2_unfold((i + 1) as nat);
        }
        r = r * 2;
        i = i + 1;
    }
    r
}

/// The binary64 pattern of a balance, capped at `MONEY_LIMIT` in magnitude.
pub fn money_to_bits(n: i64) -> (bits: u64)
    ensures
        is_double_of(bits as int, clamp_money(n as int)),
{
    proof {
        lemma_constants();
    }
    let c: i64 = if n > MONEY_LIMIT {
        MONEY_LIMIT
    } else if n < -MONEY_LIMIT {
        -MONEY_LIMIT
    } else {
        n
    };
    if c == 0 {
        return 0;
    }
    let a: u64 = if c < 0 {
        (-c) as u64
    } else {
        c as u64
    };
    let s: u64 = if c < 0 {
        1
    } else {
        0
    };
    // find the highest set bit: p == 2^e <= a < 2^(e+1)
    let mut p: u64 = 1;
    let mut e: u64 = 0;
    while p <= a / 2
        invariant
            1 <= p <= a <= MONEY_LIMIT,
            p == pow2(e as nat),
            e <= 53,
        decreases a - p,
    {
        proof {
            lemma_constants();
            vstd::arithmetic::power2::lemma_pow2_unfold((e + 1) as nat);
            if e < 53 {
                vstd::arithmetic::power2::lemma_pow2_strictly_increases(e as nat, 53);
            }
        }
        p = p * 2;
        e = e + 1;
    }
    assert(a < 2 * p);
    let q: u64 = HIDDEN_BIT / p;
    proof {
        if e <= 52 {
            lemma_pow2_adds((52 - e) as nat, e as nat);
            assert((52 - e) as nat + e as nat == 52);
            assert(pow2(52) == pow2((52 - e) as nat) * pow2(e as nat));
            lemma_pow2_pos(e as nat);
            let r = pow2((52 - e) as nat) as int;
            assert(HIDDEN_BIT as int == p as int * r) by (nonlinear_arith)
                requires
                    HIDDEN_BIT as int == r * pow2(e as nat),
                    p == pow2(e as nat),
            ;
            lemma_div_multiples_vanish(r, p as int);
            assert(q == r);
            assert(q * p == HIDDEN_BIT) by (nonlinear_arith)
                requires
                    HIDDEN_BIT as int == p as int * r,
                    q == r,
            ;
        } else {
            assert(p > HIDDEN_BIT) by {
                vstd::arithmetic::power2::lemma_pow2_strictly_increases(52, e as nat);
            }
            assert(q == 0) by (nonlinear_arith)
                requires
                    q == HIDDEN_BIT / p,
                    p > HIDDEN_BIT,
            ;
            assert(e == 53);
            assert(a == p);
        }
        assert((a - p) * q < HIDDEN_BIT) by (nonlinear_arith)
            requires
                0 <= a - p < p,
                q * p == HIDDEN_BIT || (q == 0),
                HIDDEN_BIT > 0,
        ;
    }
    let m: u64 = (a - p) * q;
    let x: u64 = 1023 + e;
    proof {
        lemma_fields(s as int, x as int, m as int);
        assert(s * SIGN_BIT + x * HIDDEN_BIT + m < 0x1_0000_0000_0000_0000);
        assert(a * HIDDEN_BIT == (HIDDEN_BIT + m) * p) by (nonlinear_arith)
            requires
                m == (a - p) * q,
                (q * p == HIDDEN_BIT && 0 <= a - p) || (q == 0 && a == p),
        ;
    }
    let bits: u64 = s * SIGN_BIT + x * HIDDEN_BIT + m;
    bits
}

/// The balance that a binary64 pattern stands for (see `money_of_bits`).
pub fn money_from_bits(bits: u64) -> (n: i64)
    ensures
        n == money_of_bits(bits as int),
        money_in_range(n as int),
{
    proof {
        lemma_constants();
    }
    let s: u64 = bits / SIGN_BIT;
    let e: u64 = (bits / HIDDEN_BIT) % 2048;
    let m: u64 = bits % HIDDEN_BIT;
    let mag: u64 = if e < 1023 {
        0
    } else if e == 2047 && m != 0 {
        0
    } else if e > 1075 {
        MONEY_LIMIT as u64
    } else {
        let d: u64 = pow2_u64(1075 - e);
        proof {
            lemma_pow2_pos((1075 - e) as nat);
        }
        (HIDDEN_BIT + m) / d
    };
    proof {
        assert(s <= 1) by {
            assert(bits < 0x1_0000_0000_0000_0000);
        }
    }
    if s == 1 {
        -(mag as i64)
    } else {
        mag as i64
    }
}

/// A whole number in range survives the trip through its binary64 pattern.
pub proof fn lemma_money_round_trip(bits: int, n: int)
    requires
        money_in_range(n),
        is_double_of(bits, n),
    ensures
        money_of_bits(bits) == n,
{
    lemma_constants();
    if n != 0 {
        let e = exponent_field(bits);
        let m = mantissa_field(bits);
        let k = (e - 1023) as nat;
        assert(0 <= m < pow2(52));
        if e == 1076 {
            assert(abs(n) * pow2(52) == (pow2(52) + m) * pow2(53));
            assert(abs(n) >= pow2(53)) by (nonlinear_arith)
                requires
                    abs(n) * pow2(52) == (pow2(52) + m) * pow2(53),
                    m >= 0,
                    pow2(52) > 0,
            ;
        } else {
            let j = (52 - k) as nat;
            lemma_pow2_adds(j, k);
            lemma_pow2_pos(k);
            lemma_pow2_pos(j);
            // (2^52 + m) * 2^k == |n| * 2^j * 2^k, so 2^52 + m == |n| * 2^j
            lemma_mul_is_associative(abs(n), pow2(j) as int, pow2(k) as int);
            assert((pow2(52) + m) == abs(n) * pow2(j)) by (nonlinear_arith)
                requires
                    (pow2(52) + m) * pow2(k) == (abs(n) * pow2(j)) * pow2(k),
                    pow2(k) > 0,
            ;
            lemma_div_multiples_vanish(abs(n), pow2(j) as int);
            assert((pow2(52) + m) / (pow2(j) as int) == abs(n)) by (nonlinear_arith)
                requires
                    (pow2(52) + m) == abs(n) * pow2(j),
                    (pow2(j) * abs(n)) / (pow2(j) as int) == abs(n),
            ;
        }
    }
}

} // verus!
