//! Exact fixed-point helpers: products of two 128-bit amounts are formed in
//! 256 bits and divided back down, so basis-point math never overflows and
//! always truncates (floor division, never rounding up).
use vstd::prelude::*;
use vstd::arithmetic::div_mod::{
    lemma_div_is_ordered, lemma_div_multiples_vanish, lemma_div_pos_is_pos,
    lemma_fundamental_div_mod, lemma_fundamental_div_mod_converse_div,
    lemma_fundamental_div_mod_converse_mod, lemma_multiply_divide_lt,
};
use vstd::arithmetic::mul::{lemma_mul_inequality, lemma_mul_strict_inequality};
use vstd::arithmetic::power2::{
    lemma2_to64, lemma2_to64_rest, lemma_pow2_adds, lemma_pow2_pos, lemma_pow2_strictly_increases,
    pow2,
};

verus! {

/// 2^64 as an executable constant.
pub const POW_64: u128 = 0x1_0000_0000_0000_0000;

/// 2^127 as an executable constant.
pub const POW_127: u128 = 0x8000_0000_0000_0000_0000_0000_0000_0000;

/// 2^64 as a mathematical integer.
pub open spec fn p64() -> int {
    0x1_0000_0000_0000_0000
}

/// 2^128 as a mathematical integer.
pub open spec fn p128() -> int {
    p64() * p64()
}

/// `x * y` stays under `(bx - 1) * (by - 1)` when the factors are bounded.
proof fn lemma_mul_bounds(x: int, y: int, bx: int, by: int)
    by (nonlinear_arith)
    requires
        0 <= x < bx,
        0 <= y < by,
    ensures
        x * y <= (bx - 1) * (by - 1),
{
}

/// The full 256-bit product of two 128-bit factors, as a high and a low limb.
fn mul_wide(a: u128, b: u128) -> (r: (u128, u128))
    ensures
        a * b == r.0 * p128() + r.1,
{
    let a_hi = a / POW_64;
    let a_lo = a % POW_64;
    let b_hi = b / POW_64;
    let b_lo = b % POW_64;
    proof {
        lemma_fundamental_div_mod(a as int, p64());
        lemma_fundamental_div_mod(b as int, p64());
        lemma_mul_bounds(a_hi as int, b_hi as int, p64(), p64());
        lemma_mul_bounds(a_hi as int, b_lo as int, p64(), p64());
        lemma_mul_bounds(a_lo as int, b_hi as int, p64(), p64());
        lemma_mul_bounds(a_lo as int, b_lo as int, p64(), p64());
    }
    let p00 = a_lo * b_lo;
    let p01 = a_lo * b_hi;
    let p10 = a_hi * b_lo;
    let p11 = a_hi * b_hi;
    proof {
        lemma_multiply_divide_lt(p00 as int, p64(), p64() - 1);
        lemma_multiply_divide_lt(p01 as int, p64(), p64() - 1);
        lemma_multiply_divide_lt(p10 as int, p64(), p64() - 1);
    }
    let t = p00 / POW_64 + p01 % POW_64 + p10 % POW_64;
    let lo = p00 % POW_64 + (t % POW_64) * POW_64;
    proof {
        lemma_multiply_divide_lt(t as int, p64(), 3);
    }
    let hi = p11 + p01 / POW_64 + p10 / POW_64 + t / POW_64;
    proof {
        assert(a * b == p11 * (p64() * p64()) + p01 * p64() + p10 * p64() + p00)
            by (nonlinear_arith)
            requires
                a == a_hi * p64() + a_lo,
                b == b_hi * p64() + b_lo,
                p00 == a_lo * b_lo,
                p01 == a_lo * b_hi,
                p10 == a_hi * b_lo,
                p11 == a_hi * b_hi,
        {
        }
        lemma_fundamental_div_mod(p00 as int, p64());
        lemma_fundamental_div_mod(p01 as int, p64());
        lemma_fundamental_div_mod(p10 as int, p64());
        lemma_fundamental_div_mod(t as int, p64());
        let q00 = p00 as int / p64();
        let r00 = p00 as int % p64();
        let q01 = p01 as int / p64();
        let r01 = p01 as int % p64();
        let q10 = p10 as int / p64();
        let r10 = p10 as int % p64();
        let qt = t as int / p64();
        let rt = t as int % p64();
        assert(t == q00 + r01 + r10);
        assert(lo == r00 + rt * p64());
        assert(hi == p11 + q01 + q10 + qt);
        assert(hi * p128() == p11 * p128() + q01 * p128() + q10 * p128() + qt * p128())
            by (nonlinear_arith)
            requires
                hi == p11 + q01 + q10 + qt,
        {
        }
        assert(hi * p128() + lo == p11 * p128() + q01 * p128() + q10 * p128() + qt * p128()
            + r00 + rt * p64());
        assert(p01 * p64() == q01 * p128() + r01 * p64()) by (nonlinear_arith)
            requires
                p01 == q01 * p64() + r01,
                p128() == p64() * p64(),
        {
        }
        assert(p10 * p64() == q10 * p128() + r10 * p64()) by (nonlinear_arith)
            requires
                p10 == q10 * p64() + r10,
                p128() == p64() * p64(),
        {
        }
        assert(t * p64() == qt * p128() + rt * p64()) by (nonlinear_arith)
            requires
                t == qt * p64() + rt,
                p128() == p64() * p64(),
        {
        }
        assert(t * p64() == q00 * p64() + r01 * p64() + r10 * p64());
        assert(p00 == q00 * p64() + r00);
        assert(hi * p128() + lo == a * b);
    }
    (hi, lo)
}

/// One step of the long division peels the top bit off the still-unprocessed
/// low limb.
proof fn lemma_step_decompose(lo: int, p: int, ph: int, d: int, m: int, bit: int, m2: int)
    by (nonlinear_arith)
    requires
        p == 2 * ph,
        ph > 0,
        lo == p * d + m,
        0 <= m < p,
        m == ph * bit + m2,
        0 <= m2 < ph,
    ensures
        lo == ph * (2 * d + bit) + m2,
{
}

/// `(hi * 2^128 + lo) / c`, by binary long division over the low limb.
fn div_wide(hi: u128, lo: u128, c: u128) -> (q: u128)
    requires
        c > 0,
        hi < c,
    ensures
        q == (hi * p128() + lo) / (c as int),
{
    proof {
        lemma2_to64();
        lemma2_to64_rest();
        lemma_pow2_adds(64, 63);
        lemma_pow2_adds(64, 64);
        assert(pow2(127) == POW_127);
        assert(pow2(128) == p128());
    }
    let mut q: u128 = 0;
    let mut r: u128 = hi;
    let mut rest: u128 = lo;
    let mut i: usize = 0;
    proof {
        lemma2_to64();
        assert((lo as int) % (pow2(128) as int) == lo) by {
            lemma_fundamental_div_mod_converse_mod(lo as int, pow2(128) as int, 0, lo as int);
        }
        assert((lo as int) / (pow2(128) as int) == 0) by {
            lemma_fundamental_div_mod_converse_div(lo as int, pow2(128) as int, 0, lo as int);
        }
    }
    while i < 128
        invariant
            i <= 128,
            c > 0,
            r < c,
            q * c + r == hi * (pow2(i as nat) as int) + (lo as int) / (pow2((128 - i) as nat) as int),
            rest == ((lo as int) % (pow2((128 - i) as nat) as int)) * (pow2(i as nat) as int),
            q < pow2(i as nat) as int || q == 0,
        decreases 128 - i,
    {
        let ghost iv = i as nat;
        let ghost kn = (128 - i) as nat;
        let ghost x = pow2(iv) as int;
        let ghost p = pow2(kn) as int;
        let ghost ph = pow2((kn - 1) as nat) as int;
        let ghost d = lo as int / p;
        let ghost m = lo as int % p;
        proof {
            lemma_pow2_pos(iv);
            lemma_pow2_pos(kn);
            lemma_pow2_pos((kn - 1) as nat);
            lemma_pow2_adds((kn - 1) as nat, 1);
            lemma2_to64();
            lemma2_to64_rest();
            lemma_pow2_adds(64, 63);
            lemma_pow2_adds(64, 64);
            assert(pow2(127) == POW_127);
            assert(pow2(128) == p128());
            assert(p == 2 * ph);
            lemma_pow2_adds((kn - 1) as nat, iv);
            assert(ph * x == pow2(127));
            lemma_fundamental_div_mod(lo as int, p);
        }
        let ghost bitv = m / ph;
        let ghost m2 = m % ph;
        proof {
            lemma_fundamental_div_mod(m, ph);
            lemma_mul_strict_inequality(m2, ph, x);
            assert(m2 * x < pow2(127));
            assert(rest == bitv * pow2(127) + m2 * x) by (nonlinear_arith)
                requires
                    rest == m * x,
                    m == ph * bitv + m2,
                    ph * x == pow2(127),
            {
            }
            assert(0 <= bitv < 2) by {
                lemma_multiply_divide_lt(m, ph, 2);
            }
            lemma_fundamental_div_mod_converse_div(rest as int, pow2(127) as int, bitv, m2 * x);
            lemma_fundamental_div_mod_converse_mod(rest as int, pow2(127) as int, bitv, m2 * x);
        }
        let bit = rest / POW_127;
        rest = (rest % POW_127) * 2;
        proof {
            // The remaining bits, shifted one further left.
            lemma_pow2_adds(iv, 1);
            assert(rest == m2 * (x * 2)) by (nonlinear_arith)
                requires
                    rest == (m2 * x) * 2,
            {
            }
            // m2 is what is left of lo below the bit just peeled off.
            lemma_step_decompose(lo as int, p, ph, d, m, bitv, m2);
            lemma_fundamental_div_mod_converse_div(lo as int, ph, 2 * d + bitv, m2);
            lemma_fundamental_div_mod_converse_mod(lo as int, ph, 2 * d + bitv, m2);
            // The running numerator doubles and takes the new bit in.
            assert(hi * pow2((iv + 1) as nat) == 2 * (hi * pow2(iv))) by (nonlinear_arith)
                requires
                    pow2((iv + 1) as nat) == pow2(iv) * 2,
            {
            }
            assert(q * 2 * c == 2 * (q * c)) by (nonlinear_arith) {};
            assert((q * 2 + 1) * c == 2 * (q * c) + c) by (nonlinear_arith) {};
            lemma_pow2_adds(1, iv);
            assert(pow2((iv + 1) as nat) == 2 * pow2(iv));
            if iv < 127 {
                lemma_pow2_strictly_increases(iv, 127);
            }
            assert(pow2(iv) <= pow2(127));
        }
        if r >= POW_127 {
            // 2r plus the incoming bit tops 2^128, which exceeds c: subtract.
            let borrow = c - r;
            r = (r - borrow) + bit;
            q = q * 2 + 1;
        } else {
            let t = r * 2 + bit;
            if t >= c {
                r = t - c;
                q = q * 2 + 1;
            } else {
                r = t;
                q = q * 2;
            }
        }
        i += 1;
    }
    proof {
        lemma2_to64();
        assert((lo as int) / (pow2(0) as int) == lo) by {
            lemma_fundamental_div_mod_converse_div(lo as int, 1, lo as int, 0);
        }
        lemma_fundamental_div_mod_converse_div(
            hi * p128() + lo,
            c as int,
            q as int,
            r as int,
        );
    }
    q
}

/// Floor of `a * b / c`, with the product carried in 256 bits.
///
/// The quotient must fit back into 128 bits; callers state that as
/// `a * b < c * p128()`.
pub fn mul_div(a: u128, b: u128, c: u128) -> (r: u128)
    requires
        c > 0,
        a * b < c * p128(),
    ensures
        r == a * b / (c as int),
{
    let (hi, lo) = mul_wide(a, b);
    proof {
        assert(hi < c) by {
            if hi >= c {
                lemma_mul_inequality(c as int, hi as int, p128());
            }
        }
    }
    div_wide(hi, lo, c)
}

/// Floor of `amount * numerator / denominator`.
pub open spec fn spec_proportional(amount: int, numerator: int, denominator: int) -> int {
    (amount * numerator) / denominator
}

/// Floor of `amount * numerator / denominator`, the product in 256 bits.
pub fn proportional(amount: u128, numerator: u128, denominator: u128) -> (r: u128)
    requires
        denominator > 0,
        amount * numerator < denominator * p128(),
    ensures
        r == spec_proportional(amount as int, numerator as int, denominator as int),
{
    mul_div(amount, numerator, denominator)
}

/// `pct_bp` basis points of `amount`, floored.
pub open spec fn spec_apply_pct(pct_bp: u16, amount: u128) -> int {
    (amount * pct_bp) / 10000
}

/// A fraction of at most 100% takes nothing over the amount itself.
pub proof fn lemma_apply_pct_range(pct_bp: u16, amount: u128)
    requires
        pct_bp <= 10000,
    ensures
        0 <= spec_apply_pct(pct_bp, amount) <= amount,
        amount * pct_bp < 10000 * p128(),
{
    assert(amount * pct_bp < 10000 * p128()) by (nonlinear_arith)
        requires
            0 <= amount < p128(),
            0 <= pct_bp <= 10000,
    {
    }
    assert(amount * pct_bp <= 10000 * amount) by (nonlinear_arith)
        requires
            0 <= amount,
            0 <= pct_bp <= 10000,
    {
    }
    lemma_div_is_ordered(amount * pct_bp, 10000 * amount, 10000);
    lemma_div_multiples_vanish(amount as int, 10000);
    assert(amount * pct_bp >= 0) by (nonlinear_arith)
        requires
            0 <= amount,
            0 <= pct_bp,
    {
    }
    lemma_div_pos_is_pos(amount * pct_bp, 10000);
}

/// `pct_bp` basis points of `amount`, floored. At most `amount` itself, since
/// the fraction is at most 100%.
pub fn apply_pct(pct_bp: u16, amount: u128) -> (r: u128)
    requires
        pct_bp <= 10000,
    ensures
        r == spec_apply_pct(pct_bp, amount),
        r <= amount,
{
    proof {
        lemma_apply_pct_range(pct_bp, amount);
    }
    mul_div(amount, pct_bp as u128, 10000)
}

/// Stake shares minted for `amount` at the current share price
/// `total_amount / total_shares`; one to one while either total is zero.
pub open spec fn spec_shares_from_amount(amount: u128, total_amount: u128, total_shares: u128) -> int {
    if total_amount == 0 || total_shares == 0 {
        amount as int
    } else {
        (total_shares * amount) / (total_amount as int)
    }
}

/// Stake shares corresponding to `amount` at the current share price.
pub fn shares_from_amount(amount: u128, total_amount: u128, total_shares: u128) -> (r: u128)
    requires
        total_amount > 0 && total_shares > 0 ==> total_shares * amount < total_amount * p128(),
    ensures
        r == spec_shares_from_amount(amount, total_amount, total_shares),
{
    if total_amount == 0 || total_shares == 0 {
        amount
    } else {
        mul_div(total_shares, amount, total_amount)
    }
}

/// While the amount converted stays within the total, the minted shares stay
/// within the share total.
pub proof fn lemma_shares_from_amount_bounded(amount: u128, total_amount: u128, total_shares: u128)
    requires
        amount <= total_amount,
        total_amount > 0,
    ensures
        total_shares * amount < total_amount * p128(),
        total_shares > 0 ==> spec_shares_from_amount(amount, total_amount, total_shares)
            <= total_shares,
        total_shares == 0 ==> spec_shares_from_amount(amount, total_amount, total_shares)
            == amount,
{
    assert(total_shares * amount <= total_shares * total_amount) by (nonlinear_arith)
        requires
            0 <= total_shares,
            0 <= amount <= total_amount,
    {
    }
    assert(total_shares * total_amount < total_amount * p128()) by (nonlinear_arith)
        requires
            0 <= total_shares < p128(),
            0 < total_amount,
    {
    }
    if total_shares > 0 {
        lemma_div_is_ordered(
            total_shares * amount,
            total_shares * total_amount,
            total_amount as int,
        );
        assert(total_shares * total_amount == total_amount * total_shares) by (nonlinear_arith) {};
        lemma_div_multiples_vanish(total_shares as int, total_amount as int);
    }
}

/// Value of `num_shares` at the current share price
/// `total_amount / total_shares`; zero while no shares exist.
pub open spec fn spec_amount_from_shares(num_shares: u128, total_amount: u128, total_shares: u128) -> int {
    if total_shares == 0 {
        0
    } else {
        (num_shares * total_amount) / (total_shares as int)
    }
}

/// Value of `num_shares` at the current share price.
pub fn amount_from_shares(num_shares: u128, total_amount: u128, total_shares: u128) -> (r: u128)
    requires
        total_shares > 0 ==> num_shares * total_amount < total_shares * p128(),
    ensures
        r == spec_amount_from_shares(num_shares, total_amount, total_shares),
{
    if total_shares == 0 {
        0
    } else {
        mul_div(num_shares, total_amount, total_shares)
    }
}

} // verus!
