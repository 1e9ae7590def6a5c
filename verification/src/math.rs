//! Unsigned amount arithmetic.
//!
//! Amounts are `u128` values. Every quotient of a product, `a * b / c`, is
//! computed exactly, without a wide intermediate, by a shift-and-add long
//! multiplication that keeps the running product reduced modulo `c`.
use vstd::arithmetic::div_mod::*;
use vstd::arithmetic::power2::*;
use vstd::prelude::*;

verus! {

/// The value of the top bit of a `u128`.
pub const TOP_BIT: u128 = 0x8000_0000_0000_0000_0000_0000_0000_0000u128;

/// `floor(a * b / c)`, the quotient that every share and price formula takes.
pub open spec fn mul_div_spec(a: nat, b: nat, c: nat) -> nat {
    (a * b) / c
}

proof fn lemma_top_bit()
    ensures
        pow2(127) == TOP_BIT,
        pow2(128) == TOP_BIT * 2,
{
    lemma2_to64_rest();
    lemma_pow2_adds(63, 64);
    lemma_pow2_unfold(128);
}

/// `q * c <= n` bounds the quotient `n / c` from below.
pub proof fn lemma_quotient_lower_bound(n: int, c: int, q: int)
    requires
        c > 0,
        0 <= q,
        q * c <= n,
    ensures
        q <= n / c,
{
    lemma_fundamental_div_mod(n, c);
    let d = n / c;
    let m = n % c;
    assert(0 <= m < c);
    if d < q {
        assert((d + 1) * c <= q * c) by (nonlinear_arith)
            requires
                d + 1 <= q,
                c > 0,
        ;
        assert(false) by (nonlinear_arith)
            requires
                (d + 1) * c <= q * c,
                q * c <= n,
                n == c * d + m,
                m < c,
        ;
    }
}

/// One step of reading the bits of `b` from the top: the remaining low part
/// `low`, kept shifted to the top of a `u128` as `x`, gives up its highest bit.
proof fn lemma_bit_step(low: int, x: int, s: int, p: int, bit: bool)
    requires
        s > 0,
        p > 0,
        0 <= low < 2 * p,
        x == low * s,
        s * p == TOP_BIT,
        bit == (x >= TOP_BIT),
    ensures
        bit == (low >= p),
        (if bit { x - TOP_BIT } else { x }) * 2 == (if bit { low - p } else { low }) * (2 * s),
        0 <= (if bit { low - p } else { low }) < p,
{
    if bit {
        assert(low >= p) by (nonlinear_arith)
            requires
                low * s >= s * p,
                s > 0,
        ;
    } else {
        assert(low < p) by (nonlinear_arith)
            requires
                low * s < s * p,
                s > 0,
        ;
    }
    assert((if bit { x - TOP_BIT } else { x }) * 2 == (if bit { low - p } else { low }) * (2 * s))
        by (nonlinear_arith)
        requires
            x == low * s,
            s * p == TOP_BIT,
    ;
}

/// Quotient and remainder of `a * b` by `c`, when the quotient fits in a
/// `u128`; `None` when it does not.
pub fn mul_div_rem(a: u128, b: u128, c: u128) -> (res: Option<(u128, u128)>)
    requires
        c > 0,
    ensures
        res == (if mul_div_spec(a as nat, b as nat, c as nat) <= u128::MAX {
            Some(
                (
                    mul_div_spec(a as nat, b as nat, c as nat) as u128,
                    ((a as nat * b as nat) % (c as nat)) as u128,
                ),
            )
        } else {
            None::<(u128, u128)>
        }),
{
    proof {
        lemma_top_bit();
    }
    let qa: u128 = a / c;
    let ra: u128 = a % c;
    let mut q: u128 = 0;
    let mut r: u128 = 0;
    let mut x: u128 = b;
    let mut i: u32 = 0;
    let ghost mut hp: int = 0;
    let ghost mut low: int = b as int;
    proof {
        lemma_fundamental_div_mod(a as int, c as int);
        vstd::arithmetic::mul::lemma_mul_is_commutative(c as int, (a / c) as int);
        lemma2_to64();
    }
    while i < 128
        invariant
            c > 0,
            a as int == qa as int * c as int + ra as int,
            ra < c,
            r < c,
            i <= 128,
            pow2(127) == TOP_BIT,
            pow2(128) == TOP_BIT * 2,
            q as int * c as int + r as int == a as int * hp,
            0 <= hp,
            b as int == hp * pow2((128 - i) as nat) + low,
            0 <= low < pow2((128 - i) as nat),
            x as int == low * pow2(i as nat),
        decreases 128 - i,
    {
        let ghost s: int = pow2(i as nat) as int;
        let ghost p: int = pow2((127 - i) as nat) as int;
        proof {
            lemma_pow2_adds(i as nat, (127 - i) as nat);
            lemma_pow2_unfold((128 - i) as nat);
            lemma_pow2_unfold((i + 1) as nat);
            lemma_pow2_pos(i as nat);
            lemma_pow2_pos((127 - i) as nat);
            assert(s * p == TOP_BIT);
        }
        let bit = x >= TOP_BIT;
        proof {
            lemma_bit_step(low, x as int, s, p, bit);
        }
        let hp_next: Ghost<int> = Ghost(2 * hp + if bit { 1int } else { 0int });
        let low_next: Ghost<int> = Ghost(if bit { low - p } else { low });
        assert(b as int == hp_next@ * p + low_next@) by (nonlinear_arith)
            requires
                b as int == hp * (2 * p) + low,
                hp_next@ == 2 * hp + if bit { 1int } else { 0int },
                low_next@ == if bit { low - p } else { low },
        ;
        assert(0 <= hp_next@ * p <= b) by (nonlinear_arith)
            requires
                b as int == hp_next@ * p + low_next@,
                0 <= low_next@,
                hp_next@ >= 0,
                p > 0,
        ;
        assert(hp_next@ <= b) by (nonlinear_arith)
            requires
                hp_next@ * p <= b,
                hp_next@ >= 0,
                p >= 1,
        ;
        if bit {
            x = x - TOP_BIT;
        }
        x = x * 2;
        // doubling: the running product of `a` and the prefix read so far
        if q > u128::MAX / 2 {
            proof {
                assert((2 * q) as int * c as int <= a as int * hp_next@) by (nonlinear_arith)
                    requires
                        q as int * c as int + r as int == a as int * hp,
                        hp_next@ >= 2 * hp,
                        a >= 0,
                        r >= 0,
                ;
                assert(a as int * hp_next@ <= a as int * b as int) by (nonlinear_arith)
                    requires
                        hp_next@ <= b,
                        a >= 0,
                ;
                lemma_quotient_lower_bound(a as int * b as int, c as int, (2 * q) as int);
            }
            return None;
        }
        let ghost q0 = q;
        let ghost r0 = r;
        q = 2 * q;
        if r >= c - r {
            r = r - (c - r);
            q = q + 1;
        } else {
            r = 2 * r;
        }
        assert(q as int * c as int + r as int == 2 * (q0 as int * c as int + r0 as int))
            by (nonlinear_arith)
            requires
                (r0 >= c - r0 ==> q == 2 * q0 + 1 && r == 2 * r0 - c),
                (r0 < c - r0 ==> q == 2 * q0 && r == 2 * r0),
        ;
        if bit {
            let ghost q1 = q;
            let ghost r1 = r;
            if q > u128::MAX - qa {
                proof {
                    assert((q + qa) as int * c as int <= a as int * hp_next@) by (nonlinear_arith)
                        requires
                            q as int * c as int + r as int == 2 * (a as int * hp),
                            hp_next@ == 2 * hp + 1,
                            a as int == qa as int * c as int + ra as int,
                            ra >= 0,
                            r >= 0,
                    ;
                    assert(a as int * hp_next@ <= a as int * b as int) by (nonlinear_arith)
                        requires
                            hp_next@ <= b,
                            a >= 0,
                    ;
                    lemma_quotient_lower_bound(
                        a as int * b as int,
                        c as int,
                        (q + qa) as int,
                    );
                }
                return None;
            }
            q = q + qa;
            if r >= c - ra {
                if q == u128::MAX {
                    proof {
                        assert((q + 1) as int * c as int <= a as int * hp_next@)
                            by (nonlinear_arith)
                            requires
                                q1 as int * c as int + r1 as int == 2 * (a as int * hp),
                                q == q1 + qa,
                                hp_next@ == 2 * hp + 1,
                                a as int == qa as int * c as int + ra as int,
                                r1 + ra >= c,
                        ;
                        assert(a as int * hp_next@ <= a as int * b as int) by (nonlinear_arith)
                            requires
                                hp_next@ <= b,
                                a >= 0,
                        ;
                        lemma_quotient_lower_bound(
                            a as int * b as int,
                            c as int,
                            (q + 1) as int,
                        );
                    }
                    return None;
                }
                r = r - (c - ra);
                q = q + 1;
            } else {
                r = r + ra;
            }
            assert(q as int * c as int + r as int == a as int * hp_next@) by (nonlinear_arith)
                requires
                    q1 as int * c as int + r1 as int == 2 * (a as int * hp),
                    hp_next@ == 2 * hp + 1,
                    a as int == qa as int * c as int + ra as int,
                    (r1 + ra >= c ==> q == q1 + qa + 1 && r == r1 + ra - c),
                    (r1 + ra < c ==> q == q1 + qa && r == r1 + ra),
            ;
        } else {
            assert(q as int * c as int + r as int == a as int * hp_next@) by (nonlinear_arith)
                requires
                    q as int * c as int + r as int == 2 * (a as int * hp),
                    hp_next@ == 2 * hp,
            ;
        }
        proof {
            hp = hp_next@;
            low = low_next@;
        }
        i = i + 1;
    }
    proof {
        lemma2_to64();
        assert(i == 128);
        assert(pow2((128 - i) as nat) == 1);
        assert(low == 0);
        assert(hp == b as int);
        lemma_fundamental_div_mod_converse(a as int * b as int, c as int, q as int, r as int);
    }
    Some((q, r))
}

/// `floor(a * b / c)` when it fits in a `u128`, `None` when it does not.
pub fn mul_div(a: u128, b: u128, c: u128) -> (res: Option<u128>)
    requires
        c > 0,
    ensures
        res == (if mul_div_spec(a as nat, b as nat, c as nat) <= u128::MAX {
            Some(mul_div_spec(a as nat, b as nat, c as nat) as u128)
        } else {
            None::<u128>
        }),
{
    match mul_div_rem(a, b, c) {
        Some((q, _)) => Some(q),
        None => None,
    }
}

/// `floor((2 * m + e) / (2 * c)) == floor(m / c)` for a last bit `e`.
proof fn lemma_halve_quotient(m: int, e: int, c: int)
    requires
        m >= 0,
        0 <= e <= 1,
        c > 0,
    ensures
        (2 * m + e) / (2 * c) == m / c,
{
    lemma_fundamental_div_mod(m, c);
    let q = m / c;
    let r = m % c;
    assert(2 * m + e == q * (2 * c) + (2 * r + e)) by (nonlinear_arith)
        requires
            m == c * q + r,
    ;
    lemma_fundamental_div_mod_converse(2 * m + e, 2 * c, q, 2 * r + e);
}

/// `floor(a * b / (2 * c))`, for a divisor `2 * c` that may not fit in a
/// `u128`; `None` when the quotient does not fit.
pub fn mul_div_by_double(a: u128, b: u128, c: u128) -> (res: Option<u128>)
    requires
        c > 0,
    ensures
        res == (if mul_div_spec(a as nat, b as nat, 2 * c as nat) <= u128::MAX {
            Some(mul_div_spec(a as nat, b as nat, 2 * c as nat) as u128)
        } else {
            None::<u128>
        }),
{
    let a2 = a / 2;
    let b2 = b / 2;
    // a * b == 2 * (a * b2 + [b odd] * a2) + [a and b odd]
    let extra: u128 = if b % 2 == 1 { a2 } else { 0 };
    let ghost m: int = a as int * b2 as int + extra as int;
    let ghost e: int = if b % 2 == 1 { a as int % 2 } else { 0 };
    assert(a as int * b as int == 2 * m + e) by (nonlinear_arith)
        requires
            a as int == 2 * a2 as int + a as int % 2,
            b as int == 2 * b2 as int + b as int % 2,
            0 <= b as int % 2 <= 1,
            m == a as int * b2 as int + extra as int,
            extra as int == (if b as int % 2 == 1 { a2 as int } else { 0 }),
            e == (if b as int % 2 == 1 { a as int % 2 } else { 0 }),
    ;
    proof {
        lemma_halve_quotient(m, e, c as int);
    }
    // m / c, from the quotient and remainder of a * b2 by c
    match mul_div_rem(a, b2, c) {
        None => {
            proof {
                vstd::arithmetic::div_mod::lemma_fundamental_div_mod(a as int * b2 as int, c as int);
                assert(((a as int * b2 as int) / c as int) * c as int <= m) by (nonlinear_arith)
                    requires
                        a as int * b2 as int == c as int * ((a as int * b2 as int) / c as int)
                            + (a as int * b2 as int) % c as int,
                        (a as int * b2 as int) % c as int >= 0,
                        m >= a as int * b2 as int,
                ;
                lemma_quotient_lower_bound(m, c as int, (a as int * b2 as int) / c as int);
            }
            None
        },
        Some((q1, r1)) => {
            let qe = extra / c;
            let re = extra % c;
            proof {
                lemma_fundamental_div_mod(a as int * b2 as int, c as int);
                lemma_fundamental_div_mod(extra as int, c as int);
            }
            if q1 > u128::MAX - qe {
                proof {
                    assert((q1 + qe) as int * c as int <= m) by (nonlinear_arith)
                        requires
                            a as int * b2 as int == c as int * q1 as int + r1 as int,
                            extra as int == c as int * qe as int + re as int,
                            r1 >= 0,
                            re >= 0,
                            m == a as int * b2 as int + extra as int,
                    ;
                    lemma_quotient_lower_bound(m, c as int, (q1 + qe) as int);
                }
                return None;
            }
            let q = q1 + qe;
            if r1 >= c - re {
                if q == u128::MAX {
                    proof {
                        assert((q + 1) as int * c as int <= m) by (nonlinear_arith)
                            requires
                                a as int * b2 as int == c as int * q1 as int + r1 as int,
                                extra as int == c as int * qe as int + re as int,
                                q == q1 + qe,
                                r1 + re >= c,
                                m == a as int * b2 as int + extra as int,
                        ;
                        lemma_quotient_lower_bound(m, c as int, (q + 1) as int);
                    }
                    return None;
                }
                proof {
                    assert(m == (q + 1) as int * c as int + (r1 + re - c) as int) by (nonlinear_arith)
                        requires
                            a as int * b2 as int == c as int * q1 as int + r1 as int,
                            extra as int == c as int * qe as int + re as int,
                            q == q1 + qe,
                            m == a as int * b2 as int + extra as int,
                    ;
                    lemma_fundamental_div_mod_converse(m, c as int, (q + 1) as int, (r1 + re - c) as int);
                }
                Some(q + 1)
            } else {
                proof {
                    assert(m == q as int * c as int + (r1 + re) as int) by (nonlinear_arith)
                        requires
                            a as int * b2 as int == c as int * q1 as int + r1 as int,
                            extra as int == c as int * qe as int + re as int,
                            q == q1 + qe,
                            m == a as int * b2 as int + extra as int,
                    ;
                    lemma_fundamental_div_mod_converse(m, c as int, q as int, (r1 + re) as int);
                }
                Some(q)
            }
        },
    }
}

/// A share of at most the whole gives at most the whole: `a <= c` implies
/// `a * b / c <= b`.
pub proof fn lemma_share_at_most_whole(a: nat, b: nat, c: nat)
    requires
        c > 0,
        a <= c,
    ensures
        mul_div_spec(a, b, c) <= b,
{
    lemma_fundamental_div_mod((a * b) as int, c as int);
    let q = (a * b) / c;
    if q > b {
        assert(false) by (nonlinear_arith)
            requires
                a * b == c * q + (a * b) % c,
                (a * b) % c >= 0,
                q >= b + 1,
                a <= c,
                c > 0,
        ;
    }
}

} // verus!
