use ledger_sim::amount::{Amount, MAX_MANTISSA, MAX_SCALE};
use rust_decimal::Decimal;

fn dec(mantissa: i128, scale: u32) -> Amount {
    Amount::new(mantissa, scale).unwrap()
}

fn parts(amount: Amount) -> (i128, u32) {
    (amount.mantissa(), amount.scale())
}

fn decimal(amount: Amount) -> Decimal {
    Decimal::from_i128_with_scale(amount.mantissa(), amount.scale())
}

fn of_decimal(d: Option<Decimal>) -> Option<(i128, u32)> {
    d.map(|d| (d.mantissa(), d.scale()))
}

#[test]
fn new_accepts_exactly_the_decimals() {
    assert!(Amount::new(0, 0).is_some());
    assert!(Amount::new(MAX_MANTISSA, MAX_SCALE).is_some());
    assert!(Amount::new(-MAX_MANTISSA, 0).is_some());
    assert!(Amount::new(MAX_MANTISSA + 1, 0).is_none());
    assert!(Amount::new(-MAX_MANTISSA - 1, 0).is_none());
    assert!(Amount::new(1, MAX_SCALE + 1).is_none());
    assert!(Amount::new(i128::MAX, 0).is_none());
    assert!(Amount::new(i128::MIN, 0).is_none());
    assert_eq!(parts(dec(-12345, 2)), (-12345, 2));
}

#[test]
fn zero_and_whole_numbers() {
    assert_eq!(parts(Amount::zero()), (0, 0));
    assert_eq!(parts(Amount::from_integer(12)), (12, 0));
    assert_eq!(parts(Amount::from_integer(-7)), (-7, 0));
    assert_eq!(parts(Amount::from_integer(i64::MIN)), (i64::MIN as i128, 0));
    assert!(Amount::zero().is_zero());
    assert!(dec(0, 5).is_zero());
    assert!(!dec(1, 28).is_zero());
}

#[test]
fn addition_aligns_to_the_larger_scale() {
    assert_eq!(parts(dec(150, 2).checked_add(dec(25, 1)).unwrap()), (400, 2));
    assert_eq!(parts(dec(25, 1).checked_add(dec(150, 2)).unwrap()), (400, 2));
    assert_eq!(parts(dec(-150, 2).checked_add(dec(150, 2)).unwrap()), (0, 2));
    assert_eq!(parts(dec(1, 28).checked_add(dec(1, 0)).unwrap()), (10i128.pow(28) + 1, 28));
}

#[test]
fn addition_with_zero_returns_the_other_operand() {
    assert_eq!(parts(dec(0, 2).checked_add(dec(5, 0)).unwrap()), (5, 0));
    assert_eq!(parts(dec(5, 0).checked_add(dec(0, 2)).unwrap()), (5, 0));
    assert_eq!(parts(dec(0, 2).checked_add(dec(0, 7)).unwrap()), (0, 7));
    assert_eq!(parts(dec(0, 28).checked_add(dec(MAX_MANTISSA, 0)).unwrap()), (MAX_MANTISSA, 0));
}

#[test]
fn subtraction_aligns_to_the_larger_scale() {
    assert_eq!(parts(dec(1000000, 2).checked_sub(dec(12345, 2)).unwrap()), (987655, 2));
    assert_eq!(parts(dec(1, 0).checked_sub(dec(25, 2)).unwrap()), (75, 2));
    assert_eq!(parts(dec(25, 2).checked_sub(dec(1, 0)).unwrap()), (-75, 2));
    assert_eq!(parts(dec(10000, 2).checked_sub(dec(1000, 1)).unwrap()), (0, 2));
}

#[test]
fn subtraction_with_zero() {
    assert_eq!(parts(dec(0, 3).checked_sub(dec(5, 1)).unwrap()), (-5, 1));
    assert_eq!(parts(dec(5, 1).checked_sub(dec(0, 3)).unwrap()), (5, 1));
    assert_eq!(parts(dec(0, 3).checked_sub(dec(0, 1)).unwrap()), (0, 1));
}

#[test]
fn multiplication_adds_the_scales() {
    assert_eq!(parts(dec(15, 1).checked_mul(dec(225, 2)).unwrap()), (3375, 3));
    assert_eq!(parts(dec(-50000000, 2).checked_mul(dec(5, 3)).unwrap()), (-250000000, 5));
    assert_eq!(parts(dec(0, 2).checked_mul(dec(225, 2)).unwrap()), (0, 0));
    assert_eq!(parts(dec(225, 2).checked_mul(dec(0, 9)).unwrap()), (0, 0));
}

#[test]
fn division_by_zero_and_of_zero() {
    assert!(dec(5, 0).checked_div(dec(0, 0)).is_none());
    assert!(dec(0, 0).checked_div(dec(0, 4)).is_none());
    assert_eq!(parts(dec(0, 4).checked_div(dec(7, 1)).unwrap()), (0, 0));
}

#[test]
fn division_is_the_decimal_quotient() {
    let q = dec(60, 1).checked_div(dec(12, 0)).unwrap();
    assert_eq!(decimal(q), Decimal::new(5, 1));
    let third = dec(1, 0).checked_div(dec(3, 0)).unwrap();
    assert_eq!(of_decimal(Decimal::ONE.checked_div(Decimal::new(3, 0))), Some(parts(third)));
    assert_eq!(third.scale(), 28);
    let rate = dec(50, 1).checked_div(dec(12, 0)).unwrap();
    assert_eq!(
        of_decimal(Decimal::new(50, 1).checked_div(Decimal::new(12, 0))),
        Some(parts(rate))
    );
}

#[test]
fn overflow_is_reported() {
    let max = dec(MAX_MANTISSA, 0);
    assert!(max.checked_add(max).is_none());
    assert!(max.checked_add(dec(1, 0)).is_none());
    assert!(dec(-MAX_MANTISSA, 0).checked_sub(dec(1, 0)).is_none());
    assert!(max.checked_mul(dec(2, 0)).is_none());
    assert!(max.checked_div(dec(1, 1)).is_none());
    assert_eq!(parts(max.checked_sub(max).unwrap()), (0, 0));
}

#[test]
fn results_that_need_rounding_are_the_decimal_results() {
    let max = dec(MAX_MANTISSA, 0);
    let half = dec(5, 1);
    let x = Decimal::from_i128_with_scale(MAX_MANTISSA, 0);
    assert_eq!(of_decimal(x.checked_sub(Decimal::new(5, 1))), max.checked_sub(half).map(parts));
    assert_eq!(of_decimal(x.checked_add(Decimal::new(-4, 1))), max.checked_add(dec(-4, 1)).map(parts));
    let small = dec(1, 28);
    assert_eq!(
        of_decimal(Decimal::new(1, 28).checked_mul(Decimal::new(1, 28))),
        small.checked_mul(small).map(parts)
    );
    let big = dec(MAX_MANTISSA, 14);
    assert_eq!(
        of_decimal(
            Decimal::from_i128_with_scale(MAX_MANTISSA, 14)
                .checked_mul(Decimal::from_i128_with_scale(MAX_MANTISSA, 14))
        ),
        big.checked_mul(big).map(parts)
    );
}

#[test]
fn rounding_goes_to_the_even_neighbour_on_a_tie() {
    assert_eq!(parts(dec(2345, 3).round_dp(2)), (234, 2));
    assert_eq!(parts(dec(2355, 3).round_dp(2)), (236, 2));
    assert_eq!(parts(dec(-2345, 3).round_dp(2)), (-234, 2));
    assert_eq!(parts(dec(-2355, 3).round_dp(2)), (-236, 2));
    assert_eq!(parts(dec(23451, 4).round_dp(2)), (235, 2));
    assert_eq!(parts(dec(23449, 4).round_dp(2)), (234, 2));
    assert_eq!(parts(dec(-23451, 4).round_dp(2)), (-235, 2));
    assert_eq!(parts(dec(5, 3).round_dp(2)), (0, 2));
    assert_eq!(parts(dec(15, 3).round_dp(2)), (2, 2));
    assert_eq!(parts(dec(-5, 3).round_dp(2)), (0, 2));
    assert_eq!(parts(dec(65, 1).round_dp(0)), (6, 0));
    assert_eq!(parts(dec(75, 1).round_dp(0)), (8, 0));
}

#[test]
fn rounding_leaves_short_amounts_alone() {
    assert_eq!(parts(dec(234, 2).round_dp(2)), (234, 2));
    assert_eq!(parts(dec(23, 1).round_dp(2)), (23, 1));
    assert_eq!(parts(dec(2, 0).round_dp(2)), (2, 0));
    assert_eq!(parts(dec(0, 5).round_dp(2)), (0, 2));
    assert_eq!(parts(dec(MAX_MANTISSA, 28).round_dp(28)), (MAX_MANTISSA, 28));
    assert_eq!(parts(dec(MAX_MANTISSA, 28).round_dp(40)), (MAX_MANTISSA, 28));
}

#[test]
fn rounding_the_largest_mantissa() {
    let d = Decimal::from_i128_with_scale(MAX_MANTISSA, 3).round_dp(2);
    assert_eq!(parts(dec(MAX_MANTISSA, 3).round_dp(2)), (d.mantissa(), d.scale()));
    assert_eq!(parts(dec(MAX_MANTISSA, 3).round_dp(2)), (7922816251426433759354395034, 2));
    assert_eq!(parts(dec(MAX_MANTISSA, 28).round_dp(2)), (792, 2));
    assert_eq!(parts(dec(-MAX_MANTISSA, 28).round_dp(0)), (-8, 0));
}

#[test]
fn comparisons_go_by_the_number() {
    assert!(dec(10, 1).le(&dec(100, 2)));
    assert!(dec(100, 2).le(&dec(10, 1)));
    assert!(dec(10, 1).same_value(&dec(100, 2)));
    assert!(dec(10, 1) == dec(100, 2));
    assert!(dec(10, 1) != dec(101, 2));
    assert!(dec(-1, 0).lt(&dec(0, 5)));
    assert!(!dec(0, 5).lt(&dec(0, 0)));
    assert!(dec(1, 28).gt(&dec(0, 0)));
    assert!(!dec(1, 28).gt(&dec(1, 27)));
    assert!(dec(-MAX_MANTISSA, 0).lt(&dec(MAX_MANTISSA, 28)));
    assert!(dec(MAX_MANTISSA, 0).gt(&dec(MAX_MANTISSA, 1)));
    assert!(dec(5, 1).le(&dec(5, 1)));
    assert!(!dec(6, 1).le(&dec(5, 1)));
}

#[test]
fn minimum_and_maximum_keep_the_first_on_a_tie() {
    assert_eq!(parts(dec(10, 1).min(dec(100, 2))), (10, 1));
    assert_eq!(parts(dec(100, 2).min(dec(10, 1))), (100, 2));
    assert_eq!(parts(dec(10, 1).max(dec(100, 2))), (10, 1));
    assert_eq!(parts(dec(100, 2).max(dec(10, 1))), (100, 2));
    assert_eq!(parts(dec(3, 0).min(dec(25, 1))), (25, 1));
    assert_eq!(parts(dec(3, 0).max(dec(25, 1))), (3, 0));
    assert_eq!(parts(dec(-3, 0).max(dec(0, 0))), (0, 0));
}

#[test]
fn negation_flips_the_sign() {
    assert_eq!(parts(dec(12345, 2).neg()), (-12345, 2));
    assert_eq!(parts(dec(-12345, 2).neg()), (12345, 2));
    assert_eq!(parts(dec(0, 2).neg()), (0, 2));
    assert_eq!(parts(dec(MAX_MANTISSA, 28).neg()), (-MAX_MANTISSA, 28));
}

fn sample_mantissas() -> Vec<i128> {
    let mut values = vec![0, 1, 2, 5, 9, 10, 15, 99, 100, 12345, 50000000, 4294967295, 4294967296];
    values.push(u64::MAX as i128);
    values.push(u64::MAX as i128 + 1);
    values.push(10i128.pow(19));
    values.push(10i128.pow(28));
    values.push(MAX_MANTISSA / 10);
    values.push(MAX_MANTISSA / 10 + 1);
    values.push(MAX_MANTISSA / 2);
    values.push(MAX_MANTISSA - 1);
    values.push(MAX_MANTISSA);
    let negatives: Vec<i128> = values.iter().map(|v| -v).collect();
    values.extend(negatives);
    values
}

fn sample_scales() -> Vec<u32> {
    vec![0, 1, 2, 3, 9, 10, 19, 20, 27, 28]
}

fn aligned(mantissa: i128, from: u32, to: u32) -> Option<i128> {
    mantissa.checked_mul(10i128.checked_pow(to - from)?)
}

#[test]
fn sums_and_differences_agree_with_the_decimal_crate() {
    for &am in &sample_mantissas() {
        for &asc in &sample_scales() {
            for &bm in &sample_mantissas() {
                for &bsc in &sample_scales() {
                    let (a, b) = (dec(am, asc), dec(bm, bsc));
                    let (x, y) = (decimal(a), decimal(b));
                    let sum = a.checked_add(b).map(parts);
                    let difference = a.checked_sub(b).map(parts);
                    assert_eq!(sum, of_decimal(x.checked_add(y)));
                    assert_eq!(difference, of_decimal(x.checked_sub(y)));
                    let scale = asc.max(bsc);
                    if am == 0 {
                        assert_eq!(sum, Some((bm, bsc)));
                        assert_eq!(difference, Some((-bm, bsc)));
                    } else if bm == 0 {
                        assert_eq!(sum, Some((am, asc)));
                        assert_eq!(difference, Some((am, asc)));
                    } else if let (Some(p), Some(q)) =
                        (aligned(am, asc, scale), aligned(bm, bsc, scale))
                    {
                        if let Some(exact) = p.checked_add(q) {
                            if exact.abs() <= MAX_MANTISSA {
                                assert_eq!(sum, Some((exact, scale)));
                            }
                        }
                        if let Some(exact) = p.checked_sub(q) {
                            if exact.abs() <= MAX_MANTISSA {
                                assert_eq!(difference, Some((exact, scale)));
                            }
                        }
                    }
                }
            }
        }
    }
}

#[test]
fn products_and_quotients_agree_with_the_decimal_crate() {
    for &am in &sample_mantissas() {
        for &asc in &sample_scales() {
            for &bm in &sample_mantissas() {
                for &bsc in &sample_scales() {
                    let (a, b) = (dec(am, asc), dec(bm, bsc));
                    let (x, y) = (decimal(a), decimal(b));
                    let product = a.checked_mul(b).map(parts);
                    assert_eq!(product, of_decimal(x.checked_mul(y)));
                    assert_eq!(a.checked_div(b).map(parts), of_decimal(x.checked_div(y)));
                    if am == 0 || bm == 0 {
                        assert_eq!(product, Some((0, 0)));
                    } else if asc + bsc <= MAX_SCALE {
                        if let Some(exact) = am.checked_mul(bm) {
                            if exact.abs() <= MAX_MANTISSA {
                                assert_eq!(product, Some((exact, asc + bsc)));
                            }
                        }
                    }
                }
            }
        }
    }
}

#[test]
fn order_and_rounding_agree_with_the_decimal_crate() {
    for &am in &sample_mantissas() {
        for &asc in &sample_scales() {
            let a = dec(am, asc);
            let x = decimal(a);
            for digits in [0u32, 1, 2, 5, 27, 28, 29] {
                let r = x.round_dp(digits);
                assert_eq!(parts(a.round_dp(digits)), (r.mantissa(), r.scale()));
            }
            for &bm in &sample_mantissas() {
                for &bsc in &sample_scales() {
                    let b = dec(bm, bsc);
                    let y = decimal(b);
                    assert_eq!(a.le(&b), x <= y);
                    assert_eq!(a.lt(&b), x < y);
                    assert_eq!(a.gt(&b), x > y);
                    assert_eq!(a.same_value(&b), x == y);
                    assert_eq!(parts(a.min(b)), (x.min(y).mantissa(), x.min(y).scale()));
                    assert_eq!(parts(a.max(b)), (x.max(y).mantissa(), x.max(y).scale()));
                }
            }
        }
    }
}

fn round_half_even(mantissa: i128, drop: u32) -> i128 {
    let p = 10i128.pow(drop);
    let magnitude = mantissa.abs();
    let (q, r) = (magnitude / p, magnitude % p);
    let q = if 2 * r > p || (2 * r == p && q % 2 == 1) { q + 1 } else { q };
    if mantissa < 0 {
        -q
    } else {
        q
    }
}

#[test]
fn rounding_is_half_even_on_the_mantissa() {
    for &am in &sample_mantissas() {
        for &asc in &sample_scales() {
            for digits in [0u32, 1, 2, 5, 27, 28] {
                let rounded = parts(dec(am, asc).round_dp(digits));
                if asc <= digits {
                    assert_eq!(rounded, (am, asc));
                } else {
                    assert_eq!(rounded, (round_half_even(am, asc - digits), digits));
                }
            }
        }
    }
    for m in -2000i128..2000 {
        assert_eq!(parts(dec(m, 3).round_dp(2)), (round_half_even(m, 1), 2));
        assert_eq!(parts(dec(m, 4).round_dp(2)), (round_half_even(m, 2), 2));
    }
}

/// A small deterministic generator of test values.
struct Sequence(u64);

impl Sequence {
    fn next(&mut self) -> u64 {
        self.0 = self.0.wrapping_mul(6364136223846793005).wrapping_add(1442695040888963407);
        self.0 >> 11
    }

    fn below(&mut self, bound: u64) -> u64 {
        self.next() % bound
    }

    fn mantissa(&mut self) -> i128 {
        let bits = self.below(97) as u32;
        let raw = ((self.next() as u128) << 64 | (self.next() as u128) << 11 | self.next() as u128)
            & ((1u128 << bits) - 1);
        let value = raw.min(MAX_MANTISSA as u128) as i128;
        if self.below(2) == 0 {
            value
        } else {
            -value
        }
    }
}

fn check_sum_and_difference(am: i128, asc: u32, bm: i128, bsc: u32) {
    let (a, b) = (dec(am, asc), dec(bm, bsc));
    let sum = a.checked_add(b).map(parts);
    let difference = a.checked_sub(b).map(parts);
    assert_eq!(sum, of_decimal(decimal(a).checked_add(decimal(b))));
    assert_eq!(difference, of_decimal(decimal(a).checked_sub(decimal(b))));
    let scale = asc.max(bsc);
    if am == 0 {
        assert_eq!(sum, Some((bm, bsc)));
        assert_eq!(difference, Some((-bm, bsc)));
    } else if bm == 0 {
        assert_eq!(sum, Some((am, asc)));
        assert_eq!(difference, Some((am, asc)));
    } else if let (Some(p), Some(q)) = (aligned(am, asc, scale), aligned(bm, bsc, scale)) {
        if let Some(exact) = p.checked_add(q) {
            if exact.abs() <= MAX_MANTISSA {
                assert_eq!(sum, Some((exact, scale)), "{am}e-{asc} + {bm}e-{bsc}");
            }
        }
        if let Some(exact) = p.checked_sub(q) {
            if exact.abs() <= MAX_MANTISSA {
                assert_eq!(difference, Some((exact, scale)), "{am}e-{asc} - {bm}e-{bsc}");
            }
        }
    }
}

#[test]
fn sums_of_arbitrary_amounts_follow_the_exact_rule() {
    let mut values = Sequence(0x5eed);
    for _ in 0..150_000 {
        let (am, bm) = (values.mantissa(), values.mantissa());
        let (asc, bsc) = (values.below(29) as u32, values.below(29) as u32);
        check_sum_and_difference(am, asc, bm, bsc);
    }
}

#[test]
fn sums_near_the_limit_follow_the_exact_rule() {
    let mut values = Sequence(0xca5e);
    let mut exact_cases = 0;
    for _ in 0..150_000 {
        let asc = values.below(29) as u32;
        let bsc = asc + values.below((29 - asc) as u64) as u32;
        let am = values.mantissa();
        let Some(lifted) = aligned(am, asc, bsc) else { continue };
        let delta = values.below(2000) as i128 - 1000;
        let sign = if values.below(2) == 0 { 1 } else { -1 };
        let near_opposite = sign * lifted + delta;
        let near_limit = sign * (MAX_MANTISSA - lifted.abs()) + delta;
        for bm in [near_opposite, near_limit, -near_limit] {
            if bm.abs() <= MAX_MANTISSA {
                check_sum_and_difference(am, asc, bm, bsc);
                check_sum_and_difference(bm, bsc, am, asc);
                exact_cases += 1;
            }
        }
    }
    assert!(exact_cases > 10_000);
}

#[test]
fn products_of_arbitrary_amounts_follow_the_exact_rule() {
    let mut values = Sequence(0xface);
    let mut exact_cases = 0;
    for round in 0..150_000 {
        let (mut am, mut bm) = (values.mantissa(), values.mantissa());
        if round % 2 == 0 {
            am >>= 48;
            bm >>= 48;
        }
        let (asc, bsc) = (values.below(29) as u32, values.below(29) as u32);
        let (a, b) = (dec(am, asc), dec(bm, bsc));
        let product = a.checked_mul(b).map(parts);
        assert_eq!(product, of_decimal(decimal(a).checked_mul(decimal(b))));
        assert_eq!(
            a.checked_div(b).map(parts),
            of_decimal(decimal(a).checked_div(decimal(b)))
        );
        if am == 0 || bm == 0 {
            assert_eq!(product, Some((0, 0)));
        } else if asc + bsc <= MAX_SCALE {
            if let Some(exact) = am.checked_mul(bm) {
                if exact.abs() <= MAX_MANTISSA {
                    assert_eq!(product, Some((exact, asc + bsc)), "{am}e-{asc} * {bm}e-{bsc}");
                    exact_cases += 1;
                }
            }
        }
    }
    assert!(exact_cases > 10_000);
}

#[test]
fn rounding_of_arbitrary_amounts_is_half_even() {
    let mut values = Sequence(0xbead);
    for _ in 0..150_000 {
        let (am, asc) = (values.mantissa(), values.below(29) as u32);
        let digits = values.below(30) as u32;
        let rounded = parts(dec(am, asc).round_dp(digits));
        let by_crate = decimal(dec(am, asc)).round_dp(digits);
        assert_eq!(rounded, (by_crate.mantissa(), by_crate.scale()));
        if asc <= digits {
            assert_eq!(rounded, (am, asc));
        } else {
            assert_eq!(rounded, (round_half_even(am, asc - digits), digits));
        }
        let (bm, bsc) = (values.mantissa(), values.below(29) as u32);
        let (a, b) = (dec(am, asc), dec(bm, bsc));
        assert_eq!(a.le(&b), decimal(a) <= decimal(b));
        if let (Some(p), Some(q)) = (aligned(am, asc, 28), aligned(bm, bsc, 28)) {
            assert_eq!(a.le(&b), p <= q);
        }
    }
}

#[test]
fn differences_are_exact_even_where_one_operand_alone_would_not_fit() {
    let mut values = Sequence(0xd1ff);
    let mut cases = 0;
    for k in 1..=28u32 {
        let power = 10i128.pow(k);
        // The smallest mantissa that, written with `k` more digits, needs
        // more than 96 bits.
        let least = MAX_MANTISSA / power + 1;
        for asc in 0..=(28 - k) {
            let bsc = asc + k;
            for step in 0..40 {
                let am = least + step * (1 + values.below(1000) as i128);
                let Some(lifted) = am.checked_mul(power) else { continue };
                assert!(lifted > MAX_MANTISSA);
                let lowest = lifted - MAX_MANTISSA;
                if lowest > MAX_MANTISSA {
                    continue;
                }
                let span = (MAX_MANTISSA - lowest) as u128;
                let offset = ((values.next() as u128) << 64 | values.next() as u128) % (span + 1);
                for bm in [MAX_MANTISSA, lowest, MAX_MANTISSA - step, lowest + offset as i128] {
                    if am > MAX_MANTISSA || bm > MAX_MANTISSA || bm < lowest {
                        continue;
                    }
                    let expected = lifted - bm;
                    assert!(expected.abs() <= MAX_MANTISSA);
                    let a = dec(am, asc);
                    let b = dec(bm, bsc);
                    assert_eq!(a.checked_sub(b).map(parts), Some((expected, bsc)));
                    assert_eq!(b.checked_sub(a).map(parts), Some((-expected, bsc)));
                    assert_eq!(a.checked_add(b.neg()).map(parts), Some((expected, bsc)));
                    assert_eq!(b.neg().checked_add(a).map(parts), Some((expected, bsc)));
                    assert_eq!(a.neg().checked_add(b).map(parts), Some((-expected, bsc)));
                    assert_eq!(a.neg().checked_sub(b.neg()).map(parts), Some((-expected, bsc)));
                    cases += 1;
                }
            }
        }
    }
    assert!(cases > 5_000, "{cases}");
}
