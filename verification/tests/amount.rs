use accounts::domain::amount::Amount;

fn dec(mantissa: i128, scale: u32) -> Amount {
    Amount::new(mantissa, scale).unwrap()
}

fn parts(a: Amount) -> (i128, u32) {
    (a.mantissa(), a.scale())
}

#[test]
fn new_refuses_what_does_not_fit() {
    let limit: i128 = 79228162514264337593543950336;
    assert!(Amount::new(limit, 0).is_none());
    assert!(Amount::new(-limit, 0).is_none());
    assert!(Amount::new(limit - 1, 28).is_some());
    assert!(Amount::new(1 - limit, 28).is_some());
    assert!(Amount::new(1, 29).is_none());
}

#[test]
fn zero_and_whole_numbers() {
    assert_eq!(parts(Amount::zero()), (0, 0));
    assert_eq!(parts(Amount::from_u64(42)), (42, 0));
    assert_eq!(parts(Amount::from_u64(u64::MAX)), (u64::MAX as i128, 0));
    assert!(Amount::zero().is_zero());
    assert!(!Amount::from_u64(1).is_zero());
}

#[test]
fn signs() {
    assert!(dec(-1, 3).is_sign_negative());
    assert!(!dec(-1, 3).is_sign_positive());
    assert!(dec(0, 3).is_sign_positive());
    assert!(dec(7, 0).is_sign_positive());
    assert_eq!(parts(dec(15, 1).negated()), (-15, 1));
    assert_eq!(parts(dec(0, 2).negated()), (0, 2));
}

#[test]
fn sum_at_the_same_scale() {
    assert_eq!(parts(dec(10, 1).checked_add(dec(5, 1)).unwrap()), (15, 1));
    assert_eq!(parts(dec(10, 1).checked_add(dec(-10, 1)).unwrap()), (0, 1));
    assert_eq!(parts(dec(-3, 0).checked_add(dec(5, 0)).unwrap()), (2, 0));
    assert_eq!(parts(dec(-3, 0).checked_add(dec(-5, 0)).unwrap()), (-8, 0));
}

#[test]
fn sum_is_written_at_the_larger_scale() {
    assert_eq!(parts(dec(1, 0).checked_add(dec(25, 2)).unwrap()), (125, 2));
    assert_eq!(parts(dec(25, 2).checked_add(dec(1, 0)).unwrap()), (125, 2));
    assert_eq!(parts(dec(3, 0).checked_add(dec(1, 19)).unwrap()), (30000000000000000001, 19));
    // 32-bit operands whose alignment leaves 32 bits
    assert_eq!(parts(dec(4000000000, 0).checked_add(dec(1, 9)).unwrap()), (4000000000000000001, 9));
}

#[test]
fn adding_zero_hands_the_other_operand_back() {
    assert_eq!(parts(dec(0, 2).checked_add(dec(1, 0)).unwrap()), (1, 0));
    assert_eq!(parts(dec(1, 0).checked_add(dec(0, 2)).unwrap()), (1, 0));
    assert_eq!(parts(dec(0, 0).checked_add(dec(0, 5)).unwrap()), (0, 5));
    assert_eq!(parts(dec(0, 5).checked_add(dec(0, 0)).unwrap()), (0, 0));
    let big: i128 = 79228162514264337593543950335;
    assert_eq!(parts(dec(0, 7).checked_add(dec(big, 3)).unwrap()), (big, 3));
    assert_eq!(parts(dec(-big, 3).checked_add(dec(0, 7)).unwrap()), (-big, 3));
}

#[test]
fn difference_on_plain_operands() {
    assert_eq!(parts(dec(10, 1).checked_sub(dec(5, 1)).unwrap()), (5, 1));
    assert_eq!(parts(dec(5, 1).checked_sub(dec(10, 1)).unwrap()), (-5, 1));
    assert_eq!(parts(dec(5, 1).checked_sub(dec(5, 1)).unwrap()), (0, 1));
    assert_eq!(parts(dec(1, 0).checked_sub(dec(25, 2)).unwrap()), (75, 2));
    assert_eq!(parts(dec(-1, 0).checked_sub(dec(25, 2)).unwrap()), (-125, 2));
    assert_eq!(parts(dec(-1, 0).checked_sub(dec(-25, 2)).unwrap()), (-75, 2));
}

#[test]
fn subtracting_from_zero_negates() {
    assert_eq!(parts(dec(0, 4).checked_sub(dec(15, 1)).unwrap()), (-15, 1));
    assert_eq!(parts(dec(0, 4).checked_sub(dec(-15, 1)).unwrap()), (15, 1));
    assert_eq!(parts(dec(0, 4).checked_sub(dec(0, 1)).unwrap()), (0, 1));
    assert_eq!(parts(dec(15, 1).checked_sub(dec(0, 4)).unwrap()), (15, 1));
    let big: i128 = 79228162514264337593543950335;
    assert_eq!(parts(dec(0, 0).checked_sub(dec(big, 2)).unwrap()), (-big, 2));
}

#[test]
fn short_operands_at_the_edges() {
    let word: i128 = 18446744073709551615;
    assert_eq!(parts(dec(word, 0).checked_add(dec(word, 0)).unwrap()), (2 * word, 0));
    assert_eq!(parts(dec(word, 0).checked_sub(dec(-word, 0)).unwrap()), (2 * word, 0));
    assert_eq!(parts(dec(-word, 5).checked_sub(dec(word, 5)).unwrap()), (-2 * word, 5));
    // scales 19 apart, sum still within 96 bits
    let aligned: i128 = 4294967295 * 10000000000000000000;
    assert_eq!(parts(dec(4294967295, 0).checked_add(dec(word, 19)).unwrap()), (aligned + word, 19));
    assert_eq!(parts(dec(word, 19).checked_sub(dec(4294967295, 0)).unwrap()), (word - aligned, 19));
    assert_eq!(parts(dec(1, 9).checked_add(dec(word, 28)).unwrap()), (10000000000000000000 + word, 28));
}

#[test]
fn overflow_is_none() {
    let big: i128 = 79228162514264337593543950335;
    assert!(dec(big, 0).checked_add(dec(1, 0)).is_none());
    assert!(dec(-big, 0).checked_sub(dec(1, 0)).is_none());
    assert!(dec(big, 0).checked_add(dec(big, 0)).is_none());
}

#[test]
fn equality_is_numeric() {
    assert!(dec(10, 1) == dec(1, 0));
    assert!(dec(100, 2) == dec(10, 1));
    assert!(dec(0, 5) == dec(0, 0));
    assert!(dec(1, 1) != dec(1, 0));
    assert!(dec(-1, 0) != dec(1, 0));
    assert!(Amount::from_u64(3) == dec(3000, 3));
}

/// A small deterministic generator, so that many operands are tried and a
/// failure can be repeated.
fn next(state: &mut u64) -> u64 {
    *state = state.wrapping_mul(6364136223846793005).wrapping_add(1442695040888963407);
    *state >> 11
}

fn pow10(n: u32) -> i128 {
    let mut p: i128 = 1;
    for _ in 0..n {
        p *= 10;
    }
    p
}

#[test]
fn plain_sums_and_differences_are_exact_on_many_operands() {
    let limit: i128 = 79228162514264337593543950336;
    let mut state: u64 = 20240229;
    let mut tried = 0;
    while tried < 20000 {
        let bits_a = (next(&mut state) % 64) as u32;
        let bits_b = (next(&mut state) % 64) as u32;
        let mut a = (next(&mut state) as i128) & ((1i128 << bits_a) - 1);
        let mut b = (next(&mut state) as i128) & ((1i128 << bits_b) - 1);
        if next(&mut state) % 2 == 0 {
            a = -a;
        }
        if next(&mut state) % 2 == 0 {
            b = -b;
        }
        if a == 0 || b == 0 {
            continue;
        }
        let sa = (next(&mut state) % 29) as u32;
        let spread = (next(&mut state) % 20) as u32;
        let sb = if next(&mut state) % 2 == 0 { sa + spread } else { sa.saturating_sub(spread) };
        if sb > 28 {
            continue;
        }
        let s = sa.max(sb);
        let (xa, xb) = match (a.checked_mul(pow10(s - sa)), b.checked_mul(pow10(s - sb))) {
            (Some(xa), Some(xb)) => (xa, xb),
            _ => continue,
        };
        let x = dec(a, sa);
        let y = dec(b, sb);
        let sum = xa + xb;
        if -limit < sum && sum < limit {
            assert_eq!(parts(x.checked_add(y).unwrap()), (sum, s), "{a}e-{sa} + {b}e-{sb}");
        }
        let difference = xa - xb;
        if -limit < difference && difference < limit {
            assert_eq!(
                parts(x.checked_sub(y).unwrap()),
                (difference, s),
                "{a}e-{sa} - {b}e-{sb}"
            );
        }
        tried += 1;
    }
}

#[test]
fn results_are_always_representable() {
    let limit: i128 = 79228162514264337593543950336;
    let mut state: u64 = 77;
    for _ in 0..20000 {
        let hi = (next(&mut state) as i128) << 43;
        let lo = next(&mut state) as i128;
        let a = (hi | lo) % limit;
        let hi = (next(&mut state) as i128) << 43;
        let lo = next(&mut state) as i128;
        let b = -((hi | lo) % limit);
        let sa = (next(&mut state) % 29) as u32;
        let sb = (next(&mut state) % 29) as u32;
        for r in [dec(a, sa).checked_add(dec(b, sb)), dec(a, sa).checked_sub(dec(b, sb))] {
            if let Some(r) = r {
                assert!(-limit < r.mantissa() && r.mantissa() < limit);
                assert!(r.scale() <= 28);
            }
        }
    }
}

#[test]
fn a_sum_that_does_not_fit_at_the_larger_scale_is_rounded() {
    let big: i128 = 79228162514264337593543950335;
    assert_eq!(parts(dec(big, 0).checked_add(dec(4, 1)).unwrap()), (big, 0));
    assert_eq!(parts(dec(big - 1, 0).checked_add(dec(6, 1)).unwrap()), (big, 0));
    assert_eq!(parts(dec(big, 0).checked_sub(dec(4, 1)).unwrap()), (big, 0));
}

#[test]
fn operands_of_one_scale_are_combined_exactly_whatever_their_size() {
    let limit: i128 = 79228162514264337593543950336;
    let mut state: u64 = 4711;
    let mut tried = 0;
    while tried < 20000 {
        let bits_a = (next(&mut state) % 96) as u32 + 1;
        let bits_b = (next(&mut state) % 96) as u32 + 1;
        let wide_a = ((next(&mut state) as i128) << 53) | next(&mut state) as i128;
        let wide_b = ((next(&mut state) as i128) << 53) | next(&mut state) as i128;
        let mut a = wide_a & ((1i128 << bits_a) - 1);
        let mut b = wide_b & ((1i128 << bits_b) - 1);
        if next(&mut state) % 2 == 0 {
            a = -a;
        }
        if next(&mut state) % 2 == 0 {
            b = -b;
        }
        if a == 0 || b == 0 {
            continue;
        }
        let s = (next(&mut state) % 29) as u32;
        let x = dec(a, s);
        let y = dec(b, s);
        if -limit < a + b && a + b < limit {
            assert_eq!(parts(x.checked_add(y).unwrap()), (a + b, s), "{a} + {b} at scale {s}");
        }
        if -limit < a - b && a - b < limit {
            assert_eq!(parts(x.checked_sub(y).unwrap()), (a - b, s), "{a} - {b} at scale {s}");
        }
        tried += 1;
    }
    let big: i128 = 79228162514264337593543950335;
    assert_eq!(parts(dec(big, 4).checked_sub(dec(big, 4)).unwrap()), (0, 4));
    assert_eq!(parts(dec(big - 1, 0).checked_add(dec(1, 0)).unwrap()), (big, 0));
    assert_eq!(parts(dec(-big, 28).checked_add(dec(big, 28)).unwrap()), (0, 28));
}
