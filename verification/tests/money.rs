use accounts::domain::amount::Amount;
use accounts::domain::money::Currency;
use accounts::domain::money::Currency::Bitcoin;
use accounts::domain::money::Money;
use accounts::domain::money::MoneyErrors;

#[test]
pub fn new_amount_is_zero() {
    let m = Money::new(Currency::Bitcoin);
    assert_eq!(m.amount, Amount::zero());
}

#[test]
fn currency_zero_is_zero() {
    let m = Currency::Other { code: 7 }.zero();
    assert!(m.is_zero());
    assert_eq!(m.currency, Currency::Other { code: 7 });
    assert!(m.is_positive());
    assert!(!m.is_negative());
}

#[test]
fn whole_numbers_of_a_currency() {
    let m = 12 * Bitcoin;
    assert_eq!(m.amount.mantissa(), 12);
    assert_eq!(m.amount.scale(), 0);
    assert_eq!(m.currency, Bitcoin);
    assert!(m == 12);
    assert!(!(m == 13));
    let n = Amount::new(125, 2).unwrap() * Bitcoin;
    assert_eq!(n.as_decimal().mantissa(), 125);
    let back: Amount = n.into();
    assert_eq!(back.scale(), 2);
}

#[test]
fn cannot_operate_different_currencies() {
    let a = 1 * Bitcoin;
    let b = 1 * Currency::Other { code: 1 };
    assert_eq!(a.checked_add(b).unwrap_err(), MoneyErrors::MismatchedCurrencies);
    assert_eq!(a.checked_sub(b).unwrap_err(), MoneyErrors::MismatchedCurrencies);
    assert!(a != b);
}

#[test]
fn add_and_sub_keep_the_currency() {
    let a = 5 * Bitcoin;
    let b = 3 * Bitcoin;
    let sum = a.checked_add(b).unwrap();
    assert!(sum == 8);
    assert_eq!(sum.currency, Bitcoin);
    let difference = b.checked_sub(a).unwrap();
    assert!(difference.is_negative());
    assert_eq!(difference.amount.mantissa(), -2);
}

#[test]
fn add_overflows_and_sub_underflows() {
    let big = Amount::new(79228162514264337593543950335, 0).unwrap() * Bitcoin;
    assert_eq!(big.checked_add(1 * Bitcoin).unwrap_err(), MoneyErrors::Overflow);
    let small = Amount::new(-79228162514264337593543950335, 0).unwrap() * Bitcoin;
    assert_eq!(small.checked_sub(1 * Bitcoin).unwrap_err(), MoneyErrors::Underflow);
}

#[test]
fn money_equality_is_numeric() {
    let a = Amount::new(10, 1).unwrap() * Bitcoin;
    let b = 1 * Bitcoin;
    assert!(a == b);
    assert!(a == 1);
}

#[test]
fn sub_assign_takes_from_the_amount() {
    let mut m = 5 * Bitcoin;
    m.sub_assign(Amount::new(15, 1).unwrap());
    assert_eq!((m.amount.mantissa(), m.amount.scale()), (35, 1));
    assert_eq!(m.currency, Bitcoin);
    assert!(m.checked_sub_assign(Amount::from_u64(4)));
    assert_eq!((m.amount.mantissa(), m.amount.scale()), (-5, 1));
    let mut small = Amount::new(-79228162514264337593543950335, 0).unwrap() * Bitcoin;
    assert!(!small.checked_sub_assign(Amount::from_u64(1)));
    assert_eq!(small.amount.mantissa(), -79228162514264337593543950335);
}
