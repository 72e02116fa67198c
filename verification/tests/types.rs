use airborne::types::{gcd, AccountType, EntryType, Fraction, Ratio, CREDIT, DEBIT};
use airborne::capital::Type;

#[test]
fn fraction_sub_t() {
    let f1 = Fraction::new(3, 5);
    let f2 = Fraction::new(3, 6);
    let f_res = f1 - f2;
    assert_eq!(f_res, Fraction::new(3, 30))
}

#[test]
fn ratio_t() {
    let ratio = Ratio::new(vec![2, 4, 3, 1]);
    let first = ratio[0];
    assert_eq!(first, 2);
    let second_f = ratio.part(1).unwrap();
    assert_eq!(second_f, Fraction::new(4, 10));
    // the percentage of a fraction is `num / denom · 100`
    let second_perc = second_f.num() as f64 / second_f.denom() as f64 * 100.0;
    assert_eq!(format!("{}%", second_perc), "40%".to_owned());
}

#[test]
fn fraction_sub_self_is_zero() {
    let f = Fraction::new(7, 9);
    let z = f.clone() - f;
    assert_eq!(z.num(), 0);
    assert_eq!(z.denom(), 81);
}

#[test]
fn fraction_sub_truncates_to_32_bits() {
    let big = Fraction::new(u32::MAX, 2);
    let small = Fraction::new(0, 3);
    let d = big - small;
    // 3·(2^32 − 1) keeps its low 32 bits
    assert_eq!(d.num(), ((3u64 * u32::MAX as u64) as u32));
    assert_eq!(d.denom(), 6);
}

#[test]
fn gcd_values() {
    assert_eq!(gcd(12, 18), 6);
    assert_eq!(gcd(18, 12), 6);
    assert_eq!(gcd(7, 0), 7);
    assert_eq!(gcd(0, 7), 7);
    assert_eq!(gcd(0, 0), 0);
    assert_eq!(gcd(17, 5), 1);
}

#[test]
fn simplify_reduces_to_lowest_terms() {
    let mut f = Fraction::new(6, 8);
    f.simplify();
    assert_eq!(f, Fraction::new(3, 4));
    f.simplify();
    assert_eq!(f, Fraction::new(3, 4));

    let mut z = Fraction::new(0, 25);
    z.simplify();
    assert_eq!((z.num(), z.denom()), (0, 1));

    let mut nd = Fraction::new(12, 0);
    nd.simplify();
    assert_eq!((nd.num(), nd.denom()), (1, 0));
}

#[test]
fn setters_replace_one_part() {
    let mut f = Fraction::new(1, 2);
    f.set_num(5);
    assert_eq!((f.num(), f.denom()), (5, 2));
    f.set_denom(9);
    assert_eq!((f.num(), f.denom()), (5, 9));
}

#[test]
fn ratio_total_is_sum_of_parts() {
    let r = Ratio::new(vec![2, 4, 3, 1]);
    assert_eq!(r.total(), 10);
    assert_eq!(r.len(), 4);
    assert!(!r.is_empty());
    let parts = r.iter();
    assert_eq!(parts.len(), 4);
    assert_eq!(parts.iter().map(|f| f.num()).sum::<u32>(), r.total());
    assert!(parts.iter().all(|f| f.denom() == 10));
    assert_eq!(r.part(4), None);
    let c = r.clone();
    assert_eq!(c, r);
}

#[test]
fn empty_ratio() {
    let r = Ratio::new(vec![]);
    assert!(r.is_empty());
    assert_eq!(r.total(), 0);
    assert_eq!(r.part(0), None);
}

#[test]
fn account_balances() {
    assert_eq!(AccountType::Asset.balance(), DEBIT);
    assert_eq!(AccountType::Expense.balance(), EntryType::Debit);
    assert_eq!(AccountType::Liability.balance(), CREDIT);
    assert_eq!(AccountType::Capital.balance(), EntryType::Credit);
    assert_eq!(AccountType::Revenue.balance(), CREDIT);
}

#[test]
fn capital_type_default_is_redeemable() {
    assert_eq!(Type::default(), Type::Redeemable);
}
