use confidential_settlement::circuit::{borrow, repay};

#[test]
fn borrow_example() {
    let o = borrow(1000, 2500, 1, 10000).unwrap();
    assert_eq!(o.max_loan_amount, 2500);
    assert_eq!(o.loan_amount, 1000);
    assert_eq!(o.loan_collateral_amount, 1000);
    assert_eq!(o.collateral_excess_amount, 1500);
}

#[test]
fn borrow_capped_by_vault_balance() {
    let o = borrow(1000, 2500, 1, 5000).unwrap();
    assert_eq!(o.max_loan_amount, 1250);
    assert_eq!(o.loan_amount, 1000);
    assert_eq!(o.loan_collateral_amount, 2000);
    assert_eq!(o.collateral_excess_amount, 500);
}

#[test]
fn borrow_conservation_samples() {
    let cases: [(u64, u64, u64, u16); 4] =
        [(1000, 2500, 1, 10000), (7, 13, 3, 777), (0, 5, 2, 100), (1_000_000, 3, 250, 10_000)];
    for &(a, c, p, l) in cases.iter() {
        let o = borrow(a, c, p, l).unwrap();
        assert!(o.loan_amount <= a);
        assert!(o.loan_collateral_amount <= c);
        assert_eq!(o.loan_amount + (a - o.loan_amount), a);
        assert_eq!(o.loan_collateral_amount + o.collateral_excess_amount, c);
    }
}

#[test]
fn borrow_zero_ratio_is_rejected() {
    assert!(borrow(1000, 2500, 0, 10000).is_none());
    assert!(borrow(1000, 2500, 1, 0).is_none());
}

#[test]
fn borrow_overflow_is_rejected() {
    assert!(borrow(1, u64::MAX, u64::MAX, 10000).is_none());
    assert!(borrow(1, u64::MAX, 2, 10000).is_none());
}

#[test]
fn repay_example() {
    let o = repay(100, 1000, 1000, 10, 1).unwrap();
    assert_eq!(o.interest_accrued, 1);
    assert_eq!(o.total_due, 1001);
    assert_eq!(o.actual_repay_amount, 100);
    assert_eq!(o.remaining_due, 901);
    assert_eq!(o.collateral_release_amount, 99);
    assert!(!o.fully_repaid);
}

#[test]
fn repay_in_full_releases_all_collateral() {
    let o = repay(2000, 1000, 700, 10, 1).unwrap();
    assert_eq!(o.total_due, 1001);
    assert_eq!(o.actual_repay_amount, 1001);
    assert_eq!(o.remaining_due, 0);
    assert_eq!(o.collateral_release_amount, 700);
    assert!(o.fully_repaid);
}

#[test]
fn repay_release_never_exceeds_locked_collateral() {
    let cases: [(u64, u64, u64, u64, u16); 3] =
        [(100, 1000, 1000, 10, 1), (999, 1000, 5, 0, 0), (1, 1, 1_000_000, 1, 1)];
    for &(dep, pr, lc, sl, rate) in cases.iter() {
        let o = repay(dep, pr, lc, sl, rate).unwrap();
        assert!(o.collateral_release_amount <= lc);
        assert!(o.actual_repay_amount <= dep);
    }
}

#[test]
fn repay_zero_principal_is_rejected() {
    assert!(repay(100, 0, 1000, 10, 1).is_none());
}

#[test]
fn repay_overflow_is_rejected() {
    assert!(repay(u64::MAX, u64::MAX, u64::MAX, u64::MAX, u16::MAX).is_none());
}
