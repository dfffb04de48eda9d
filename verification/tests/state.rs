use confidential_settlement::errors::SettlementError;
use confidential_settlement::state::{Ciphertext, LendingPool, Payroll};

fn key(b: u8) -> [u8; 32] {
    [b; 32]
}

#[test]
fn pool_capacity_bound() {
    let mut pool = LendingPool::new(&key(1), &key(2), &key(3), 1, 10000, 1);
    for i in 0..8u8 {
        pool.add_borrower(&key(10 + i)).unwrap();
    }
    let before = pool.clone();
    assert_eq!(pool.add_borrower(&key(99)), Err(SettlementError::CapacityExceeded));
    assert_eq!(pool, before);
    assert_eq!(pool.borrowers.len(), 8);
}

#[test]
fn pool_allows_duplicate_borrowers() {
    let mut pool = LendingPool::new(&key(1), &key(2), &key(3), 1, 10000, 1);
    pool.add_borrower(&key(9)).unwrap();
    pool.add_borrower(&key(9)).unwrap();
    assert_eq!(pool.borrowers.len(), 2);
}

#[test]
fn find_borrower_scans_in_order() {
    let mut pool = LendingPool::new(&key(1), &key(2), &key(3), 1, 10000, 1);
    pool.add_borrower(&key(9)).unwrap();
    pool.add_borrower(&key(10)).unwrap();
    assert_eq!(pool.find_borrower(&key(9)), Ok(0));
    assert_eq!(pool.find_borrower(&key(10)), Ok(1));
    assert_eq!(pool.find_borrower(&key(11)), Err(SettlementError::AuthorizationError));
}

#[test]
fn payroll_capacity_bound() {
    let mut payroll = Payroll::new(&key(1), &key(2));
    for i in 0..8u8 {
        payroll.add_employee(&key(10 + i), Ciphertext { bytes: key(50 + i) }).unwrap();
    }
    let before = payroll.clone();
    assert_eq!(
        payroll.add_employee(&key(99), Ciphertext { bytes: key(99) }),
        Err(SettlementError::CapacityExceeded)
    );
    assert_eq!(payroll, before);
    assert_eq!(payroll.employees.len(), 8);
}

#[test]
fn find_employee_scans_in_order() {
    let mut payroll = Payroll::new(&key(1), &key(2));
    payroll.add_employee(&key(9), Ciphertext { bytes: key(40) }).unwrap();
    payroll.add_employee(&key(10), Ciphertext { bytes: key(41) }).unwrap();
    assert_eq!(payroll.find_employee(&key(10)), Ok(1));
    assert_eq!(payroll.find_employee(&key(11)), Err(SettlementError::AuthorizationError));
    let entry = payroll.employees[payroll.find_employee(&key(9)).unwrap()];
    assert_eq!(entry.encrypted_salary.bytes, key(40));
    assert_eq!(entry.last_claimed_slot, 0);
    assert_eq!(entry.previous_claimed_slot, 0);
}
