//! State store: the fixed-capacity persisted records of the lending and
//! payroll protocols. Identities and addresses are 32 raw bytes; ciphertexts
//! are opaque 32-byte blobs embedded verbatim and never interpreted here.

use crate::bytes::{bytes32_eq, zero32, zero32_seq};
use crate::errors::SettlementError;
use vstd::prelude::*;

verus! {

broadcast use vstd::array::group_array_axioms;

/// An opaque ciphertext blob exactly as the state store embeds it. The
/// derived equality serves unverified callers; verified code reads the bytes.
#[derive(Clone, Copy, Debug, PartialEq, Eq)]
pub struct Ciphertext {
    pub bytes: [u8; 32],
}

impl Ciphertext {
    /// The ciphertext a fresh record stores before any computation wrote to
    /// it: all zero bytes.
    pub fn unset() -> (r: Ciphertext)
        ensures
            r.bytes@ =~= zero32_seq(),
    {
        Ciphertext { bytes: zero32() }
    }
}

/// Capacity of the pool's borrower list.
pub const MAX_BORROWERS: usize = 8;

/// Capacity of the payroll's employee list.
pub const MAX_EMPLOYEES: usize = 8;

/// True when `key` occurs in `s`.
pub open spec fn seq_contains_key(s: Seq<[u8; 32]>, key: [u8; 32]) -> bool {
    exists|i: int| 0 <= i < s.len() && s[i]@ == key@
}

/// A lending pool: the lender's identity, the two token identities, the
/// fixed-point terms, and the bounded, append-only borrower list.
#[derive(Clone, Debug, PartialEq, Eq)]
pub struct LendingPool {
    pub lender: [u8; 32],
    pub asset_mint: [u8; 32],
    pub collateral_mint: [u8; 32],
    pub interest_rate_bps: u16,
    pub loan_to_value_bps: u16,
    pub collateral_threshold_bps: u16,
    pub borrowers: Vec<[u8; 32]>,
}

impl LendingPool {
    /// The borrower list never outgrows its capacity.
    pub open spec fn well_formed(self) -> bool {
        self.borrowers@.len() <= MAX_BORROWERS
    }

    /// Fields other than the borrower list are equal in `self` and `other`.
    pub open spec fn same_terms(self, other: Self) -> bool {
        &&& self.lender@ == other.lender@
        &&& self.asset_mint@ == other.asset_mint@
        &&& self.collateral_mint@ == other.collateral_mint@
        &&& self.interest_rate_bps == other.interest_rate_bps
        &&& self.loan_to_value_bps == other.loan_to_value_bps
        &&& self.collateral_threshold_bps == other.collateral_threshold_bps
    }

    /// A fresh pool with the given terms and no borrowers.
    pub fn new(
        lender: &[u8; 32],
        asset_mint: &[u8; 32],
        collateral_mint: &[u8; 32],
        interest_rate_bps: u16,
        loan_to_value_bps: u16,
        collateral_threshold_bps: u16,
    ) -> (r: Self)
        ensures
            r.lender@ == lender@,
            r.asset_mint@ == asset_mint@,
            r.collateral_mint@ == collateral_mint@,
            r.interest_rate_bps == interest_rate_bps,
            r.loan_to_value_bps == loan_to_value_bps,
            r.collateral_threshold_bps == collateral_threshold_bps,
            r.borrowers@.len() == 0,
            r.well_formed(),
    {
        LendingPool {
            lender: *lender,
            asset_mint: *asset_mint,
            collateral_mint: *collateral_mint,
            interest_rate_bps,
            loan_to_value_bps,
            collateral_threshold_bps,
            borrowers: Vec::new(),
        }
    }

    /// Appends a borrower, or fails with `CapacityExceeded` when the list is
    /// full, leaving the record unchanged. No duplicate check is made.
    pub fn add_borrower(&mut self, borrower: &[u8; 32]) -> (r: Result<(), SettlementError>)
        ensures
            old(self).borrowers@.len() < MAX_BORROWERS ==> r is Ok && final(self).borrowers@
                =~= old(self).borrowers@.push(*borrower),
            old(self).borrowers@.len() >= MAX_BORROWERS ==> r == Err::<(), SettlementError>(
                SettlementError::CapacityExceeded,
            ) && final(self).borrowers@ == old(self).borrowers@,
            final(self).same_terms(*old(self)),
            old(self).well_formed() ==> final(self).well_formed(),
    {
        if self.borrowers.len() >= MAX_BORROWERS {
            return Err(SettlementError::CapacityExceeded);
        }
        self.borrowers.push(*borrower);
        Ok(())
    }

    /// Finds the first list position holding `borrower`. An unknown borrower
    /// is not entitled to act on the pool, so the miss is an
    /// `AuthorizationError`.
    pub fn find_borrower(&self, borrower: &[u8; 32]) -> (r: Result<usize, SettlementError>)
        ensures
            r is Ok <==> seq_contains_key(self.borrowers@, *borrower),
            r matches Ok(i) ==> 0 <= i < self.borrowers@.len() && self.borrowers@[i as int]@
                == borrower@ && forall|j: int| 0 <= j < i ==> self.borrowers@[j]@ != borrower@,
            r is Err ==> r == Err::<usize, SettlementError>(SettlementError::AuthorizationError),
    {
        let n = self.borrowers.len();
        let mut i: usize = 0;
        while i < n
            invariant
                0 <= i <= n,
                n == self.borrowers@.len(),
                forall|j: int| 0 <= j < i ==> self.borrowers@[j]@ != borrower@,
            decreases n - i,
        {
            if bytes32_eq(&self.borrowers[i], borrower) {
                return Ok(i);
            }
            i = i + 1;
        }
        Err(SettlementError::AuthorizationError)
    }
}

/// A loan: the borrower, the owning pool, the activity flag, the encrypted
/// principal and collateral, and the time of the last update.
#[derive(Clone, Copy, Debug, PartialEq, Eq)]
pub struct Loan {
    pub borrower: [u8; 32],
    pub lending_pool: [u8; 32],
    pub active: bool,
    pub encrypted_principal: Ciphertext,
    pub encrypted_collateral: Ciphertext,
    pub last_update_slot: u64,
}

impl Loan {
    /// A fresh loan: inactive, with both ciphertexts unset.
    pub fn new(borrower: &[u8; 32], lending_pool: &[u8; 32]) -> (r: Self)
        ensures
            r.borrower@ == borrower@,
            r.lending_pool@ == lending_pool@,
            !r.active,
            r.encrypted_principal.bytes@ =~= zero32_seq(),
            r.encrypted_collateral.bytes@ =~= zero32_seq(),
            r.last_update_slot == 0,
    {
        Loan {
            borrower: *borrower,
            lending_pool: *lending_pool,
            active: false,
            encrypted_principal: Ciphertext::unset(),
            encrypted_collateral: Ciphertext::unset(),
            last_update_slot: 0,
        }
    }
}

/// One payroll entry: the employee's identity, the encrypted salary (never
/// rewritten after the entry is added), and the two claim timestamps.
/// `previous_claimed_slot` is recorded on every claim but never read back:
/// state reserved for future proration.
#[derive(Clone, Copy, Debug, PartialEq, Eq)]
pub struct Employee {
    pub key: [u8; 32],
    pub encrypted_salary: Ciphertext,
    pub last_claimed_slot: u64,
    pub previous_claimed_slot: u64,
}

/// A payroll: the employer, the token identity, and the bounded employee list.
#[derive(Clone, Debug, PartialEq, Eq)]
pub struct Payroll {
    pub employer: [u8; 32],
    pub mint: [u8; 32],
    pub employees: Vec<Employee>,
}

/// The employee keys of a payroll's entries, in list order.
pub open spec fn employee_keys(s: Seq<Employee>) -> Seq<[u8; 32]> {
    s.map_values(|e: Employee| e.key)
}

impl Payroll {
    /// The employee list never outgrows its capacity.
    pub open spec fn well_formed(self) -> bool {
        self.employees@.len() <= MAX_EMPLOYEES
    }

    /// A fresh payroll with no employees.
    pub fn new(employer: &[u8; 32], mint: &[u8; 32]) -> (r: Self)
        ensures
            r.employer@ == employer@,
            r.mint@ == mint@,
            r.employees@.len() == 0,
            r.well_formed(),
    {
        Payroll { employer: *employer, mint: *mint, employees: Vec::new() }
    }

    /// Appends an employee with the given encrypted salary and zeroed claim
    /// timestamps, or fails with `CapacityExceeded` when the list is full,
    /// leaving the record unchanged. No duplicate check is made.
    pub fn add_employee(&mut self, employee: &[u8; 32], encrypted_salary: Ciphertext) -> (r:
        Result<(), SettlementError>)
        ensures
            old(self).employees@.len() < MAX_EMPLOYEES ==> r is Ok && final(self).employees@
                =~= old(self).employees@.push(
                Employee {
                    key: *employee,
                    encrypted_salary,
                    last_claimed_slot: 0,
                    previous_claimed_slot: 0,
                },
            ),
            old(self).employees@.len() >= MAX_EMPLOYEES ==> r == Err::<(), SettlementError>(
                SettlementError::CapacityExceeded,
            ) && final(self).employees@ == old(self).employees@,
            final(self).employer@ == old(self).employer@,
            final(self).mint@ == old(self).mint@,
            old(self).well_formed() ==> final(self).well_formed(),
    {
        if self.employees.len() >= MAX_EMPLOYEES {
            return Err(SettlementError::CapacityExceeded);
        }
        self.employees.push(
            Employee {
                key: *employee,
                encrypted_salary,
                last_claimed_slot: 0,
                previous_claimed_slot: 0,
            },
        );
        Ok(())
    }

    /// Finds the first list position whose entry belongs to `employee`. An
    /// unknown claimant is not entitled to act on the payroll, so the miss is
    /// an `AuthorizationError`.
    pub fn find_employee(&self, employee: &[u8; 32]) -> (r: Result<usize, SettlementError>)
        ensures
            r is Ok <==> seq_contains_key(employee_keys(self.employees@), *employee),
            r matches Ok(i) ==> 0 <= i < self.employees@.len() && self.employees@[i as int].key@
                == employee@ && forall|j: int|
                0 <= j < i ==> self.employees@[j].key@ != employee@,
            r is Err ==> r == Err::<usize, SettlementError>(SettlementError::AuthorizationError),
    {
        let n = self.employees.len();
        let mut i: usize = 0;
        while i < n
            invariant
                0 <= i <= n,
                n == self.employees@.len(),
                forall|j: int| 0 <= j < i ==> self.employees@[j].key@ != employee@,
            decreases n - i,
        {
            if bytes32_eq(&self.employees[i].key, employee) {
                proof {
                    assert(employee_keys(self.employees@)[i as int]
                        == self.employees@[i as int].key);
                }
                return Ok(i);
            }
            i = i + 1;
        }
        proof {
            assert(forall|j: int|
                0 <= j < self.employees@.len() ==> employee_keys(self.employees@)[j]@
                    == self.employees@[j].key@);
        }
        Err(SettlementError::AuthorizationError)
    }
}

} // verus!
