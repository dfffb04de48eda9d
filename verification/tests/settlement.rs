use confidential_settlement::addresses::{lending_pool_pda, loan_pda, payroll_pda};
use confidential_settlement::codec::{encode_lending_pool, encode_loan, encode_payroll};
use confidential_settlement::errors::SettlementError;
use confidential_settlement::lending::{
    process_borrow, process_borrow_callback, process_initialize_lending_pool,
    process_initialize_loan, process_repay, process_repay_callback, LoanCallbackOutcome,
};
use confidential_settlement::payroll::{
    process_add_employee, process_claim_salary, process_claim_salary_callback,
    process_initialize,
};
use confidential_settlement::registry::{SettlementRegistry, SettlementStatus};
use confidential_settlement::state::Ciphertext;

fn key(b: u8) -> [u8; 32] {
    [b; 32]
}

const PROGRAM_ID: [u8; 32] = [0xAA; 32];
const SYSTEM_OWNER: [u8; 32] = [0; 32];

#[test]
fn derivations_match_the_ledger_scheme() {
    let lender = key(1);
    let borrower = key(2);
    let employer = key(3);
    let pid = solana_program::pubkey::Pubkey::new_from_array(PROGRAM_ID);

    let (pool, pool_bump) = lending_pool_pda(&lender, &PROGRAM_ID).unwrap();
    let expected =
        solana_program::pubkey::Pubkey::find_program_address(&[b"lending_pool", &lender], &pid);
    assert_eq!(pool, expected.0.to_bytes());
    assert_eq!(pool_bump, expected.1);

    let (loan, loan_bump) = loan_pda(&lender, &borrower, &PROGRAM_ID).unwrap();
    let expected =
        solana_program::pubkey::Pubkey::find_program_address(&[b"loan", &lender, &borrower], &pid);
    assert_eq!(loan, expected.0.to_bytes());
    assert_eq!(loan_bump, expected.1);

    let (payroll, payroll_bump) = payroll_pda(&employer, &PROGRAM_ID).unwrap();
    let expected =
        solana_program::pubkey::Pubkey::find_program_address(&[b"payroll", &employer], &pid);
    assert_eq!(payroll, expected.0.to_bytes());
    assert_eq!(payroll_bump, expected.1);
}

#[test]
fn borrow_settlement_flow_applies_once() {
    let lender = key(1);
    let borrower = key(2);
    let asset_mint = key(3);
    let collateral_mint = key(4);
    let vault = key(5);
    let collateral_vault = key(6);
    let repay_account = key(8);

    let (pool_addr, _) = lending_pool_pda(&lender, &PROGRAM_ID).unwrap();
    let init = process_initialize_lending_pool(
        true, &lender, &asset_mint, &collateral_mint, 1, 10000, 1, &PROGRAM_ID, &pool_addr,
        &SYSTEM_OWNER, &vault, &vault,
    )
    .unwrap();
    assert_eq!(init.pool_address, pool_addr);
    let pool_data = encode_lending_pool(&init.pool);

    let (loan_addr, _) = loan_pda(&lender, &borrower, &PROGRAM_ID).unwrap();
    let li = process_initialize_loan(
        true, &lender, &borrower, &PROGRAM_ID, &pool_addr, &PROGRAM_ID, &vault, &vault,
        &loan_addr, &collateral_vault, &collateral_vault, &repay_account, &repay_account,
        &pool_data,
    )
    .unwrap();
    assert_eq!(li.pool.borrowers.len(), 1);
    assert_eq!(li.pool.borrowers[0], borrower);
    assert!(!li.loan.active);
    let pool_data = encode_lending_pool(&li.pool);
    let loan_data = encode_loan(&li.loan);

    let mut registry = SettlementRegistry::new();
    let req = process_borrow(
        true, &lender, &borrower, &PROGRAM_ID, &pool_addr, &PROGRAM_ID, &loan_addr, &vault,
        &vault, &collateral_vault, &collateral_vault, &key(10), &key(11), &asset_mint,
        &collateral_mint, &pool_data, 1, 42, &mut registry,
    )
    .unwrap();
    assert_eq!(req.price, 1);
    assert_eq!(req.loan_to_value_bps, 10000);
    assert_eq!(req.asset_leg.source, vault);
    assert_eq!(req.asset_leg.destination, key(10));
    assert_eq!(registry.status_of(42), Some(SettlementStatus::Requested));

    let output = vec![9u8; 32];
    let outcome = process_borrow_callback(
        &lender, &borrower, &PROGRAM_ID, &loan_addr, &loan_data, Some(&output), 42, &mut registry,
    )
    .unwrap();
    let updated = match outcome {
        LoanCallbackOutcome::Applied(l) => l,
        LoanCallbackOutcome::AlreadySettled => panic!("first callback must apply"),
    };
    assert_eq!(updated.encrypted_principal.bytes, [9u8; 32]);
    assert!(!updated.active);
    assert_eq!(registry.status_of(42), Some(SettlementStatus::Fulfilled));

    let second = process_borrow_callback(
        &lender, &borrower, &PROGRAM_ID, &loan_addr, &loan_data, Some(&output), 42, &mut registry,
    )
    .unwrap();
    assert!(matches!(second, LoanCallbackOutcome::AlreadySettled));
    assert_eq!(registry.status_of(42), Some(SettlementStatus::Fulfilled));
}

#[test]
fn borrow_callback_reports_missing_output() {
    let lender = key(1);
    let borrower = key(2);
    let (loan_addr, _) = loan_pda(&lender, &borrower, &PROGRAM_ID).unwrap();
    let loan_data = encode_loan(&confidential_settlement::state::Loan::new(&borrower, &key(7)));
    let mut registry = SettlementRegistry::new();
    let err = process_borrow_callback(
        &lender, &borrower, &PROGRAM_ID, &loan_addr, &loan_data, None, 42, &mut registry,
    )
    .unwrap_err();
    assert_eq!(err, SettlementError::ComputationOutputMissing);
    let short = vec![1u8; 31];
    let err = process_borrow_callback(
        &lender, &borrower, &PROGRAM_ID, &loan_addr, &loan_data, Some(&short), 42, &mut registry,
    )
    .unwrap_err();
    assert_eq!(err, SettlementError::DeserializationError);
}

#[test]
fn repay_settlement_flow() {
    let lender = key(1);
    let borrower = key(2);
    let asset_mint = key(3);
    let collateral_mint = key(4);
    let collateral_vault = key(6);
    let repay_account = key(8);

    let (pool_addr, _) = lending_pool_pda(&lender, &PROGRAM_ID).unwrap();
    let (loan_addr, _) = loan_pda(&lender, &borrower, &PROGRAM_ID).unwrap();
    let mut pool = confidential_settlement::state::LendingPool::new(
        &lender,
        &asset_mint,
        &collateral_mint,
        1,
        10000,
        1,
    );
    pool.add_borrower(&borrower).unwrap();
    let pool_data = encode_lending_pool(&pool);
    let loan = confidential_settlement::state::Loan {
        borrower,
        lending_pool: pool_addr,
        active: false,
        encrypted_principal: Ciphertext { bytes: key(9) },
        encrypted_collateral: Ciphertext { bytes: key(0) },
        last_update_slot: 0,
    };
    let loan_data = encode_loan(&loan);

    let mut registry = SettlementRegistry::new();
    let req = process_repay(
        true, &lender, &borrower, &PROGRAM_ID, &pool_addr, &PROGRAM_ID, &loan_addr,
        &repay_account, &repay_account, &collateral_vault, &collateral_vault, &key(12), &key(11),
        &asset_mint, &collateral_mint, &pool_data, &loan_data, 2, 43, &mut registry,
    )
    .unwrap();
    assert_eq!(req.encrypted_principal.bytes, key(9));
    assert_eq!(req.interest_rate_bps, 1);
    assert_eq!(req.slots_elapsed, 10);
    assert_eq!(req.asset_leg.source, repay_account);
    assert_eq!(req.asset_leg.destination, key(12));

    // Partial repayment: the revealed flag is off, so the loan stays active.
    let mut output = vec![7u8; 32];
    output.push(0);
    let outcome = process_repay_callback(
        &lender, &borrower, &PROGRAM_ID, &loan_addr, &loan_data, Some(&output), 43, &mut registry,
    )
    .unwrap();
    let updated = match outcome {
        LoanCallbackOutcome::Applied(l) => l,
        LoanCallbackOutcome::AlreadySettled => panic!("first callback must apply"),
    };
    assert!(updated.active);
    assert_eq!(updated.encrypted_principal.bytes, [7u8; 32]);

    // Full repayment under a fresh correlation id: the flag closes the loan.
    let req2 = process_repay(
        true, &lender, &borrower, &PROGRAM_ID, &pool_addr, &PROGRAM_ID, &loan_addr,
        &repay_account, &repay_account, &collateral_vault, &collateral_vault, &key(12), &key(11),
        &asset_mint, &collateral_mint, &pool_data, &loan_data, 3, 44, &mut registry,
    )
    .unwrap();
    assert_eq!(req2.transfer_id, 44);
    let mut output = vec![0u8; 32];
    output.push(1);
    let outcome = process_repay_callback(
        &lender, &borrower, &PROGRAM_ID, &loan_addr, &loan_data, Some(&output), 44, &mut registry,
    )
    .unwrap();
    let closed = match outcome {
        LoanCallbackOutcome::Applied(l) => l,
        LoanCallbackOutcome::AlreadySettled => panic!("first callback must apply"),
    };
    assert!(!closed.active);
    assert_eq!(closed.encrypted_principal.bytes, [0u8; 32]);

    // A malformed revealed flag is a typed decoding error.
    let mut bad = vec![0u8; 32];
    bad.push(2);
    let err = process_repay_callback(
        &lender, &borrower, &PROGRAM_ID, &loan_addr, &loan_data, Some(&bad), 45, &mut registry,
    )
    .unwrap_err();
    assert_eq!(err, SettlementError::DeserializationError);
}

#[test]
fn address_mismatch_rejects_without_state_change() {
    let lender = key(1);
    let borrower = key(2);
    let wrong = key(99);
    let pool = confidential_settlement::state::LendingPool::new(&lender, &key(3), &key(4), 1, 10000, 1);
    let pool_data = encode_lending_pool(&pool);

    let mut registry = SettlementRegistry::new();
    let err = process_borrow(
        true, &lender, &borrower, &PROGRAM_ID, &wrong, &PROGRAM_ID, &wrong, &key(5), &key(5),
        &key(6), &key(6), &key(10), &key(11), &key(3), &key(4), &pool_data, 1, 42, &mut registry,
    )
    .unwrap_err();
    assert_eq!(err, SettlementError::AddressMismatch);
    assert_eq!(registry.status_of(42), None);

    let (loan_addr, _) = loan_pda(&lender, &borrower, &PROGRAM_ID).unwrap();
    let loan_data = encode_loan(&confidential_settlement::state::Loan::new(&borrower, &key(7)));
    let err = process_borrow_callback(
        &lender, &borrower, &PROGRAM_ID, &wrong, &loan_data, Some(&vec![0u8; 32]), 42,
        &mut registry,
    )
    .unwrap_err();
    assert_eq!(err, SettlementError::AddressMismatch);
    assert_eq!(registry.status_of(42), None);

    // A declared vault differing from the collaborator's derivation is also
    // rejected before anything is registered.
    let (pool_addr, _) = lending_pool_pda(&lender, &PROGRAM_ID).unwrap();
    let err = process_borrow(
        true, &lender, &borrower, &PROGRAM_ID, &pool_addr, &PROGRAM_ID, &loan_addr, &key(5),
        &key(50), &key(6), &key(6), &key(10), &key(11), &key(3), &key(4), &pool_data, 1, 42,
        &mut registry,
    )
    .unwrap_err();
    assert_eq!(err, SettlementError::AddressMismatch);
    assert_eq!(registry.status_of(42), None);
}

#[test]
fn missing_signature_is_an_authorization_error() {
    let lender = key(1);
    let (pool_addr, _) = lending_pool_pda(&lender, &PROGRAM_ID).unwrap();
    let err = process_initialize_lending_pool(
        false, &lender, &key(3), &key(4), 1, 10000, 1, &PROGRAM_ID, &pool_addr, &SYSTEM_OWNER,
        &key(5), &key(5),
    )
    .unwrap_err();
    assert_eq!(err, SettlementError::AuthorizationError);
}

#[test]
fn ninth_borrower_is_rejected_with_record_unchanged() {
    let lender = key(1);
    let borrower = key(2);
    let mut pool = confidential_settlement::state::LendingPool::new(&lender, &key(3), &key(4), 1, 10000, 1);
    for i in 0..8u8 {
        pool.add_borrower(&key(20 + i)).unwrap();
    }
    let pool_data = encode_lending_pool(&pool);
    let (pool_addr, _) = lending_pool_pda(&lender, &PROGRAM_ID).unwrap();
    let (loan_addr, _) = loan_pda(&lender, &borrower, &PROGRAM_ID).unwrap();
    let err = process_initialize_loan(
        true, &lender, &borrower, &PROGRAM_ID, &pool_addr, &PROGRAM_ID, &key(5), &key(5),
        &loan_addr, &key(6), &key(6), &key(8), &key(8), &pool_data,
    )
    .unwrap_err();
    assert_eq!(err, SettlementError::CapacityExceeded);
}

#[test]
fn claim_salary_flow_and_throttle() {
    let employer = key(1);
    let employee = key(2);
    let mint = key(3);
    let token_account = key(5);
    let employee_account = key(10);

    let (payroll_addr, _) = payroll_pda(&employer, &PROGRAM_ID).unwrap();
    let pi = process_initialize(
        true, &employer, &mint, &PROGRAM_ID, &payroll_addr, &token_account, &token_account,
    )
    .unwrap();
    let data = encode_payroll(&pi.payroll);

    let with_employee =
        process_add_employee(true, &employer, &data, &employee, Ciphertext { bytes: key(9) })
            .unwrap();
    assert_eq!(with_employee.employees.len(), 1);
    let data = encode_payroll(&with_employee);

    let mut registry = SettlementRegistry::new();
    let out = process_claim_salary(
        true, &employee, &employee_account, &employer, &PROGRAM_ID, &payroll_addr, &mint,
        &token_account, &token_account, &data, 100, 1, 0, &mut registry,
    )
    .unwrap();
    assert_eq!(out.employee_index, 0);
    assert_eq!(out.request.encrypted_amount.bytes, key(9));
    assert_eq!(out.request.source, token_account);
    assert_eq!(out.request.destination, employee_account);
    assert_eq!(out.payroll.employees[0].last_claimed_slot, 100);
    assert_eq!(out.payroll.employees[0].previous_claimed_slot, 0);
    assert_eq!(registry.status_of(0), Some(SettlementStatus::Requested));

    // A second claim in the same time unit is throttled and changes nothing.
    let data2 = encode_payroll(&out.payroll);
    let err = process_claim_salary(
        true, &employee, &employee_account, &employer, &PROGRAM_ID, &payroll_addr, &mint,
        &token_account, &token_account, &data2, 100, 2, 1, &mut registry,
    )
    .unwrap_err();
    assert_eq!(err, SettlementError::AlreadyClaimedThisPeriod);
    assert_eq!(registry.status_of(1), None);

    // The next time unit is claimable again.
    let later = process_claim_salary(
        true, &employee, &employee_account, &employer, &PROGRAM_ID, &payroll_addr, &mint,
        &token_account, &token_account, &data2, 101, 3, 2, &mut registry,
    )
    .unwrap();
    assert_eq!(later.payroll.employees[0].last_claimed_slot, 101);
    assert_eq!(later.payroll.employees[0].previous_claimed_slot, 100);

    // The callback consumes the result exactly once and leaves the record
    // untouched whatever the transfer's outcome was.
    let applied = process_claim_salary_callback(
        &employer, &PROGRAM_ID, &payroll_addr, &token_account, &token_account, Some(true), 0,
        &mut registry,
    )
    .unwrap();
    assert!(applied);
    let again = process_claim_salary_callback(
        &employer, &PROGRAM_ID, &payroll_addr, &token_account, &token_account, Some(false), 0,
        &mut registry,
    )
    .unwrap();
    assert!(!again);
}

#[test]
fn claim_rejections() {
    let employer = key(1);
    let employee = key(2);
    let stranger = key(77);
    let mint = key(3);
    let token_account = key(5);

    let (payroll_addr, _) = payroll_pda(&employer, &PROGRAM_ID).unwrap();
    let pi = process_initialize(
        true, &employer, &mint, &PROGRAM_ID, &payroll_addr, &token_account, &token_account,
    )
    .unwrap();
    let data = encode_payroll(&pi.payroll);
    let with_employee =
        process_add_employee(true, &employer, &data, &employee, Ciphertext { bytes: key(9) })
            .unwrap();
    let data = encode_payroll(&with_employee);

    let mut registry = SettlementRegistry::new();
    // An unknown claimant is not authorized.
    let err = process_claim_salary(
        true, &stranger, &key(10), &employer, &PROGRAM_ID, &payroll_addr, &mint, &token_account,
        &token_account, &data, 100, 1, 0, &mut registry,
    )
    .unwrap_err();
    assert_eq!(err, SettlementError::AuthorizationError);

    // A declared token identity differing from the record's is rejected.
    let err = process_claim_salary(
        true, &employee, &key(10), &employer, &PROGRAM_ID, &payroll_addr, &key(4), &token_account,
        &token_account, &data, 100, 1, 0, &mut registry,
    )
    .unwrap_err();
    assert_eq!(err, SettlementError::AddressMismatch);

    // Only the recorded employer may add employees.
    let err = process_add_employee(true, &stranger, &data, &key(11), Ciphertext { bytes: key(9) })
        .unwrap_err();
    assert_eq!(err, SettlementError::AuthorizationError);

    // The ninth employee exceeds the record's capacity.
    let mut grown = with_employee.clone();
    for i in 1..8u8 {
        grown.add_employee(&key(30 + i), Ciphertext { bytes: key(9) }).unwrap();
    }
    let full = encode_payroll(&grown);
    let err = process_add_employee(true, &employer, &full, &key(99), Ciphertext { bytes: key(9) })
        .unwrap_err();
    assert_eq!(err, SettlementError::CapacityExceeded);
}

#[test]
fn duplicate_employee_entries_claim_the_first() {
    let employer = key(1);
    let employee = key(2);
    let mint = key(3);
    let token_account = key(5);

    let (payroll_addr, _) = payroll_pda(&employer, &PROGRAM_ID).unwrap();
    let pi = process_initialize(
        true, &employer, &mint, &PROGRAM_ID, &payroll_addr, &token_account, &token_account,
    )
    .unwrap();
    let data = encode_payroll(&pi.payroll);
    let one = process_add_employee(true, &employer, &data, &employee, Ciphertext { bytes: key(9) })
        .unwrap();
    let data = encode_payroll(&one);
    // No duplicate check is made: the same employee can be listed twice, with
    // a different salary in the second entry.
    let two = process_add_employee(true, &employer, &data, &employee, Ciphertext { bytes: key(8) })
        .unwrap();
    assert_eq!(two.employees.len(), 2);
    let data = encode_payroll(&two);

    let mut registry = SettlementRegistry::new();
    let out = process_claim_salary(
        true, &employee, &key(10), &employer, &PROGRAM_ID, &payroll_addr, &mint, &token_account,
        &token_account, &data, 100, 1, 0, &mut registry,
    )
    .unwrap();
    assert_eq!(out.employee_index, 0);
    assert_eq!(out.request.encrypted_amount.bytes, key(9));
    assert_eq!(out.payroll.employees[0].last_claimed_slot, 100);
    assert_eq!(out.payroll.employees[1].last_claimed_slot, 0);
}
