use confidential_settlement::codec::{
    decode_lending_pool, decode_loan, decode_payroll, encode_lending_pool, encode_loan,
    encode_payroll, LOAN_RECORD_LEN, PAYROLL_RECORD_LEN, POOL_RECORD_LEN,
};
use confidential_settlement::errors::SettlementError;
use confidential_settlement::instructions::{LendingInstruction, PayrollInstruction};
use confidential_settlement::state::{Ciphertext, LendingPool, Loan, Payroll};

fn key(b: u8) -> [u8; 32] {
    [b; 32]
}

#[test]
fn pool_record_round_trip() {
    let mut pool = LendingPool::new(&key(1), &key(2), &key(3), 700, 5000, 9000);
    pool.add_borrower(&key(9)).unwrap();
    pool.add_borrower(&key(10)).unwrap();
    let bytes = encode_lending_pool(&pool);
    assert_eq!(bytes.len(), POOL_RECORD_LEN);
    let back = decode_lending_pool(&bytes).unwrap();
    assert_eq!(back, pool);
}

#[test]
fn pool_record_matches_reference_layout() {
    let mut pool = LendingPool::new(&key(1), &key(2), &key(3), 700, 5000, 9000);
    pool.add_borrower(&key(9)).unwrap();
    let mut slots = [[0u8; 32]; 8];
    slots[0] = key(9);
    let reference =
        borsh::to_vec(&(key(1), key(2), key(3), 700u16, 5000u16, 9000u16, 1u8, slots)).unwrap();
    assert_eq!(encode_lending_pool(&pool), reference);
}

#[test]
fn pool_record_rejects_bad_input() {
    let pool = LendingPool::new(&key(1), &key(2), &key(3), 1, 2, 3);
    let bytes = encode_lending_pool(&pool);
    let truncated = &bytes[..bytes.len() - 1];
    assert_eq!(decode_lending_pool(truncated), Err(SettlementError::DeserializationError));
    let mut overfull = bytes.clone();
    overfull[102] = 9;
    assert_eq!(decode_lending_pool(&overfull), Err(SettlementError::DeserializationError));
}

#[test]
fn loan_record_round_trip() {
    let loan = Loan {
        borrower: key(4),
        lending_pool: key(5),
        active: true,
        encrypted_principal: Ciphertext { bytes: key(6) },
        encrypted_collateral: Ciphertext { bytes: key(7) },
        last_update_slot: 123_456_789_012,
    };
    let bytes = encode_loan(&loan);
    assert_eq!(bytes.len(), LOAN_RECORD_LEN);
    assert_eq!(decode_loan(&bytes).unwrap(), loan);
}

#[test]
fn loan_record_matches_reference_layout() {
    let loan = Loan {
        borrower: key(4),
        lending_pool: key(5),
        active: true,
        encrypted_principal: Ciphertext { bytes: key(6) },
        encrypted_collateral: Ciphertext { bytes: key(7) },
        last_update_slot: 123_456_789_012,
    };
    let reference =
        borsh::to_vec(&(key(4), key(5), true, key(6), key(7), 123_456_789_012u64)).unwrap();
    assert_eq!(encode_loan(&loan), reference);
}

#[test]
fn loan_record_rejects_bad_activity_byte() {
    let loan = Loan {
        borrower: key(4),
        lending_pool: key(5),
        active: false,
        encrypted_principal: Ciphertext { bytes: key(6) },
        encrypted_collateral: Ciphertext { bytes: key(7) },
        last_update_slot: 0,
    };
    let mut bytes = encode_loan(&loan);
    bytes[64] = 2;
    assert_eq!(decode_loan(&bytes), Err(SettlementError::DeserializationError));
}

#[test]
fn payroll_record_round_trip() {
    let mut payroll = Payroll::new(&key(1), &key(2));
    payroll.add_employee(&key(3), Ciphertext { bytes: key(4) }).unwrap();
    let bytes = encode_payroll(&payroll);
    assert_eq!(bytes.len(), PAYROLL_RECORD_LEN);
    assert_eq!(decode_payroll(&bytes).unwrap(), payroll);
}

#[test]
fn payroll_record_matches_reference_layout() {
    let mut payroll = Payroll::new(&key(1), &key(2));
    payroll.add_employee(&key(3), Ciphertext { bytes: key(4) }).unwrap();
    let mut entries = [([0u8; 32], [0u8; 32], 0u64, 0u64); 8];
    entries[0] = (key(3), key(4), 0, 0);
    let reference = borsh::to_vec(&(key(1), key(2), 1u8, entries)).unwrap();
    assert_eq!(encode_payroll(&payroll), reference);
}

#[test]
fn lending_instruction_round_trips() {
    let cases = vec![
        LendingInstruction::InitializeLendingPool {
            interest_rate_bps: 700,
            loan_to_value_bps: 5000,
            collateral_threshold_bps: 9000,
        },
        LendingInstruction::InitializeLoan,
        LendingInstruction::Borrow { computation_offset: 7, transfer_id: 9 },
        LendingInstruction::BorrowCallback,
        LendingInstruction::Repay { computation_offset: 70_000, transfer_id: 90_000 },
        LendingInstruction::RepayCallback,
    ];
    for ix in cases {
        let bytes = ix.encode();
        assert_eq!(LendingInstruction::decode(&bytes).unwrap(), ix);
    }
}

#[test]
fn lending_instruction_matches_reference_layout() {
    let ix = LendingInstruction::Borrow { computation_offset: 7, transfer_id: 9 };
    assert_eq!(ix.encode(), borsh::to_vec(&(2u8, 7u32, 9u32)).unwrap());
    let ix = LendingInstruction::InitializeLendingPool {
        interest_rate_bps: 700,
        loan_to_value_bps: 5000,
        collateral_threshold_bps: 9000,
    };
    assert_eq!(ix.encode(), borsh::to_vec(&(0u8, 700u16, 5000u16, 9000u16)).unwrap());
}

#[test]
fn lending_instruction_rejects_malformed_payloads() {
    assert_eq!(LendingInstruction::decode(&[]), Err(SettlementError::DeserializationError));
    assert_eq!(LendingInstruction::decode(&[6]), Err(SettlementError::DeserializationError));
    assert_eq!(LendingInstruction::decode(&[2, 1, 2]), Err(SettlementError::DeserializationError));
    assert_eq!(
        LendingInstruction::decode(&[1, 0]),
        Err(SettlementError::DeserializationError)
    );
}

#[test]
fn payroll_instruction_round_trips() {
    let cases = vec![
        PayrollInstruction::Initialize,
        PayrollInstruction::AddEmployee {
            employee: key(3),
            encrypted_salary: Ciphertext { bytes: key(4) },
        },
        PayrollInstruction::ClaimSalary { computation_offset: 5, transfer_id: 6 },
        PayrollInstruction::ClaimSalaryCallback,
    ];
    for ix in cases {
        let bytes = ix.encode();
        assert_eq!(PayrollInstruction::decode(&bytes).unwrap(), ix);
    }
}

#[test]
fn payroll_instruction_matches_reference_layout() {
    let ix = PayrollInstruction::AddEmployee {
        employee: key(3),
        encrypted_salary: Ciphertext { bytes: key(4) },
    };
    assert_eq!(ix.encode(), borsh::to_vec(&(1u8, key(3), key(4))).unwrap());
}

#[test]
fn payroll_instruction_rejects_malformed_payloads() {
    assert_eq!(PayrollInstruction::decode(&[]), Err(SettlementError::DeserializationError));
    assert_eq!(PayrollInstruction::decode(&[4]), Err(SettlementError::DeserializationError));
    assert_eq!(
        PayrollInstruction::decode(&[1, 0, 0]),
        Err(SettlementError::DeserializationError)
    );
}
