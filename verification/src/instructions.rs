//! Instruction payloads: the discriminant-tagged binary surface of the two
//! settlement programs.
//!
//! A payload is one discriminant byte followed by the variant's fields in
//! layout order. Decoding is strict — a wrong length, an unknown
//! discriminant, or an empty payload is a typed `DeserializationError` — so a
//! malformed message can never abort the host process.

use crate::codec::{
    push_bytes32, push_u16_le, push_u32_le, read_bytes32, read_u16_le, read_u32_le, spec_u16_le,
    spec_u32_le, u16_of_le, u32_of_le,
};
use crate::errors::SettlementError;
use crate::state::Ciphertext;
use vstd::prelude::*;

verus! {

broadcast use vstd::array::group_array_axioms;

/// The lending program's instruction surface.
#[derive(Clone, Copy, Debug, PartialEq, Eq)]
pub enum LendingInstruction {
    /// Create the lender's pool record and asset vault.
    InitializeLendingPool { interest_rate_bps: u16, loan_to_value_bps: u16, collateral_threshold_bps: u16 },
    /// Create a loan record and its vaults for a (lender, borrower) pair.
    InitializeLoan,
    /// Phase one of a borrow settlement.
    Borrow { computation_offset: u32, transfer_id: u32 },
    /// Phase two of a borrow settlement.
    BorrowCallback,
    /// Phase one of a repay settlement.
    Repay { computation_offset: u32, transfer_id: u32 },
    /// Phase two of a repay settlement.
    RepayCallback,
}

impl LendingInstruction {
    /// The exact bytes of this instruction's payload.
    pub open spec fn spec_encode(self) -> Seq<u8> {
        match self {
            LendingInstruction::InitializeLendingPool {
                interest_rate_bps,
                loan_to_value_bps,
                collateral_threshold_bps,
            } => seq![0u8] + spec_u16_le(interest_rate_bps) + spec_u16_le(loan_to_value_bps)
                + spec_u16_le(collateral_threshold_bps),
            LendingInstruction::InitializeLoan => seq![1u8],
            LendingInstruction::Borrow { computation_offset, transfer_id } => seq![2u8]
                + spec_u32_le(computation_offset) + spec_u32_le(transfer_id),
            LendingInstruction::BorrowCallback => seq![3u8],
            LendingInstruction::Repay { computation_offset, transfer_id } => seq![4u8]
                + spec_u32_le(computation_offset) + spec_u32_le(transfer_id),
            LendingInstruction::RepayCallback => seq![5u8],
        }
    }

    /// The byte strings that decode: a known discriminant with the exact
    /// payload length of its variant.
    pub open spec fn bytes_well_formed(d: Seq<u8>) -> bool {
        d.len() >= 1 && ((d[0] == 0 && d.len() == 7) || (d[0] == 1 && d.len() == 1) || (d[0] == 2
            && d.len() == 9) || (d[0] == 3 && d.len() == 1) || (d[0] == 4 && d.len() == 9) || (
        d[0] == 5 && d.len() == 1))
    }

    /// Serializes the payload.
    pub fn encode(&self) -> (r: Vec<u8>)
        ensures
            r@ == self.spec_encode(),
    {
        let mut out: Vec<u8> = Vec::new();
        match self {
            LendingInstruction::InitializeLendingPool {
                interest_rate_bps,
                loan_to_value_bps,
                collateral_threshold_bps,
            } => {
                out.push(0u8);
                push_u16_le(&mut out, *interest_rate_bps);
                push_u16_le(&mut out, *loan_to_value_bps);
                push_u16_le(&mut out, *collateral_threshold_bps);
            },
            LendingInstruction::InitializeLoan => {
                out.push(1u8);
            },
            LendingInstruction::Borrow { computation_offset, transfer_id } => {
                out.push(2u8);
                push_u32_le(&mut out, *computation_offset);
                push_u32_le(&mut out, *transfer_id);
            },
            LendingInstruction::BorrowCallback => {
                out.push(3u8);
            },
            LendingInstruction::Repay { computation_offset, transfer_id } => {
                out.push(4u8);
                push_u32_le(&mut out, *computation_offset);
                push_u32_le(&mut out, *transfer_id);
            },
            LendingInstruction::RepayCallback => {
                out.push(5u8);
            },
        }
        proof {
            assert(out@ =~= self.spec_encode());
        }
        out
    }

    /// Parses a payload. Succeeds exactly on well-formed byte strings and
    /// returns the instruction whose encoding is the input.
    pub fn decode(data: &[u8]) -> (r: Result<LendingInstruction, SettlementError>)
        ensures
            r is Ok <==> Self::bytes_well_formed(data@),
            r matches Ok(ix) ==> data@ == ix.spec_encode(),
            r is Err ==> r == Err::<LendingInstruction, SettlementError>(
                SettlementError::DeserializationError,
            ),
    {
        let n = data.len();
        if n == 0 {
            return Err(SettlementError::DeserializationError);
        }
        let tag = data[0];
        if tag == 0 && n == 7 {
            let interest_rate_bps = read_u16_le(data, 1);
            let loan_to_value_bps = read_u16_le(data, 3);
            let collateral_threshold_bps = read_u16_le(data, 5);
            let ix = LendingInstruction::InitializeLendingPool {
                interest_rate_bps,
                loan_to_value_bps,
                collateral_threshold_bps,
            };
            proof {
                lemma_u16_le_of_value(data@.subrange(1, 3));
                lemma_u16_le_of_value(data@.subrange(3, 5));
                lemma_u16_le_of_value(data@.subrange(5, 7));
                assert(data@ =~= ix.spec_encode());
            }
            Ok(ix)
        } else if tag == 1 && n == 1 {
            let ix = LendingInstruction::InitializeLoan;
            proof {
                assert(data@ =~= ix.spec_encode());
            }
            Ok(ix)
        } else if tag == 2 && n == 9 {
            let computation_offset = read_u32_le(data, 1);
            let transfer_id = read_u32_le(data, 5);
            let ix = LendingInstruction::Borrow { computation_offset, transfer_id };
            proof {
                lemma_u32_le_of_value(data@.subrange(1, 5));
                lemma_u32_le_of_value(data@.subrange(5, 9));
                assert(data@ =~= ix.spec_encode());
            }
            Ok(ix)
        } else if tag == 3 && n == 1 {
            let ix = LendingInstruction::BorrowCallback;
            proof {
                assert(data@ =~= ix.spec_encode());
            }
            Ok(ix)
        } else if tag == 4 && n == 9 {
            let computation_offset = read_u32_le(data, 1);
            let transfer_id = read_u32_le(data, 5);
            let ix = LendingInstruction::Repay { computation_offset, transfer_id };
            proof {
                lemma_u32_le_of_value(data@.subrange(1, 5));
                lemma_u32_le_of_value(data@.subrange(5, 9));
                assert(data@ =~= ix.spec_encode());
            }
            Ok(ix)
        } else if tag == 5 && n == 1 {
            let ix = LendingInstruction::RepayCallback;
            proof {
                assert(data@ =~= ix.spec_encode());
            }
            Ok(ix)
        } else {
            Err(SettlementError::DeserializationError)
        }
    }
}

/// The payroll program's instruction surface.
#[derive(Clone, Copy, Debug, PartialEq, Eq)]
pub enum PayrollInstruction {
    /// Create the employer's payroll record and token vault.
    Initialize,
    /// Append an employee with an encrypted salary.
    AddEmployee { employee: [u8; 32], encrypted_salary: Ciphertext },
    /// Phase one of a salary claim.
    ClaimSalary { computation_offset: u32, transfer_id: u32 },
    /// Phase two of a salary claim.
    ClaimSalaryCallback,
}

impl PayrollInstruction {
    /// The exact bytes of this instruction's payload.
    pub open spec fn spec_encode(self) -> Seq<u8> {
        match self {
            PayrollInstruction::Initialize => seq![0u8],
            PayrollInstruction::AddEmployee { employee, encrypted_salary } => seq![1u8] + employee@
                + encrypted_salary.bytes@,
            PayrollInstruction::ClaimSalary { computation_offset, transfer_id } => seq![2u8]
                + spec_u32_le(computation_offset) + spec_u32_le(transfer_id),
            PayrollInstruction::ClaimSalaryCallback => seq![3u8],
        }
    }

    /// The byte strings that decode: a known discriminant with the exact
    /// payload length of its variant.
    pub open spec fn bytes_well_formed(d: Seq<u8>) -> bool {
        d.len() >= 1 && ((d[0] == 0 && d.len() == 1) || (d[0] == 1 && d.len() == 65) || (d[0] == 2
            && d.len() == 9) || (d[0] == 3 && d.len() == 1))
    }

    /// Serializes the payload.
    pub fn encode(&self) -> (r: Vec<u8>)
        ensures
            r@ == self.spec_encode(),
    {
        let mut out: Vec<u8> = Vec::new();
        match self {
            PayrollInstruction::Initialize => {
                out.push(0u8);
            },
            PayrollInstruction::AddEmployee { employee, encrypted_salary } => {
                out.push(1u8);
                push_bytes32(&mut out, employee);
                push_bytes32(&mut out, &encrypted_salary.bytes);
            },
            PayrollInstruction::ClaimSalary { computation_offset, transfer_id } => {
                out.push(2u8);
                push_u32_le(&mut out, *computation_offset);
                push_u32_le(&mut out, *transfer_id);
            },
            PayrollInstruction::ClaimSalaryCallback => {
                out.push(3u8);
            },
        }
        proof {
            assert(out@ =~= self.spec_encode());
        }
        out
    }

    /// Parses a payload. Succeeds exactly on well-formed byte strings and
    /// returns the instruction whose encoding is the input.
    pub fn decode(data: &[u8]) -> (r: Result<PayrollInstruction, SettlementError>)
        ensures
            r is Ok <==> Self::bytes_well_formed(data@),
            r matches Ok(ix) ==> data@ == ix.spec_encode(),
            r is Err ==> r == Err::<PayrollInstruction, SettlementError>(
                SettlementError::DeserializationError,
            ),
    {
        let n = data.len();
        if n == 0 {
            return Err(SettlementError::DeserializationError);
        }
        let tag = data[0];
        if tag == 0 && n == 1 {
            let ix = PayrollInstruction::Initialize;
            proof {
                assert(data@ =~= ix.spec_encode());
            }
            Ok(ix)
        } else if tag == 1 && n == 65 {
            let employee = read_bytes32(data, 1);
            let encrypted_salary = Ciphertext { bytes: read_bytes32(data, 33) };
            let ix = PayrollInstruction::AddEmployee { employee, encrypted_salary };
            proof {
                assert(data@ =~= ix.spec_encode());
            }
            Ok(ix)
        } else if tag == 2 && n == 9 {
            let computation_offset = read_u32_le(data, 1);
            let transfer_id = read_u32_le(data, 5);
            let ix = PayrollInstruction::ClaimSalary { computation_offset, transfer_id };
            proof {
                lemma_u32_le_of_value(data@.subrange(1, 5));
                lemma_u32_le_of_value(data@.subrange(5, 9));
                assert(data@ =~= ix.spec_encode());
            }
            Ok(ix)
        } else if tag == 3 && n == 1 {
            let ix = PayrollInstruction::ClaimSalaryCallback;
            proof {
                assert(data@ =~= ix.spec_encode());
            }
            Ok(ix)
        } else {
            Err(SettlementError::DeserializationError)
        }
    }
}

/// Re-encoding the value of two little-endian bytes gives the bytes back.
proof fn lemma_u16_le_of_value(s: Seq<u8>)
    requires
        s.len() == 2,
    ensures
        spec_u16_le(u16_of_le(s) as u16) =~= s,
{
    let v = u16_of_le(s);
    assert(0 <= v < 0x1_0000);
    assert(v % 0x100 == s[0]);
    assert((v / 0x100) % 0x100 == s[1]);
}

/// Re-encoding the value of four little-endian bytes gives the bytes back.
proof fn lemma_u32_le_of_value(s: Seq<u8>)
    requires
        s.len() == 4,
    ensures
        spec_u32_le(u32_of_le(s) as u32) =~= s,
{
    let v = u32_of_le(s);
    assert(0 <= v < 0x1_0000_0000);
    assert(v % 0x100 == s[0]);
    assert((v / 0x100) % 0x100 == s[1]);
    assert((v / 0x1_0000) % 0x100 == s[2]);
    assert((v / 0x100_0000) % 0x100 == s[3]);
}

} // verus!
