//! Settlement orchestrator and callback handler for the payroll protocol.
//!
//! A salary claim is two-phased like a loan settlement: phase one validates
//! the claimant, throttles repeated claims within one time unit, advances the
//! claim timestamps optimistically, and submits the transfer of the stored
//! encrypted salary; phase two merely consumes the transfer result. By the
//! protocol's documented best-effort design, the callback leaves the payroll
//! record untouched whether the transfer succeeded or failed: a failed
//! transfer costs the employee at most the current time unit, after which
//! the throttle no longer blocks a new claim.

use crate::addresses::{check_payroll, payroll_addresses_ok, spec_payroll_pda};
use crate::bytes::bytes32_eq;
use crate::codec::{
    decode_payroll, entry_matches_bytes, payroll_bytes_well_formed, u64_of_le,
};
use crate::errors::SettlementError;
use crate::registry::{
    fulfill_transition, has_id, SettlementRegistry, SettlementStatus,
};
use crate::state::{Ciphertext, Employee, Payroll, MAX_EMPLOYEES};
use vstd::prelude::*;

verus! {

broadcast use vstd::array::group_array_axioms;

/// The employee key stored in the `k`-th capacity slot of a payroll record
/// image.
pub open spec fn entry_key_bytes(d: Seq<u8>, k: int) -> Seq<u8> {
    d.subrange(65 + 80 * k, 97 + 80 * k)
}

/// The last-claimed timestamp stored in the `k`-th capacity slot of a payroll
/// record image.
pub open spec fn entry_last_claimed(d: Seq<u8>, k: int) -> int {
    u64_of_le(d.subrange(129 + 80 * k, 137 + 80 * k))
}

/// `i` is the first listed entry of the record image `d` that belongs to
/// `key`.
pub open spec fn is_first_employee(d: Seq<u8>, key: Seq<u8>, i: int) -> bool {
    &&& 0 <= i < d[64]
    &&& entry_key_bytes(d, i) == key
    &&& forall|j: int| 0 <= j < i ==> entry_key_bytes(d, j) != key
}

/// Some listed entry of the record image `d` belongs to `key`.
pub open spec fn has_employee(d: Seq<u8>, key: Seq<u8>) -> bool {
    exists|i: int| 0 <= i < d[64] && entry_key_bytes(d, i) == key
}

/// The first listed entry of `d` belonging to `key` was already claimed in
/// the time unit `slot`.
pub open spec fn claim_throttled(d: Seq<u8>, key: Seq<u8>, slot: u64) -> bool {
    exists|i: int| is_first_employee(d, key, i) && entry_last_claimed(d, i) == slot
}

/// What initializing a payroll produces: the fresh record, and the canonical
/// address and bump seed to create it under.
#[derive(Clone, Debug)]
pub struct PayrollInitialization {
    pub payroll: Payroll,
    pub payroll_address: [u8; 32],
    pub bump: u8,
}

/// Validates a payroll-initialization request and builds the fresh payroll
/// record.
pub fn process_initialize(
    employer_signed: bool,
    employer: &[u8; 32],
    mint: &[u8; 32],
    program_id: &[u8; 32],
    declared_payroll: &[u8; 32],
    declared_token_account: &[u8; 32],
    expected_token_account: &[u8; 32],
) -> (r: Result<PayrollInitialization, SettlementError>)
    ensures
        !employer_signed <==> r == Err::<PayrollInitialization, SettlementError>(
            SettlementError::AuthorizationError,
        ),
        employer_signed ==> (r is Ok <==> payroll_addresses_ok(
            spec_payroll_pda(employer@, program_id@),
            declared_payroll@,
            (declared_token_account@, expected_token_account@),
        )),
        employer_signed && r is Err ==> r == Err::<PayrollInitialization, SettlementError>(
            SettlementError::AddressMismatch,
        ),
        r matches Ok(pi) ==> ({
            &&& spec_payroll_pda(employer@, program_id@) == Some((pi.payroll_address, pi.bump))
            &&& pi.payroll.employer@ == employer@
            &&& pi.payroll.mint@ == mint@
            &&& pi.payroll.employees@.len() == 0
            &&& pi.payroll.well_formed()
        }),
{
    if !employer_signed {
        return Err(SettlementError::AuthorizationError);
    }
    let (payroll_address, bump) = match check_payroll(
        employer,
        program_id,
        declared_payroll,
        (declared_token_account, expected_token_account),
    ) {
        Ok(p) => p,
        Err(e) => {
            return Err(e);
        },
    };
    let payroll = Payroll::new(employer, mint);
    Ok(PayrollInitialization { payroll, payroll_address, bump })
}

/// Validates an employee addition and appends the entry to the payroll's
/// bounded list. Only the recorded employer may add employees; the entry's
/// claim timestamps start at zero.
pub fn process_add_employee(
    employer_signed: bool,
    employer: &[u8; 32],
    payroll_data: &[u8],
    employee: &[u8; 32],
    encrypted_salary: Ciphertext,
) -> (r: Result<Payroll, SettlementError>)
    ensures
        ({
            let d = payroll_data@;
            let wf = payroll_bytes_well_formed(d);
            let employer_ok = wf && d.subrange(0, 32) == employer@;
            &&& (r == Err::<Payroll, SettlementError>(SettlementError::AuthorizationError) <==> (
            !employer_signed || (employer_signed && wf && !employer_ok)))
            &&& (r == Err::<Payroll, SettlementError>(SettlementError::DeserializationError) <==> (
            employer_signed && !wf))
            &&& (r == Err::<Payroll, SettlementError>(SettlementError::CapacityExceeded) <==> (
            employer_signed && employer_ok && d[64] == MAX_EMPLOYEES))
            &&& (r is Ok <==> employer_signed && employer_ok && d[64] < MAX_EMPLOYEES)
        }),
        r matches Ok(p) ==> ({
            let d = payroll_data@;
            &&& p.employer@ == d.subrange(0, 32)
            &&& p.mint@ == d.subrange(32, 64)
            &&& p.employees@.len() == d[64] + 1
            &&& forall|k: int|
                0 <= k < d[64] ==> entry_matches_bytes(#[trigger] p.employees@[k], d, k)
            &&& p.employees@.last().key@ == employee@
            &&& p.employees@.last().encrypted_salary.bytes@ == encrypted_salary.bytes@
            &&& p.employees@.last().last_claimed_slot == 0
            &&& p.employees@.last().previous_claimed_slot == 0
            &&& p.well_formed()
        }),
{
    if !employer_signed {
        return Err(SettlementError::AuthorizationError);
    }
    let mut payroll = match decode_payroll(payroll_data) {
        Ok(p) => p,
        Err(e) => {
            return Err(e);
        },
    };
    if !bytes32_eq(&payroll.employer, employer) {
        return Err(SettlementError::AuthorizationError);
    }
    if let Err(e) = payroll.add_employee(employee, encrypted_salary) {
        return Err(e);
    }
    Ok(payroll)
}

/// What a claim submits: the stored encrypted salary as the transfer amount,
/// the transfer endpoints, the correlation ids, and the bump seed the
/// payroll's authority signs with. The circuit is degenerate: the amount is
/// passed through unchanged.
#[derive(Clone, Debug)]
pub struct ClaimRequest {
    pub computation_offset: u32,
    pub transfer_id: u32,
    pub encrypted_amount: Ciphertext,
    pub source: [u8; 32],
    pub destination: [u8; 32],
    pub mint: [u8; 32],
    pub bump: u8,
}

/// What a validated claim produces: the payroll record with the claimant's
/// timestamps advanced, the claimant's list position, and the transfer
/// request.
#[derive(Clone, Debug)]
pub struct ClaimOutcome {
    pub payroll: Payroll,
    pub employee_index: usize,
    pub request: ClaimRequest,
}

/// Validates a salary claim (phase one). The claimant must be a listed
/// employee and must not have claimed in the current time unit; the entry's
/// timestamps are advanced optimistically, before the transfer's outcome is
/// known, and the transfer of the stored encrypted salary is assembled. The
/// registry changes only on success.
pub fn process_claim_salary(
    employee_signed: bool,
    employee: &[u8; 32],
    employee_token_account: &[u8; 32],
    employer: &[u8; 32],
    program_id: &[u8; 32],
    declared_payroll: &[u8; 32],
    declared_mint: &[u8; 32],
    declared_token_account: &[u8; 32],
    expected_token_account: &[u8; 32],
    payroll_data: &[u8],
    current_slot: u64,
    computation_offset: u32,
    transfer_id: u32,
    registry: &mut SettlementRegistry,
) -> (r: Result<ClaimOutcome, SettlementError>)
    requires
        old(registry).well_formed(),
    ensures
        final(registry).well_formed(),
        r is Err ==> final(registry).entries@ == old(registry).entries@,
        r is Ok && !has_id(old(registry).entries@, transfer_id) ==> final(registry).entries@
            =~= old(registry).entries@.push((transfer_id, SettlementStatus::Requested)),
        r is Ok && has_id(old(registry).entries@, transfer_id) ==> final(registry).entries@ == old(
            registry,
        ).entries@,
        ({
            let d = payroll_data@;
            let addr_ok = payroll_addresses_ok(
                spec_payroll_pda(employer@, program_id@),
                declared_payroll@,
                (declared_token_account@, expected_token_account@),
            );
            let wf = payroll_bytes_well_formed(d);
            let mint_ok = declared_mint@ == d.subrange(32, 64);
            &&& (r == Err::<ClaimOutcome, SettlementError>(SettlementError::AuthorizationError)
                <==> (!employee_signed || (employee_signed && addr_ok && wf && mint_ok
                && !has_employee(d, employee@))))
            &&& (r == Err::<ClaimOutcome, SettlementError>(SettlementError::AddressMismatch) <==> (
            employee_signed && (!addr_ok || (addr_ok && wf && !mint_ok))))
            &&& (r == Err::<ClaimOutcome, SettlementError>(SettlementError::DeserializationError)
                <==> (employee_signed && addr_ok && !wf))
            &&& (r == Err::<ClaimOutcome, SettlementError>(
                SettlementError::AlreadyClaimedThisPeriod,
            ) <==> (employee_signed && addr_ok && wf && mint_ok && claim_throttled(
                d,
                employee@,
                current_slot,
            )))
            &&& (r is Ok <==> (employee_signed && addr_ok && wf && mint_ok && has_employee(
                d,
                employee@,
            ) && !claim_throttled(d, employee@, current_slot)))
        }),
        r matches Ok(out) ==> ({
            let d = payroll_data@;
            let i = out.employee_index as int;
            &&& is_first_employee(d, employee@, i)
            &&& out.payroll.employer@ == d.subrange(0, 32)
            &&& out.payroll.mint@ == d.subrange(32, 64)
            &&& out.payroll.employees@.len() == d[64]
            &&& forall|k: int|
                0 <= k < d[64] && k != i ==> entry_matches_bytes(
                    #[trigger] out.payroll.employees@[k],
                    d,
                    k,
                )
            &&& out.payroll.employees@[i].key@ == employee@
            &&& out.payroll.employees@[i].encrypted_salary.bytes@ == d.subrange(
                97 + 80 * i,
                129 + 80 * i,
            )
            &&& out.payroll.employees@[i].last_claimed_slot == current_slot
            &&& out.payroll.employees@[i].previous_claimed_slot == entry_last_claimed(d, i)
            &&& out.payroll.well_formed()
            &&& out.request.computation_offset == computation_offset
            &&& out.request.transfer_id == transfer_id
            &&& out.request.encrypted_amount.bytes@ == d.subrange(97 + 80 * i, 129 + 80 * i)
            &&& out.request.source@ == declared_token_account@
            &&& out.request.destination@ == employee_token_account@
            &&& out.request.mint@ == declared_mint@
            &&& (spec_payroll_pda(employer@, program_id@) matches Some(p) && p.1
                == out.request.bump)
        }),
{
    if !employee_signed {
        return Err(SettlementError::AuthorizationError);
    }
    let (_, bump) = match check_payroll(
        employer,
        program_id,
        declared_payroll,
        (declared_token_account, expected_token_account),
    ) {
        Ok(p) => p,
        Err(e) => {
            return Err(e);
        },
    };
    let mut payroll = match decode_payroll(payroll_data) {
        Ok(p) => p,
        Err(e) => {
            return Err(e);
        },
    };
    if !bytes32_eq(declared_mint, &payroll.mint) {
        return Err(SettlementError::AddressMismatch);
    }
    proof {
        lemma_entries_track_bytes(payroll, payroll_data@, *employee);
    }
    let idx = match payroll.find_employee(employee) {
        Ok(i) => i,
        Err(e) => {
            return Err(e);
        },
    };
    proof {
        assert forall|j: int| 0 <= j < idx as int implies entry_key_bytes(payroll_data@, j)
            != employee@ by {
            assert(payroll.employees@[j].key@ != employee@);
        }
        assert(payroll.employees@[idx as int].key@ == employee@);
        assert(is_first_employee(payroll_data@, employee@, idx as int));
    }
    let entry = payroll.employees[idx];
    proof {
        assert(entry_matches_bytes(payroll.employees@[idx as int], payroll_data@, idx as int));
        assert(entry_last_claimed(payroll_data@, idx as int) == entry.last_claimed_slot);
    }
    if entry.last_claimed_slot == current_slot {
        proof {
            assert(claim_throttled(payroll_data@, employee@, current_slot));
        }
        return Err(SettlementError::AlreadyClaimedThisPeriod);
    }
    proof {
        if claim_throttled(payroll_data@, employee@, current_slot) {
            let j = choose|j: int|
                is_first_employee(payroll_data@, employee@, j) && entry_last_claimed(
                    payroll_data@,
                    j,
                ) == current_slot;
            lemma_first_employee_unique(payroll_data@, employee@, idx as int);
            assert(j == idx as int);
            assert(false);
        }
    }
    let salary = entry.encrypted_salary;
    payroll.employees[idx] = Employee {
        key: entry.key,
        encrypted_salary: entry.encrypted_salary,
        last_claimed_slot: current_slot,
        previous_claimed_slot: entry.last_claimed_slot,
    };
    registry.register(transfer_id);
    Ok(
        ClaimOutcome {
            payroll,
            employee_index: idx,
            request: ClaimRequest {
                computation_offset,
                transfer_id,
                encrypted_amount: salary,
                source: *declared_token_account,
                destination: *employee_token_account,
                mint: *declared_mint,
                bump,
            },
        },
    )
}

/// In a payroll that matches its record image, the listed entries' keys are
/// the keys stored in the image, so a scan of the record finds an employee
/// exactly where the image holds one.
proof fn lemma_entries_track_bytes(p: Payroll, d: Seq<u8>, employee: [u8; 32])
    requires
        crate::codec::payroll_matches_bytes(p, d),
    ensures
        forall|k: int|
            0 <= k < p.employees@.len() ==> #[trigger] p.employees@[k].key@ == entry_key_bytes(
                d,
                k,
            ),
        has_employee(d, employee@) <==> crate::state::seq_contains_key(
            crate::state::employee_keys(p.employees@),
            employee,
        ),
{
    assert forall|k: int| 0 <= k < p.employees@.len() implies #[trigger] p.employees@[k].key@
        == entry_key_bytes(d, k) by {
        assert(entry_matches_bytes(p.employees@[k], d, k));
    }
    let keys = crate::state::employee_keys(p.employees@);
    assert(forall|k: int| 0 <= k < p.employees@.len() ==> keys[k] == p.employees@[k].key);
    if has_employee(d, employee@) {
        let i = choose|i: int| 0 <= i < d[64] && entry_key_bytes(d, i) == employee@;
        assert(keys[i]@ == employee@);
        assert(crate::state::seq_contains_key(keys, employee));
    }
    if crate::state::seq_contains_key(keys, employee) {
        let i = choose|i: int| 0 <= i < keys.len() && keys[i]@ == employee@;
        assert(entry_key_bytes(d, i) == employee@);
        assert(has_employee(d, employee@));
    }
}

/// No two distinct positions are both the first entry of a key.
proof fn lemma_first_employee_unique(d: Seq<u8>, key: Seq<u8>, i: int)
    requires
        is_first_employee(d, key, i),
    ensures
        forall|j: int| is_first_employee(d, key, j) ==> j == i,
{
    assert forall|j: int| is_first_employee(d, key, j) implies j == i by {
        if j < i {
            assert(entry_key_bytes(d, j) != key);
        } else if i < j {
            assert(entry_key_bytes(d, i) != key);
        }
    }
}

/// Consumes the result of a claim settlement (phase two). The transfer's
/// success or failure is noted but—by the documented best-effort design—the
/// payroll record is left exactly as phase one wrote it either way; only the
/// settlement registry advances, at most once per transfer correlation id.
#[allow(unused_variables)]
pub fn process_claim_salary_callback(
    employer: &[u8; 32],
    program_id: &[u8; 32],
    declared_payroll: &[u8; 32],
    declared_token_account: &[u8; 32],
    expected_token_account: &[u8; 32],
    transfer_succeeded: Option<bool>,
    transfer_id: u32,
    registry: &mut SettlementRegistry,
) -> (r: Result<bool, SettlementError>)
    requires
        old(registry).well_formed(),
    ensures
        final(registry).well_formed(),
        r is Err ==> final(registry).entries@ == old(registry).entries@,
        r is Err <==> !payroll_addresses_ok(
            spec_payroll_pda(employer@, program_id@),
            declared_payroll@,
            (declared_token_account@, expected_token_account@),
        ),
        r is Err ==> r == Err::<bool, SettlementError>(SettlementError::AddressMismatch),
        r matches Ok(applied) ==> fulfill_transition(
            old(registry).entries@,
            final(registry).entries@,
            transfer_id,
            applied,
        ),
{
    if let Err(e) = check_payroll(
        employer,
        program_id,
        declared_payroll,
        (declared_token_account, expected_token_account),
    ) {
        return Err(e);
    }
    let applied = registry.try_fulfill(transfer_id);
    Ok(applied)
}

} // verus!
