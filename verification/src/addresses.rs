//! Canonical account addresses.
//!
//! Every persisted record is owned by exactly one ledger address derived
//! deterministically from a fixed seed tag and the record's logical key, so
//! any party can recompute it without coordination. The derivation itself is
//! the ledger's program-derived-address scheme; its result is named here and
//! every address an instruction declares is checked against it.

use crate::errors::SettlementError;
use vstd::prelude::*;

verus! {

broadcast use vstd::array::group_array_axioms;

/// What the ledger's program-derived-address search returns for the given
/// seeds and program id: a deterministic function of its arguments alone, or
/// nothing in the statistically improbable event that no bump seed works.
pub uninterp spec fn derived_address(seeds: Seq<Seq<u8>>, program_id: Seq<u8>) -> Option<
    ([u8; 32], u8),
>;

/// Relies on solana_pubkey::Pubkey::try_find_program_address: the returned
/// address and bump seed depend on the seeds and the program id alone, and
/// the search returns `None` instead of panicking when it fails.
#[verifier::external_body]
fn try_derive_address(seeds: &Vec<Vec<u8>>, program_id: &[u8; 32]) -> (r: Option<([u8; 32], u8)>)
    ensures
        r == derived_address(seeds@.map_values(|s: Vec<u8>| s@), program_id@),
{
    let seed_slices: Vec<&[u8]> = seeds.iter().map(|s| s.as_slice()).collect();
    let pid = solana_program::pubkey::Pubkey::new_from_array(*program_id);
    solana_program::pubkey::Pubkey::try_find_program_address(&seed_slices, &pid).map(
        |(address, bump)| (address.to_bytes(), bump),
    )
}

/// The seed tag of lending pool records: the bytes of "lending_pool".
pub open spec fn pool_seed() -> Seq<u8> {
    seq![108u8, 101u8, 110u8, 100u8, 105u8, 110u8, 103u8, 95u8, 112u8, 111u8, 111u8, 108u8]
}

/// The seed tag of loan records: the bytes of "loan".
pub open spec fn loan_seed() -> Seq<u8> {
    seq![108u8, 111u8, 97u8, 110u8]
}

/// The seed tag of payroll records: the bytes of "payroll".
pub open spec fn payroll_seed() -> Seq<u8> {
    seq![112u8, 97u8, 121u8, 114u8, 111u8, 108u8, 108u8]
}

fn pool_seed_bytes() -> (r: Vec<u8>)
    ensures
        r@ == pool_seed(),
{
    let r: Vec<u8> = vec![108u8, 101u8, 110u8, 100u8, 105u8, 110u8, 103u8, 95u8, 112u8, 111u8, 111u8, 108u8];
    proof {
        assert(r@ =~= pool_seed());
    }
    r
}

fn loan_seed_bytes() -> (r: Vec<u8>)
    ensures
        r@ == loan_seed(),
{
    let r: Vec<u8> = vec![108u8, 111u8, 97u8, 110u8];
    proof {
        assert(r@ =~= loan_seed());
    }
    r
}

fn payroll_seed_bytes() -> (r: Vec<u8>)
    ensures
        r@ == payroll_seed(),
{
    let r: Vec<u8> = vec![112u8, 97u8, 121u8, 114u8, 111u8, 108u8, 108u8];
    proof {
        assert(r@ =~= payroll_seed());
    }
    r
}

fn key_to_vec(key: &[u8; 32]) -> (r: Vec<u8>)
    ensures
        r@ == key@,
{
    vstd::slice::slice_to_vec(vstd::array::array_as_slice(key))
}

/// The canonical address of the lender's pool record.
pub open spec fn spec_lending_pool_pda(lender: Seq<u8>, program_id: Seq<u8>) -> Option<
    ([u8; 32], u8),
> {
    derived_address(seq![pool_seed(), lender], program_id)
}

/// The canonical address of the loan record of a (lender, borrower) pair.
pub open spec fn spec_loan_pda(lender: Seq<u8>, borrower: Seq<u8>, program_id: Seq<u8>) -> Option<
    ([u8; 32], u8),
> {
    derived_address(seq![loan_seed(), lender, borrower], program_id)
}

/// The canonical address of the employer's payroll record.
pub open spec fn spec_payroll_pda(employer: Seq<u8>, program_id: Seq<u8>) -> Option<
    ([u8; 32], u8),
> {
    derived_address(seq![payroll_seed(), employer], program_id)
}

/// Derives the canonical pool address and bump seed for a lender.
pub fn lending_pool_pda(lender: &[u8; 32], program_id: &[u8; 32]) -> (r: Option<([u8; 32], u8)>)
    ensures
        r == spec_lending_pool_pda(lender@, program_id@),
{
    let mut seeds: Vec<Vec<u8>> = Vec::new();
    seeds.push(pool_seed_bytes());
    seeds.push(key_to_vec(lender));
    let r = try_derive_address(&seeds, program_id);
    proof {
        assert(seeds@.map_values(|s: Vec<u8>| s@) =~= seq![pool_seed(), lender@]);
    }
    r
}

/// Derives the canonical loan address and bump seed for a (lender, borrower)
/// pair.
pub fn loan_pda(lender: &[u8; 32], borrower: &[u8; 32], program_id: &[u8; 32]) -> (r: Option<
    ([u8; 32], u8),
>)
    ensures
        r == spec_loan_pda(lender@, borrower@, program_id@),
{
    let mut seeds: Vec<Vec<u8>> = Vec::new();
    seeds.push(loan_seed_bytes());
    seeds.push(key_to_vec(lender));
    seeds.push(key_to_vec(borrower));
    let r = try_derive_address(&seeds, program_id);
    proof {
        assert(seeds@.map_values(|s: Vec<u8>| s@) =~= seq![loan_seed(), lender@, borrower@]);
    }
    r
}

/// Derives the canonical payroll address and bump seed for an employer.
pub fn payroll_pda(employer: &[u8; 32], program_id: &[u8; 32]) -> (r: Option<([u8; 32], u8)>)
    ensures
        r == spec_payroll_pda(employer@, program_id@),
{
    let mut seeds: Vec<Vec<u8>> = Vec::new();
    seeds.push(payroll_seed_bytes());
    seeds.push(key_to_vec(employer));
    let r = try_derive_address(&seeds, program_id);
    proof {
        assert(seeds@.map_values(|s: Vec<u8>| s@) =~= seq![payroll_seed(), employer@]);
    }
    r
}

/// Whether the pool's declared addresses all match their canonical values:
/// the record address, the record's owning program, and (when one is
/// declared) the asset vault token account.
pub open spec fn pool_addresses_ok(
    pda: Option<([u8; 32], u8)>,
    declared_pool: Seq<u8>,
    pool_owner: Seq<u8>,
    expected_owner: Seq<u8>,
    vault: Option<(Seq<u8>, Seq<u8>)>,
) -> bool {
    &&& pda matches Some(p) && p.0@ == declared_pool
    &&& pool_owner == expected_owner
    &&& (vault matches Some(v) ==> v.0 == v.1)
}

/// Recomputes the canonical pool address and checks every declared address
/// against it. `vault` pairs a declared token-account address with the
/// collaborator-derived one. Fails with `AddressMismatch` and nothing else.
pub fn check_lending_pool(
    lender: &[u8; 32],
    program_id: &[u8; 32],
    declared_pool: &[u8; 32],
    pool_owner: &[u8; 32],
    expected_owner: &[u8; 32],
    vault: Option<(&[u8; 32], &[u8; 32])>,
) -> (r: Result<([u8; 32], u8), SettlementError>)
    ensures
        r is Ok <==> pool_addresses_ok(
            spec_lending_pool_pda(lender@, program_id@),
            declared_pool@,
            pool_owner@,
            expected_owner@,
            match vault {
                Some(v) => Some((v.0@, v.1@)),
                None => None,
            },
        ),
        r matches Ok(p) ==> spec_lending_pool_pda(lender@, program_id@) == Some(p),
        r is Err ==> r == Err::<([u8; 32], u8), SettlementError>(SettlementError::AddressMismatch),
{
    let (pda, bump) = match lending_pool_pda(lender, program_id) {
        Some(p) => p,
        None => {
            return Err(SettlementError::AddressMismatch);
        },
    };
    if !crate::bytes::bytes32_eq(declared_pool, &pda) {
        return Err(SettlementError::AddressMismatch);
    }
    if !crate::bytes::bytes32_eq(pool_owner, expected_owner) {
        return Err(SettlementError::AddressMismatch);
    }
    if let Some((declared_vault, expected_vault)) = vault {
        if !crate::bytes::bytes32_eq(declared_vault, expected_vault) {
            return Err(SettlementError::AddressMismatch);
        }
    }
    Ok((pda, bump))
}

/// Whether the loan's declared addresses all match their canonical values:
/// the record address, the collateral vault, and (when one is declared) the
/// repay token account.
pub open spec fn loan_addresses_ok(
    pda: Option<([u8; 32], u8)>,
    declared_loan: Seq<u8>,
    collateral_vault: (Seq<u8>, Seq<u8>),
    repay_account: Option<(Seq<u8>, Seq<u8>)>,
) -> bool {
    &&& pda matches Some(p) && p.0@ == declared_loan
    &&& collateral_vault.0 == collateral_vault.1
    &&& (repay_account matches Some(a) ==> a.0 == a.1)
}

/// Recomputes the canonical loan address and checks every declared address
/// against it. `collateral_vault` and `repay_account` pair declared
/// token-account addresses with their collaborator-derived ones. Fails with
/// `AddressMismatch` and nothing else.
pub fn check_loan(
    lender: &[u8; 32],
    borrower: &[u8; 32],
    program_id: &[u8; 32],
    declared_loan: &[u8; 32],
    collateral_vault: (&[u8; 32], &[u8; 32]),
    repay_account: Option<(&[u8; 32], &[u8; 32])>,
) -> (r: Result<([u8; 32], u8), SettlementError>)
    ensures
        r is Ok <==> loan_addresses_ok(
            spec_loan_pda(lender@, borrower@, program_id@),
            declared_loan@,
            (collateral_vault.0@, collateral_vault.1@),
            match repay_account {
                Some(a) => Some((a.0@, a.1@)),
                None => None,
            },
        ),
        r matches Ok(p) ==> spec_loan_pda(lender@, borrower@, program_id@) == Some(p),
        r is Err ==> r == Err::<([u8; 32], u8), SettlementError>(SettlementError::AddressMismatch),
{
    let (pda, bump) = match loan_pda(lender, borrower, program_id) {
        Some(p) => p,
        None => {
            return Err(SettlementError::AddressMismatch);
        },
    };
    if !crate::bytes::bytes32_eq(declared_loan, &pda) {
        return Err(SettlementError::AddressMismatch);
    }
    if !crate::bytes::bytes32_eq(collateral_vault.0, collateral_vault.1) {
        return Err(SettlementError::AddressMismatch);
    }
    if let Some((declared_repay, expected_repay)) = repay_account {
        if !crate::bytes::bytes32_eq(declared_repay, expected_repay) {
            return Err(SettlementError::AddressMismatch);
        }
    }
    Ok((pda, bump))
}

/// Whether the payroll's declared addresses both match their canonical
/// values: the record address and the payroll token account.
pub open spec fn payroll_addresses_ok(
    pda: Option<([u8; 32], u8)>,
    declared_payroll: Seq<u8>,
    token_account: (Seq<u8>, Seq<u8>),
) -> bool {
    &&& pda matches Some(p) && p.0@ == declared_payroll
    &&& token_account.0 == token_account.1
}

/// Recomputes the canonical payroll address and checks the declared addresses
/// against it. `token_account` pairs the declared payroll token account with
/// the collaborator-derived one. Fails with `AddressMismatch` and nothing
/// else.
pub fn check_payroll(
    employer: &[u8; 32],
    program_id: &[u8; 32],
    declared_payroll: &[u8; 32],
    token_account: (&[u8; 32], &[u8; 32]),
) -> (r: Result<([u8; 32], u8), SettlementError>)
    ensures
        r is Ok <==> payroll_addresses_ok(
            spec_payroll_pda(employer@, program_id@),
            declared_payroll@,
            (token_account.0@, token_account.1@),
        ),
        r matches Ok(p) ==> spec_payroll_pda(employer@, program_id@) == Some(p),
        r is Err ==> r == Err::<([u8; 32], u8), SettlementError>(SettlementError::AddressMismatch),
{
    let (pda, bump) = match payroll_pda(employer, program_id) {
        Some(p) => p,
        None => {
            return Err(SettlementError::AddressMismatch);
        },
    };
    if !crate::bytes::bytes32_eq(declared_payroll, &pda) {
        return Err(SettlementError::AddressMismatch);
    }
    if !crate::bytes::bytes32_eq(token_account.0, token_account.1) {
        return Err(SettlementError::AddressMismatch);
    }
    Ok((pda, bump))
}

} // verus!
