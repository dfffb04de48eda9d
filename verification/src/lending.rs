//! Settlement orchestrator and callback handler for the lending protocol.
//!
//! Phase one validates a request against the canonical addresses and the
//! stored records, assembles the computation-and-transfer request for the
//! external collaborator, registers the caller-chosen transfer correlation
//! id, and returns at once. Phase two consumes the completed result and
//! applies the state transition, at most once per correlation id. Every
//! validation failure returns before any state change.

use crate::addresses::{
    check_lending_pool, check_loan, loan_addresses_ok, loan_pda, pool_addresses_ok,
    spec_lending_pool_pda, spec_loan_pda,
};
use crate::bytes::{bytes32_eq, zero32, zero32_seq};
use crate::codec::{
    decode_lending_pool, decode_loan, loan_bytes_well_formed, pool_bytes_well_formed,
    read_bytes32, spec_encode_loan, u16_of_le, u64_of_le,
};
use crate::errors::SettlementError;
use crate::registry::{fulfill_transition, has_id, id_has_status, SettlementRegistry, SettlementStatus};
use crate::state::{Ciphertext, LendingPool, Loan, MAX_BORROWERS};
use vstd::prelude::*;

verus! {

broadcast use vstd::array::group_array_axioms;

/// The computation definition slot of the borrow circuit.
pub const BORROW_COMP_DEF_OFFSET: u32 = 0;

/// The computation definition slot of the repay circuit.
pub const REPAY_COMP_DEF_OFFSET: u32 = 1;

/// The asset price the borrow circuit is quoted at, fixed by the protocol.
pub const BORROW_PRICE: u64 = 1;

/// The elapsed time the repay circuit accrues interest over, fixed by the
/// protocol until time tracking is wired in.
pub const REPAY_SLOTS_ELAPSED: u64 = 10;

/// One confidential transfer leg of a settlement request: the collaborator
/// moves an amount the circuit decides from `source` to `destination` in the
/// given token.
#[derive(Clone, Debug)]
pub struct TransferLeg {
    pub source: [u8; 32],
    pub destination: [u8; 32],
    pub mint: [u8; 32],
}

/// What initializing a pool produces: the fresh record, and the canonical
/// address and bump seed to create it under.
#[derive(Clone, Debug)]
pub struct PoolInitialization {
    pub pool: LendingPool,
    pub pool_address: [u8; 32],
    pub bump: u8,
}

/// Validates a pool-initialization request and builds the fresh pool record.
/// The pool account must still be owned by the system program (the all-zero
/// program identity), since it is about to be created.
pub fn process_initialize_lending_pool(
    lender_signed: bool,
    lender: &[u8; 32],
    asset_mint: &[u8; 32],
    collateral_mint: &[u8; 32],
    interest_rate_bps: u16,
    loan_to_value_bps: u16,
    collateral_threshold_bps: u16,
    program_id: &[u8; 32],
    declared_pool: &[u8; 32],
    pool_owner: &[u8; 32],
    declared_asset_vault: &[u8; 32],
    expected_asset_vault: &[u8; 32],
) -> (r: Result<PoolInitialization, SettlementError>)
    ensures
        !lender_signed <==> r == Err::<PoolInitialization, SettlementError>(
            SettlementError::AuthorizationError,
        ),
        lender_signed ==> (r is Ok <==> pool_addresses_ok(
            spec_lending_pool_pda(lender@, program_id@),
            declared_pool@,
            pool_owner@,
            zero32_seq(),
            Some((declared_asset_vault@, expected_asset_vault@)),
        )),
        lender_signed && r is Err ==> r == Err::<PoolInitialization, SettlementError>(
            SettlementError::AddressMismatch,
        ),
        r matches Ok(pi) ==> ({
            &&& spec_lending_pool_pda(lender@, program_id@) == Some((pi.pool_address, pi.bump))
            &&& pi.pool.lender@ == lender@
            &&& pi.pool.asset_mint@ == asset_mint@
            &&& pi.pool.collateral_mint@ == collateral_mint@
            &&& pi.pool.interest_rate_bps == interest_rate_bps
            &&& pi.pool.loan_to_value_bps == loan_to_value_bps
            &&& pi.pool.collateral_threshold_bps == collateral_threshold_bps
            &&& pi.pool.borrowers@.len() == 0
            &&& pi.pool.well_formed()
        }),
{
    if !lender_signed {
        return Err(SettlementError::AuthorizationError);
    }
    let system_owner = zero32();
    let (pool_address, bump) = match check_lending_pool(
        lender,
        program_id,
        declared_pool,
        pool_owner,
        &system_owner,
        Some((declared_asset_vault, expected_asset_vault)),
    ) {
        Ok(p) => p,
        Err(e) => {
            return Err(e);
        },
    };
    let pool = LendingPool::new(
        lender,
        asset_mint,
        collateral_mint,
        interest_rate_bps,
        loan_to_value_bps,
        collateral_threshold_bps,
    );
    Ok(PoolInitialization { pool, pool_address, bump })
}

/// What initializing a loan produces: the fresh loan record, the pool record
/// with the borrower appended, and the canonical loan address and bump seed.
#[derive(Clone, Debug)]
pub struct LoanInitialization {
    pub loan: Loan,
    pub pool: LendingPool,
    pub loan_address: [u8; 32],
    pub bump: u8,
}

/// Whether both the pool's and the loan's declared addresses match their
/// canonical values for a loan-initialization request.
pub open spec fn init_loan_addresses_ok(
    lender: Seq<u8>,
    borrower: Seq<u8>,
    program_id: Seq<u8>,
    declared_pool: Seq<u8>,
    pool_owner: Seq<u8>,
    asset_vault: (Seq<u8>, Seq<u8>),
    declared_loan: Seq<u8>,
    collateral_vault: (Seq<u8>, Seq<u8>),
    repay_account: (Seq<u8>, Seq<u8>),
) -> bool {
    &&& pool_addresses_ok(
        spec_lending_pool_pda(lender, program_id),
        declared_pool,
        pool_owner,
        program_id,
        Some(asset_vault),
    )
    &&& loan_addresses_ok(
        spec_loan_pda(lender, borrower, program_id),
        declared_loan,
        collateral_vault,
        Some(repay_account),
    )
}

/// Validates a loan-initialization request, builds the fresh inactive loan
/// record, and appends the borrower to the pool's bounded list.
pub fn process_initialize_loan(
    borrower_signed: bool,
    lender: &[u8; 32],
    borrower: &[u8; 32],
    program_id: &[u8; 32],
    declared_pool: &[u8; 32],
    pool_owner: &[u8; 32],
    declared_asset_vault: &[u8; 32],
    expected_asset_vault: &[u8; 32],
    declared_loan: &[u8; 32],
    declared_collateral_vault: &[u8; 32],
    expected_collateral_vault: &[u8; 32],
    declared_repay_account: &[u8; 32],
    expected_repay_account: &[u8; 32],
    pool_data: &[u8],
) -> (r: Result<LoanInitialization, SettlementError>)
    ensures
        ({
            let addr_ok = init_loan_addresses_ok(
                lender@,
                borrower@,
                program_id@,
                declared_pool@,
                pool_owner@,
                (declared_asset_vault@, expected_asset_vault@),
                declared_loan@,
                (declared_collateral_vault@, expected_collateral_vault@),
                (declared_repay_account@, expected_repay_account@),
            );
            let wf = pool_bytes_well_formed(pool_data@);
            &&& (r == Err::<LoanInitialization, SettlementError>(
                SettlementError::AuthorizationError,
            ) <==> !borrower_signed)
            &&& (r == Err::<LoanInitialization, SettlementError>(SettlementError::AddressMismatch)
                <==> borrower_signed && !addr_ok)
            &&& (r == Err::<LoanInitialization, SettlementError>(
                SettlementError::DeserializationError,
            ) <==> borrower_signed && addr_ok && !wf)
            &&& (r == Err::<LoanInitialization, SettlementError>(SettlementError::CapacityExceeded)
                <==> borrower_signed && addr_ok && wf && pool_data@[102] == MAX_BORROWERS)
            &&& (r is Ok <==> borrower_signed && addr_ok && wf && pool_data@[102] < MAX_BORROWERS)
        }),
        r matches Ok(li) ==> ({
            let d = pool_data@;
            &&& spec_loan_pda(lender@, borrower@, program_id@) == Some((li.loan_address, li.bump))
            &&& li.loan.borrower@ == borrower@
            &&& li.loan.lending_pool@ == declared_pool@
            &&& !li.loan.active
            &&& li.loan.encrypted_principal.bytes@ == zero32_seq()
            &&& li.loan.encrypted_collateral.bytes@ == zero32_seq()
            &&& li.loan.last_update_slot == 0
            &&& li.pool.lender@ == d.subrange(0, 32)
            &&& li.pool.asset_mint@ == d.subrange(32, 64)
            &&& li.pool.collateral_mint@ == d.subrange(64, 96)
            &&& li.pool.interest_rate_bps == u16_of_le(d.subrange(96, 98))
            &&& li.pool.loan_to_value_bps == u16_of_le(d.subrange(98, 100))
            &&& li.pool.collateral_threshold_bps == u16_of_le(d.subrange(100, 102))
            &&& li.pool.borrowers@.len() == d[102] + 1
            &&& forall|k: int|
                0 <= k < d[102] ==> li.pool.borrowers@[k]@ == d.subrange(
                    103 + 32 * k,
                    135 + 32 * k,
                )
            &&& li.pool.borrowers@.last()@ == borrower@
            &&& li.pool.well_formed()
        }),
{
    if !borrower_signed {
        return Err(SettlementError::AuthorizationError);
    }
    if let Err(e) = check_lending_pool(
        lender,
        program_id,
        declared_pool,
        pool_owner,
        program_id,
        Some((declared_asset_vault, expected_asset_vault)),
    ) {
        return Err(e);
    }
    let (loan_address, bump) = match check_loan(
        lender,
        borrower,
        program_id,
        declared_loan,
        (declared_collateral_vault, expected_collateral_vault),
        Some((declared_repay_account, expected_repay_account)),
    ) {
        Ok(p) => p,
        Err(e) => {
            return Err(e);
        },
    };
    let loan = Loan::new(borrower, declared_pool);
    let mut pool = match decode_lending_pool(pool_data) {
        Ok(p) => p,
        Err(e) => {
            return Err(e);
        },
    };
    if let Err(e) = pool.add_borrower(borrower) {
        return Err(e);
    }
    Ok(LoanInitialization { loan, pool, loan_address, bump })
}

/// What a borrow request submits: the two transfer legs, the circuit's
/// plaintext operands, the correlation ids, and the bump seeds the vaults'
/// authorities sign with.
#[derive(Clone, Debug)]
pub struct BorrowRequest {
    pub computation_offset: u32,
    pub transfer_id: u32,
    pub price: u64,
    pub loan_to_value_bps: u16,
    pub asset_leg: TransferLeg,
    pub collateral_leg: TransferLeg,
    pub pool_bump: u8,
    pub loan_bump: u8,
}

/// Whether both the pool's and the loan's declared addresses match their
/// canonical values for a borrow request.
pub open spec fn borrow_addresses_ok(
    lender: Seq<u8>,
    borrower: Seq<u8>,
    program_id: Seq<u8>,
    declared_pool: Seq<u8>,
    pool_owner: Seq<u8>,
    asset_vault: (Seq<u8>, Seq<u8>),
    declared_loan: Seq<u8>,
    collateral_vault: (Seq<u8>, Seq<u8>),
) -> bool {
    &&& pool_addresses_ok(
        spec_lending_pool_pda(lender, program_id),
        declared_pool,
        pool_owner,
        program_id,
        Some(asset_vault),
    )
    &&& loan_addresses_ok(
        spec_loan_pda(lender, borrower, program_id),
        declared_loan,
        collateral_vault,
        None,
    )
}

/// Validates a borrow request (phase one), reads the pool's terms, assembles
/// the request for the external collaborator, and registers the transfer
/// correlation id as `Requested`. The registry changes only on success.
pub fn process_borrow(
    borrower_signed: bool,
    lender: &[u8; 32],
    borrower: &[u8; 32],
    program_id: &[u8; 32],
    declared_pool: &[u8; 32],
    pool_owner: &[u8; 32],
    declared_loan: &[u8; 32],
    declared_asset_vault: &[u8; 32],
    expected_asset_vault: &[u8; 32],
    declared_collateral_vault: &[u8; 32],
    expected_collateral_vault: &[u8; 32],
    asset_borrower_account: &[u8; 32],
    collateral_borrower_account: &[u8; 32],
    asset_mint: &[u8; 32],
    collateral_mint: &[u8; 32],
    pool_data: &[u8],
    computation_offset: u32,
    transfer_id: u32,
    registry: &mut SettlementRegistry,
) -> (r: Result<BorrowRequest, SettlementError>)
    requires
        old(registry).well_formed(),
    ensures
        final(registry).well_formed(),
        r is Err ==> final(registry).entries@ == old(registry).entries@,
        r is Ok && !has_id(old(registry).entries@, transfer_id) ==> final(registry).entries@
            =~= old(registry).entries@.push((transfer_id, SettlementStatus::Requested)),
        r is Ok && has_id(old(registry).entries@, transfer_id) ==> final(registry).entries@ == old(
            registry,
        ).entries@,
        ({
            let addr_ok = borrow_addresses_ok(
                lender@,
                borrower@,
                program_id@,
                declared_pool@,
                pool_owner@,
                (declared_asset_vault@, expected_asset_vault@),
                declared_loan@,
                (declared_collateral_vault@, expected_collateral_vault@),
            );
            let wf = pool_bytes_well_formed(pool_data@);
            &&& (r == Err::<BorrowRequest, SettlementError>(SettlementError::AuthorizationError)
                <==> !borrower_signed)
            &&& (r == Err::<BorrowRequest, SettlementError>(SettlementError::AddressMismatch)
                <==> borrower_signed && !addr_ok)
            &&& (r == Err::<BorrowRequest, SettlementError>(SettlementError::DeserializationError)
                <==> borrower_signed && addr_ok && !wf)
            &&& (r is Ok <==> borrower_signed && addr_ok && wf)
        }),
        r matches Ok(req) ==> ({
            &&& req.computation_offset == computation_offset
            &&& req.transfer_id == transfer_id
            &&& req.price == BORROW_PRICE
            &&& req.loan_to_value_bps == u16_of_le(pool_data@.subrange(98, 100))
            &&& req.asset_leg.source@ == declared_asset_vault@
            &&& req.asset_leg.destination@ == asset_borrower_account@
            &&& req.asset_leg.mint@ == asset_mint@
            &&& req.collateral_leg.source@ == declared_collateral_vault@
            &&& req.collateral_leg.destination@ == collateral_borrower_account@
            &&& req.collateral_leg.mint@ == collateral_mint@
            &&& (spec_lending_pool_pda(lender@, program_id@) matches Some(p) && p.1
                == req.pool_bump)
            &&& (spec_loan_pda(lender@, borrower@, program_id@) matches Some(p) && p.1
                == req.loan_bump)
        }),
{
    if !borrower_signed {
        return Err(SettlementError::AuthorizationError);
    }
    let (_, pool_bump) = match check_lending_pool(
        lender,
        program_id,
        declared_pool,
        pool_owner,
        program_id,
        Some((declared_asset_vault, expected_asset_vault)),
    ) {
        Ok(p) => p,
        Err(e) => {
            return Err(e);
        },
    };
    let (_, loan_bump) = match check_loan(
        lender,
        borrower,
        program_id,
        declared_loan,
        (declared_collateral_vault, expected_collateral_vault),
        None,
    ) {
        Ok(p) => p,
        Err(e) => {
            return Err(e);
        },
    };
    let pool = match decode_lending_pool(pool_data) {
        Ok(p) => p,
        Err(e) => {
            return Err(e);
        },
    };
    registry.register(transfer_id);
    Ok(
        BorrowRequest {
            computation_offset,
            transfer_id,
            price: BORROW_PRICE,
            loan_to_value_bps: pool.loan_to_value_bps,
            asset_leg: TransferLeg {
                source: *declared_asset_vault,
                destination: *asset_borrower_account,
                mint: *asset_mint,
            },
            collateral_leg: TransferLeg {
                source: *declared_collateral_vault,
                destination: *collateral_borrower_account,
                mint: *collateral_mint,
            },
            pool_bump,
            loan_bump,
        },
    )
}

/// What a callback produced: either the updated record to persist, or the
/// determination that this correlation id was already settled (or never
/// requested) and nothing may be applied.
#[derive(Clone, Debug)]
pub enum LoanCallbackOutcome {
    Applied(Loan),
    AlreadySettled,
}

/// Whether the declared loan address matches its canonical derivation.
pub open spec fn callback_address_ok(
    lender: Seq<u8>,
    borrower: Seq<u8>,
    program_id: Seq<u8>,
    declared_loan: Seq<u8>,
) -> bool {
    spec_loan_pda(lender, borrower, program_id) matches Some(p) && p.0@ == declared_loan
}

/// The loan record a borrow callback stores: the stored record with the new
/// encrypted principal, everything else unchanged.
pub open spec fn borrow_callback_loan(l: Loan, d: Seq<u8>, out: Seq<u8>) -> bool {
    &&& l.borrower@ == d.subrange(0, 32)
    &&& l.lending_pool@ == d.subrange(32, 64)
    &&& (l.active <==> d[64] == 1)
    &&& l.encrypted_principal.bytes@ == out
    &&& l.encrypted_collateral.bytes@ == d.subrange(97, 129)
    &&& l.last_update_slot == u64_of_le(d.subrange(129, 137))
}

/// Applies the result of a borrow settlement (phase two): stores the
/// re-encrypted loan amount as the loan's principal, at most once per
/// transfer correlation id.
pub fn process_borrow_callback(
    lender: &[u8; 32],
    borrower: &[u8; 32],
    program_id: &[u8; 32],
    declared_loan: &[u8; 32],
    loan_data: &[u8],
    computation_output: Option<&Vec<u8>>,
    transfer_id: u32,
    registry: &mut SettlementRegistry,
) -> (r: Result<LoanCallbackOutcome, SettlementError>)
    requires
        old(registry).well_formed(),
    ensures
        final(registry).well_formed(),
        r is Err ==> final(registry).entries@ == old(registry).entries@,
        r matches Ok(o) ==> fulfill_transition(
            old(registry).entries@,
            final(registry).entries@,
            transfer_id,
            o matches LoanCallbackOutcome::Applied(_),
        ),
        ({
            let addr_ok = callback_address_ok(lender@, borrower@, program_id@, declared_loan@);
            &&& (r == Err::<LoanCallbackOutcome, SettlementError>(SettlementError::AddressMismatch)
                <==> !addr_ok)
            &&& (r == Err::<LoanCallbackOutcome, SettlementError>(
                SettlementError::ComputationOutputMissing,
            ) <==> addr_ok && computation_output is None)
            &&& (r == Err::<LoanCallbackOutcome, SettlementError>(
                SettlementError::DeserializationError,
            ) <==> (addr_ok && (computation_output matches Some(out) && !(loan_bytes_well_formed(
                loan_data@,
            ) && out@.len() == 32))))
            &&& (r is Ok <==> (addr_ok && (computation_output matches Some(out)
                && loan_bytes_well_formed(loan_data@) && out@.len() == 32)))
            &&& (r == Ok::<LoanCallbackOutcome, SettlementError>(
                LoanCallbackOutcome::AlreadySettled,
            ) <==> (r is Ok && !id_has_status(
                old(registry).entries@,
                transfer_id,
                SettlementStatus::Requested,
            )))
        }),
        r matches Ok(o) ==> (o matches LoanCallbackOutcome::Applied(l) ==> (
        computation_output matches Some(out) && borrow_callback_loan(l, loan_data@, out@))),
{
    match loan_pda(lender, borrower, program_id) {
        Some((pda, _)) => {
            if !bytes32_eq(declared_loan, &pda) {
                return Err(SettlementError::AddressMismatch);
            }
        },
        None => {
            return Err(SettlementError::AddressMismatch);
        },
    }
    let out = match computation_output {
        Some(o) => o,
        None => {
            return Err(SettlementError::ComputationOutputMissing);
        },
    };
    let stored = match decode_loan(loan_data) {
        Ok(l) => l,
        Err(e) => {
            return Err(e);
        },
    };
    if out.len() != 32 {
        return Err(SettlementError::DeserializationError);
    }
    if !registry.try_fulfill(transfer_id) {
        return Ok(LoanCallbackOutcome::AlreadySettled);
    }
    let new_principal = read_bytes32(out.as_slice(), 0);
    let updated = Loan {
        borrower: stored.borrower,
        lending_pool: stored.lending_pool,
        active: stored.active,
        encrypted_principal: Ciphertext { bytes: new_principal },
        encrypted_collateral: stored.encrypted_collateral,
        last_update_slot: stored.last_update_slot,
    };
    proof {
        let d = loan_data@;
        assert(d == spec_encode_loan(stored));
        assert(d.subrange(0, 32) =~= stored.borrower@);
        assert(d.subrange(32, 64) =~= stored.lending_pool@);
        assert(d[64] == (if stored.active { 1u8 } else { 0u8 }));
        assert(d.subrange(97, 129) =~= stored.encrypted_collateral.bytes@);
        assert(d.subrange(129, 137) =~= crate::codec::spec_u64_le(stored.last_update_slot));
        assert(u64_of_le(crate::codec::spec_u64_le(stored.last_update_slot))
            == stored.last_update_slot) by {
            crate::codec::lemma_u64_le_value_round(stored.last_update_slot);
        };
        assert(new_principal@ =~= out@);
    }
    Ok(LoanCallbackOutcome::Applied(updated))
}


/// Whether both the pool's and the loan's declared addresses match their
/// canonical values for a repay request. The pool's vault is not part of a
/// repay, so only the record addresses and the loan's token accounts are
/// checked.
pub open spec fn repay_addresses_ok(
    lender: Seq<u8>,
    borrower: Seq<u8>,
    program_id: Seq<u8>,
    declared_pool: Seq<u8>,
    pool_owner: Seq<u8>,
    declared_loan: Seq<u8>,
    collateral_vault: (Seq<u8>, Seq<u8>),
    repay_account: (Seq<u8>, Seq<u8>),
) -> bool {
    &&& pool_addresses_ok(
        spec_lending_pool_pda(lender, program_id),
        declared_pool,
        pool_owner,
        program_id,
        None,
    )
    &&& loan_addresses_ok(
        spec_loan_pda(lender, borrower, program_id),
        declared_loan,
        collateral_vault,
        Some(repay_account),
    )
}

/// What a repay request submits: the two transfer legs, the circuit's
/// operands (the stored encrypted principal and the pool's rate), the
/// correlation ids, and the bump seed the loan's authority signs with.
#[derive(Clone, Debug)]
pub struct RepayRequest {
    pub computation_offset: u32,
    pub transfer_id: u32,
    pub encrypted_principal: Ciphertext,
    pub slots_elapsed: u64,
    pub interest_rate_bps: u16,
    pub asset_leg: TransferLeg,
    pub collateral_leg: TransferLeg,
    pub loan_bump: u8,
}

/// Validates a repay request (phase one), reads the pool's rate and the
/// loan's stored encrypted principal, assembles the request for the external
/// collaborator, and registers the transfer correlation id as `Requested`.
/// The registry changes only on success.
pub fn process_repay(
    borrower_signed: bool,
    lender: &[u8; 32],
    borrower: &[u8; 32],
    program_id: &[u8; 32],
    declared_pool: &[u8; 32],
    pool_owner: &[u8; 32],
    declared_loan: &[u8; 32],
    declared_repay_account: &[u8; 32],
    expected_repay_account: &[u8; 32],
    declared_collateral_vault: &[u8; 32],
    expected_collateral_vault: &[u8; 32],
    asset_lender_account: &[u8; 32],
    collateral_borrower_account: &[u8; 32],
    asset_mint: &[u8; 32],
    collateral_mint: &[u8; 32],
    pool_data: &[u8],
    loan_data: &[u8],
    computation_offset: u32,
    transfer_id: u32,
    registry: &mut SettlementRegistry,
) -> (r: Result<RepayRequest, SettlementError>)
    requires
        old(registry).well_formed(),
    ensures
        final(registry).well_formed(),
        r is Err ==> final(registry).entries@ == old(registry).entries@,
        r is Ok && !has_id(old(registry).entries@, transfer_id) ==> final(registry).entries@
            =~= old(registry).entries@.push((transfer_id, SettlementStatus::Requested)),
        r is Ok && has_id(old(registry).entries@, transfer_id) ==> final(registry).entries@ == old(
            registry,
        ).entries@,
        ({
            let addr_ok = repay_addresses_ok(
                lender@,
                borrower@,
                program_id@,
                declared_pool@,
                pool_owner@,
                declared_loan@,
                (declared_collateral_vault@, expected_collateral_vault@),
                (declared_repay_account@, expected_repay_account@),
            );
            let wf = pool_bytes_well_formed(pool_data@) && loan_bytes_well_formed(loan_data@);
            &&& (r == Err::<RepayRequest, SettlementError>(SettlementError::AuthorizationError)
                <==> !borrower_signed)
            &&& (r == Err::<RepayRequest, SettlementError>(SettlementError::AddressMismatch)
                <==> borrower_signed && !addr_ok)
            &&& (r == Err::<RepayRequest, SettlementError>(SettlementError::DeserializationError)
                <==> borrower_signed && addr_ok && !wf)
            &&& (r is Ok <==> borrower_signed && addr_ok && wf)
        }),
        r matches Ok(req) ==> ({
            &&& req.computation_offset == computation_offset
            &&& req.transfer_id == transfer_id
            &&& req.encrypted_principal.bytes@ == loan_data@.subrange(65, 97)
            &&& req.slots_elapsed == REPAY_SLOTS_ELAPSED
            &&& req.interest_rate_bps == u16_of_le(pool_data@.subrange(96, 98))
            &&& req.asset_leg.source@ == declared_repay_account@
            &&& req.asset_leg.destination@ == asset_lender_account@
            &&& req.asset_leg.mint@ == asset_mint@
            &&& req.collateral_leg.source@ == declared_collateral_vault@
            &&& req.collateral_leg.destination@ == collateral_borrower_account@
            &&& req.collateral_leg.mint@ == collateral_mint@
            &&& (spec_loan_pda(lender@, borrower@, program_id@) matches Some(p) && p.1
                == req.loan_bump)
        }),
{
    if !borrower_signed {
        return Err(SettlementError::AuthorizationError);
    }
    if let Err(e) = check_lending_pool(
        lender,
        program_id,
        declared_pool,
        pool_owner,
        program_id,
        None,
    ) {
        return Err(e);
    }
    let (_, loan_bump) = match check_loan(
        lender,
        borrower,
        program_id,
        declared_loan,
        (declared_collateral_vault, expected_collateral_vault),
        Some((declared_repay_account, expected_repay_account)),
    ) {
        Ok(p) => p,
        Err(e) => {
            return Err(e);
        },
    };
    let pool = match decode_lending_pool(pool_data) {
        Ok(p) => p,
        Err(e) => {
            return Err(e);
        },
    };
    let loan = match decode_loan(loan_data) {
        Ok(l) => l,
        Err(e) => {
            return Err(e);
        },
    };
    proof {
        assert(loan_data@.subrange(65, 97) =~= loan.encrypted_principal.bytes@);
    }
    registry.register(transfer_id);
    Ok(
        RepayRequest {
            computation_offset,
            transfer_id,
            encrypted_principal: loan.encrypted_principal,
            slots_elapsed: REPAY_SLOTS_ELAPSED,
            interest_rate_bps: pool.interest_rate_bps,
            asset_leg: TransferLeg {
                source: *declared_repay_account,
                destination: *asset_lender_account,
                mint: *asset_mint,
            },
            collateral_leg: TransferLeg {
                source: *declared_collateral_vault,
                destination: *collateral_borrower_account,
                mint: *collateral_mint,
            },
            loan_bump,
        },
    )
}

/// The loan record a repay callback stores: the stored record with the new
/// encrypted remaining principal, active exactly while the revealed
/// fully-repaid flag is off, everything else unchanged.
pub open spec fn repay_callback_loan(l: Loan, d: Seq<u8>, out: Seq<u8>) -> bool {
    &&& l.borrower@ == d.subrange(0, 32)
    &&& l.lending_pool@ == d.subrange(32, 64)
    &&& (l.active <==> out[32] == 0)
    &&& l.encrypted_principal.bytes@ == out.subrange(0, 32)
    &&& l.encrypted_collateral.bytes@ == d.subrange(97, 129)
    &&& l.last_update_slot == u64_of_le(d.subrange(129, 137))
}

/// The byte strings a repay result decodes from: a ciphertext followed by the
/// revealed fully-repaid flag.
pub open spec fn repay_output_well_formed(out: Seq<u8>) -> bool {
    out.len() == 33 && (out[32] == 0 || out[32] == 1)
}

/// Applies the result of a repay settlement (phase two): stores the
/// re-encrypted remaining due as the loan's principal and flips the activity
/// flag off exactly when the loan is fully repaid, at most once per transfer
/// correlation id.
pub fn process_repay_callback(
    lender: &[u8; 32],
    borrower: &[u8; 32],
    program_id: &[u8; 32],
    declared_loan: &[u8; 32],
    loan_data: &[u8],
    computation_output: Option<&Vec<u8>>,
    transfer_id: u32,
    registry: &mut SettlementRegistry,
) -> (r: Result<LoanCallbackOutcome, SettlementError>)
    requires
        old(registry).well_formed(),
    ensures
        final(registry).well_formed(),
        r is Err ==> final(registry).entries@ == old(registry).entries@,
        r matches Ok(o) ==> fulfill_transition(
            old(registry).entries@,
            final(registry).entries@,
            transfer_id,
            o matches LoanCallbackOutcome::Applied(_),
        ),
        ({
            let addr_ok = callback_address_ok(lender@, borrower@, program_id@, declared_loan@);
            &&& (r == Err::<LoanCallbackOutcome, SettlementError>(SettlementError::AddressMismatch)
                <==> !addr_ok)
            &&& (r == Err::<LoanCallbackOutcome, SettlementError>(
                SettlementError::ComputationOutputMissing,
            ) <==> addr_ok && computation_output is None)
            &&& (r == Err::<LoanCallbackOutcome, SettlementError>(
                SettlementError::DeserializationError,
            ) <==> (addr_ok && (computation_output matches Some(out) && !(loan_bytes_well_formed(
                loan_data@,
            ) && repay_output_well_formed(out@)))))
            &&& (r is Ok <==> (addr_ok && (computation_output matches Some(out)
                && loan_bytes_well_formed(loan_data@) && repay_output_well_formed(out@))))
            &&& (r == Ok::<LoanCallbackOutcome, SettlementError>(
                LoanCallbackOutcome::AlreadySettled,
            ) <==> (r is Ok && !id_has_status(
                old(registry).entries@,
                transfer_id,
                SettlementStatus::Requested,
            )))
        }),
        r matches Ok(o) ==> (o matches LoanCallbackOutcome::Applied(l) ==> (
        computation_output matches Some(out) && repay_callback_loan(l, loan_data@, out@))),
{
    match loan_pda(lender, borrower, program_id) {
        Some((pda, _)) => {
            if !bytes32_eq(declared_loan, &pda) {
                return Err(SettlementError::AddressMismatch);
            }
        },
        None => {
            return Err(SettlementError::AddressMismatch);
        },
    }
    let out = match computation_output {
        Some(o) => o,
        None => {
            return Err(SettlementError::ComputationOutputMissing);
        },
    };
    let stored = match decode_loan(loan_data) {
        Ok(l) => l,
        Err(e) => {
            return Err(e);
        },
    };
    if out.len() != 33 {
        return Err(SettlementError::DeserializationError);
    }
    let flag = out[32];
    if flag > 1 {
        return Err(SettlementError::DeserializationError);
    }
    if !registry.try_fulfill(transfer_id) {
        return Ok(LoanCallbackOutcome::AlreadySettled);
    }
    let fully_repaid = flag == 1;
    let new_principal = read_bytes32(out.as_slice(), 0);
    let updated = Loan {
        borrower: stored.borrower,
        lending_pool: stored.lending_pool,
        active: !fully_repaid,
        encrypted_principal: Ciphertext { bytes: new_principal },
        encrypted_collateral: stored.encrypted_collateral,
        last_update_slot: stored.last_update_slot,
    };
    proof {
        let d = loan_data@;
        assert(d == spec_encode_loan(stored));
        assert(d.subrange(0, 32) =~= stored.borrower@);
        assert(d.subrange(32, 64) =~= stored.lending_pool@);
        assert(d.subrange(97, 129) =~= stored.encrypted_collateral.bytes@);
        assert(d.subrange(129, 137) =~= crate::codec::spec_u64_le(stored.last_update_slot));
        crate::codec::lemma_u64_le_value_round(stored.last_update_slot);
        assert(new_principal@ =~= out@.subrange(0, 32));
    }
    Ok(LoanCallbackOutcome::Applied(updated))
}

} // verus!
