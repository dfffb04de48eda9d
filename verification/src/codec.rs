//! Byte codec for the persisted records and the instruction payloads.
//!
//! Every record is a fixed-size structure: integers little-endian, 32-byte
//! values verbatim, booleans one byte holding zero or one, bounded lists as a
//! one-byte count followed by all capacity slots with unused slots zeroed.
//! Instruction payloads are tagged with a leading one-byte discriminant.
//! Decoding is strict: the whole input must be consumed and a malformed
//! payload is a typed `DeserializationError`, never a panic.

use crate::bytes::zero32;
use crate::errors::SettlementError;
use crate::state::{Ciphertext, Employee, LendingPool, Loan, Payroll, MAX_BORROWERS, MAX_EMPLOYEES};
use vstd::prelude::*;

verus! {

broadcast use vstd::array::group_array_axioms;

/// The little-endian bytes of a 16-bit value.
pub open spec fn spec_u16_le(v: u16) -> Seq<u8> {
    seq![(v % 0x100) as u8, ((v / 0x100) % 0x100) as u8]
}

/// The little-endian bytes of a 32-bit value.
pub open spec fn spec_u32_le(v: u32) -> Seq<u8> {
    seq![
        (v % 0x100) as u8,
        ((v / 0x100) % 0x100) as u8,
        ((v / 0x1_0000) % 0x100) as u8,
        ((v / 0x100_0000) % 0x100) as u8,
    ]
}

/// The little-endian bytes of a 64-bit value.
pub open spec fn spec_u64_le(v: u64) -> Seq<u8> {
    seq![
        (v % 0x100) as u8,
        ((v / 0x100) % 0x100) as u8,
        ((v / 0x1_0000) % 0x100) as u8,
        ((v / 0x100_0000) % 0x100) as u8,
        ((v / 0x1_0000_0000) % 0x100) as u8,
        ((v / 0x100_0000_0000) % 0x100) as u8,
        ((v / 0x1_0000_0000_0000) % 0x100) as u8,
        ((v / 0x100_0000_0000_0000) % 0x100) as u8,
    ]
}

/// The value of two little-endian bytes.
pub open spec fn u16_of_le(s: Seq<u8>) -> int {
    s[0] + 0x100 * s[1]
}

/// The value of four little-endian bytes.
pub open spec fn u32_of_le(s: Seq<u8>) -> int {
    s[0] + 0x100 * s[1] + 0x1_0000 * s[2] + 0x100_0000 * s[3]
}

/// The value of eight little-endian bytes.
pub open spec fn u64_of_le(s: Seq<u8>) -> int {
    s[0] + 0x100 * s[1] + 0x1_0000 * s[2] + 0x100_0000 * s[3] + 0x1_0000_0000 * s[4]
        + 0x100_0000_0000 * s[5] + 0x1_0000_0000_0000 * s[6] + 0x100_0000_0000_0000 * s[7]
}

pub(crate) fn push_bytes32(out: &mut Vec<u8>, b: &[u8; 32])
    ensures
        final(out)@ =~= old(out)@ + b@,
{
    let mut i: usize = 0;
    while i < 32
        invariant
            0 <= i <= 32,
            out@ =~= old(out)@ + b@.subrange(0, i as int),
        decreases 32 - i,
    {
        out.push(b[i]);
        proof {
            assert(out@ =~= old(out)@ + b@.subrange(0, i + 1 as int));
        }
        i = i + 1;
    }
    proof {
        assert(b@.subrange(0, 32) =~= b@);
    }
}

pub(crate) fn push_u16_le(out: &mut Vec<u8>, v: u16)
    ensures
        final(out)@ =~= old(out)@ + spec_u16_le(v),
{
    out.push((v % 0x100) as u8);
    out.push(((v / 0x100) % 0x100) as u8);
    proof {
        assert(out@ =~= old(out)@ + spec_u16_le(v));
    }
}

pub(crate) fn push_u32_le(out: &mut Vec<u8>, v: u32)
    ensures
        final(out)@ =~= old(out)@ + spec_u32_le(v),
{
    out.push((v % 0x100) as u8);
    out.push(((v / 0x100) % 0x100) as u8);
    out.push(((v / 0x1_0000) % 0x100) as u8);
    out.push(((v / 0x100_0000) % 0x100) as u8);
    proof {
        assert(out@ =~= old(out)@ + spec_u32_le(v));
    }
}

pub(crate) fn push_u64_le(out: &mut Vec<u8>, v: u64)
    ensures
        final(out)@ =~= old(out)@ + spec_u64_le(v),
{
    out.push((v % 0x100) as u8);
    out.push(((v / 0x100) % 0x100) as u8);
    out.push(((v / 0x1_0000) % 0x100) as u8);
    out.push(((v / 0x100_0000) % 0x100) as u8);
    out.push(((v / 0x1_0000_0000) % 0x100) as u8);
    out.push(((v / 0x100_0000_0000) % 0x100) as u8);
    out.push(((v / 0x1_0000_0000_0000) % 0x100) as u8);
    out.push(((v / 0x100_0000_0000_0000) % 0x100) as u8);
    proof {
        assert(out@ =~= old(out)@ + spec_u64_le(v));
    }
}

pub(crate) fn read_bytes32(data: &[u8], off: usize) -> (r: [u8; 32])
    requires
        off + 32 <= data@.len(),
    ensures
        r@ =~= data@.subrange(off as int, off as int + 32),
{
    let n = data.len();
    let mut r: [u8; 32] = [0u8; 32];
    let mut i: usize = 0;
    while i < 32
        invariant
            0 <= i <= 32,
            off + 32 <= n == data@.len(),
            forall|j: int| 0 <= j < i ==> r@[j] == data@[off + j],
        decreases 32 - i,
    {
        r[i] = data[off + i];
        i = i + 1;
    }
    proof {
        assert(r@ =~= data@.subrange(off as int, off as int + 32));
    }
    r
}

pub(crate) fn read_u16_le(data: &[u8], off: usize) -> (r: u16)
    requires
        off + 2 <= data@.len(),
    ensures
        r == u16_of_le(data@.subrange(off as int, off as int + 2)),
{
    let n = data.len();
    proof {
        assert(off + 2 <= n);
    }
    let lo = data[off];
    let hi = data[off + 1];
    let r = (lo as u16) + 0x100 * (hi as u16);
    proof {
        let s = data@.subrange(off as int, off as int + 2);
        assert(s[0] == lo && s[1] == hi);
    }
    r
}

pub(crate) fn read_u32_le(data: &[u8], off: usize) -> (r: u32)
    requires
        off + 4 <= data@.len(),
    ensures
        r == u32_of_le(data@.subrange(off as int, off as int + 4)),
{
    let n = data.len();
    proof {
        assert(off + 4 <= n);
    }
    let b0 = data[off] as u32;
    let b1 = data[off + 1] as u32;
    let b2 = data[off + 2] as u32;
    let b3 = data[off + 3] as u32;
    let r = b0 + 0x100 * b1 + 0x1_0000 * b2 + 0x100_0000 * b3;
    proof {
        let s = data@.subrange(off as int, off as int + 4);
        assert(s[0] == b0 && s[1] == b1 && s[2] == b2 && s[3] == b3);
    }
    r
}

pub(crate) fn read_u64_le(data: &[u8], off: usize) -> (r: u64)
    requires
        off + 8 <= data@.len(),
    ensures
        r == u64_of_le(data@.subrange(off as int, off as int + 8)),
{
    let n = data.len();
    proof {
        assert(off + 8 <= n);
    }
    let b0 = data[off] as u64;
    let b1 = data[off + 1] as u64;
    let b2 = data[off + 2] as u64;
    let b3 = data[off + 3] as u64;
    let b4 = data[off + 4] as u64;
    let b5 = data[off + 5] as u64;
    let b6 = data[off + 6] as u64;
    let b7 = data[off + 7] as u64;
    let r = b0 + 0x100 * b1 + 0x1_0000 * b2 + 0x100_0000 * b3 + 0x1_0000_0000 * b4
        + 0x100_0000_0000 * b5 + 0x1_0000_0000_0000 * b6 + 0x100_0000_0000_0000 * b7;
    proof {
        let s = data@.subrange(off as int, off as int + 8);
        assert(s[0] == b0 && s[1] == b1 && s[2] == b2 && s[3] == b3 && s[4] == b4 && s[5] == b5
            && s[6] == b6 && s[7] == b7);
    }
    r
}

/// `n` zero bytes.
pub open spec fn zero_bytes(n: int) -> Seq<u8> {
    Seq::new(n as nat, |i: int| 0u8)
}

/// The concatenation of a list of 32-byte keys.
pub open spec fn keys_bytes(s: Seq<[u8; 32]>) -> Seq<u8>
    decreases s.len(),
{
    if s.len() == 0 {
        Seq::empty()
    } else {
        keys_bytes(s.drop_last()) + s.last()@
    }
}

proof fn lemma_keys_bytes_len(s: Seq<[u8; 32]>)
    ensures
        keys_bytes(s).len() == 32 * s.len(),
    decreases s.len(),
{
    if s.len() > 0 {
        lemma_keys_bytes_len(s.drop_last());
    }
}

/// Size of an encoded lending pool record.
pub const POOL_RECORD_LEN: usize = 359;

/// The exact bytes of a pool record: the three identities, the three
/// fixed-point terms, the borrower count, and all capacity slots with unused
/// slots zeroed.
pub open spec fn spec_encode_lending_pool(p: LendingPool) -> Seq<u8> {
    p.lender@ + p.asset_mint@ + p.collateral_mint@ + spec_u16_le(p.interest_rate_bps)
        + spec_u16_le(p.loan_to_value_bps) + spec_u16_le(p.collateral_threshold_bps)
        + seq![p.borrowers@.len() as u8] + keys_bytes(p.borrowers@) + zero_bytes(
        32 * (MAX_BORROWERS - p.borrowers@.len()),
    )
}

/// Serializes a pool record.
pub fn encode_lending_pool(p: &LendingPool) -> (r: Vec<u8>)
    requires
        p.well_formed(),
    ensures
        r@ == spec_encode_lending_pool(*p),
        r@.len() == POOL_RECORD_LEN,
{
    let mut out: Vec<u8> = Vec::new();
    push_bytes32(&mut out, &p.lender);
    push_bytes32(&mut out, &p.asset_mint);
    push_bytes32(&mut out, &p.collateral_mint);
    push_u16_le(&mut out, p.interest_rate_bps);
    push_u16_le(&mut out, p.loan_to_value_bps);
    push_u16_le(&mut out, p.collateral_threshold_bps);
    let num = p.borrowers.len();
    out.push(num as u8);
    let ghost prefix = out@;
    let mut i: usize = 0;
    while i < num
        invariant
            0 <= i <= num,
            num == p.borrowers@.len() <= MAX_BORROWERS,
            out@ =~= prefix + keys_bytes(p.borrowers@.take(i as int)),
        decreases num - i,
    {
        push_bytes32(&mut out, &p.borrowers[i]);
        proof {
            assert(p.borrowers@.take(i + 1 as int).drop_last() =~= p.borrowers@.take(i as int));
            assert(p.borrowers@.take(i + 1 as int).last() == p.borrowers@[i as int]);
            assert(out@ =~= prefix + keys_bytes(p.borrowers@.take(i + 1 as int)));
        }
        i = i + 1;
    }
    proof {
        assert(p.borrowers@.take(num as int) =~= p.borrowers@);
    }
    let mut k: usize = num;
    while k < MAX_BORROWERS
        invariant
            num <= k <= MAX_BORROWERS,
            num == p.borrowers@.len(),
            out@ =~= prefix + keys_bytes(p.borrowers@) + zero_bytes(32 * (k - num)),
        decreases MAX_BORROWERS - k,
    {
        let z = zero32();
        push_bytes32(&mut out, &z);
        proof {
            assert(zero_bytes(32 * (k + 1 - num)) =~= zero_bytes(32 * (k - num))
                + crate::bytes::zero32_seq());
            assert(out@ =~= prefix + keys_bytes(p.borrowers@) + zero_bytes(32 * (k + 1 - num)));
        }
        k = k + 1;
    }
    proof {
        lemma_keys_bytes_len(p.borrowers@);
        assert(out@ =~= spec_encode_lending_pool(*p));
    }
    out
}

/// The byte strings a pool record decodes from.
pub open spec fn pool_bytes_well_formed(d: Seq<u8>) -> bool {
    d.len() == POOL_RECORD_LEN && d[102] <= MAX_BORROWERS
}

/// Every field of `p` equals its position in the record image `d`.
pub open spec fn pool_matches_bytes(p: LendingPool, d: Seq<u8>) -> bool {
    &&& p.lender@ == d.subrange(0, 32)
    &&& p.asset_mint@ == d.subrange(32, 64)
    &&& p.collateral_mint@ == d.subrange(64, 96)
    &&& p.interest_rate_bps == u16_of_le(d.subrange(96, 98))
    &&& p.loan_to_value_bps == u16_of_le(d.subrange(98, 100))
    &&& p.collateral_threshold_bps == u16_of_le(d.subrange(100, 102))
    &&& p.borrowers@.len() == d[102]
    &&& forall|k: int|
        0 <= k < p.borrowers@.len() ==> p.borrowers@[k]@ == d.subrange(103 + 32 * k, 135 + 32 * k)
    &&& p.well_formed()
}

/// Parses a pool record. Succeeds exactly on a record-sized input whose
/// borrower count is within capacity, and then every field equals its
/// position in the input.
pub fn decode_lending_pool(data: &[u8]) -> (r: Result<LendingPool, SettlementError>)
    ensures
        r is Ok <==> pool_bytes_well_formed(data@),
        r matches Ok(p) ==> pool_matches_bytes(p, data@),
        r is Err ==> r == Err::<LendingPool, SettlementError>(SettlementError::DeserializationError),
{
    if data.len() != POOL_RECORD_LEN {
        return Err(SettlementError::DeserializationError);
    }
    let num = data[102] as usize;
    if num > MAX_BORROWERS {
        return Err(SettlementError::DeserializationError);
    }
    let lender = read_bytes32(data, 0);
    let asset_mint = read_bytes32(data, 32);
    let collateral_mint = read_bytes32(data, 64);
    let interest_rate_bps = read_u16_le(data, 96);
    let loan_to_value_bps = read_u16_le(data, 98);
    let collateral_threshold_bps = read_u16_le(data, 100);
    let mut borrowers: Vec<[u8; 32]> = Vec::new();
    let mut i: usize = 0;
    while i < num
        invariant
            0 <= i <= num,
            num <= MAX_BORROWERS,
            data@.len() == POOL_RECORD_LEN,
            borrowers@.len() == i,
            forall|k: int|
                0 <= k < i ==> borrowers@[k]@ == data@.subrange(103 + 32 * k, 135 + 32 * k),
        decreases num - i,
    {
        let b = read_bytes32(data, 103 + 32 * i);
        borrowers.push(b);
        i = i + 1;
    }
    Ok(
        LendingPool {
            lender,
            asset_mint,
            collateral_mint,
            interest_rate_bps,
            loan_to_value_bps,
            collateral_threshold_bps,
            borrowers,
        },
    )
}

/// Size of an encoded loan record.
pub const LOAN_RECORD_LEN: usize = 137;

/// The exact bytes of a loan record.
pub open spec fn spec_encode_loan(l: Loan) -> Seq<u8> {
    l.borrower@ + l.lending_pool@ + seq![(if l.active { 1u8 } else { 0u8 })]
        + l.encrypted_principal.bytes@ + l.encrypted_collateral.bytes@ + spec_u64_le(
        l.last_update_slot,
    )
}

/// Serializes a loan record.
pub fn encode_loan(l: &Loan) -> (r: Vec<u8>)
    ensures
        r@ == spec_encode_loan(*l),
        r@.len() == LOAN_RECORD_LEN,
{
    let mut out: Vec<u8> = Vec::new();
    push_bytes32(&mut out, &l.borrower);
    push_bytes32(&mut out, &l.lending_pool);
    out.push(if l.active { 1u8 } else { 0u8 });
    push_bytes32(&mut out, &l.encrypted_principal.bytes);
    push_bytes32(&mut out, &l.encrypted_collateral.bytes);
    push_u64_le(&mut out, l.last_update_slot);
    proof {
        assert(out@ =~= spec_encode_loan(*l));
    }
    out
}

/// The byte strings a loan record decodes from.
pub open spec fn loan_bytes_well_formed(d: Seq<u8>) -> bool {
    d.len() == LOAN_RECORD_LEN && (d[64] == 0 || d[64] == 1)
}

/// Parses a loan record. Succeeds exactly on a record-sized input whose
/// activity byte is zero or one, and then the input is exactly the returned
/// record's encoding.
pub fn decode_loan(data: &[u8]) -> (r: Result<Loan, SettlementError>)
    ensures
        r is Ok <==> loan_bytes_well_formed(data@),
        r matches Ok(l) ==> data@ == spec_encode_loan(l),
        r is Err ==> r == Err::<Loan, SettlementError>(SettlementError::DeserializationError),
{
    if data.len() != LOAN_RECORD_LEN {
        return Err(SettlementError::DeserializationError);
    }
    let active_byte = data[64];
    if active_byte > 1 {
        return Err(SettlementError::DeserializationError);
    }
    let l = Loan {
        borrower: read_bytes32(data, 0),
        lending_pool: read_bytes32(data, 32),
        active: active_byte == 1,
        encrypted_principal: Ciphertext { bytes: read_bytes32(data, 65) },
        encrypted_collateral: Ciphertext { bytes: read_bytes32(data, 97) },
        last_update_slot: read_u64_le(data, 129),
    };
    proof {
        lemma_u64_le_of_value(data@.subrange(129, 137));
        assert(data@ =~= spec_encode_loan(l));
    }
    Ok(l)
}

/// Re-encoding the value of eight little-endian bytes gives the bytes back.
#[verifier::rlimit(50)]
proof fn lemma_u64_le_of_value(s: Seq<u8>)
    requires
        s.len() == 8,
    ensures
        spec_u64_le(u64_of_le(s) as u64) =~= s,
{
    let v = u64_of_le(s);
    assert(0 <= v < 0x1_0000_0000_0000_0000);
    assert(v / 0x100 == s[1] + 0x100 * s[2] + 0x1_0000 * s[3] + 0x100_0000 * s[4]
        + 0x1_0000_0000 * s[5] + 0x100_0000_0000 * s[6] + 0x1_0000_0000_0000 * s[7]);
    assert(v / 0x1_0000 == s[2] + 0x100 * s[3] + 0x1_0000 * s[4] + 0x100_0000 * s[5]
        + 0x1_0000_0000 * s[6] + 0x100_0000_0000 * s[7]);
    assert(v / 0x100_0000 == s[3] + 0x100 * s[4] + 0x1_0000 * s[5] + 0x100_0000 * s[6]
        + 0x1_0000_0000 * s[7]);
    assert(v / 0x1_0000_0000 == s[4] + 0x100 * s[5] + 0x1_0000 * s[6] + 0x100_0000 * s[7]);
    assert(v / 0x100_0000_0000 == s[5] + 0x100 * s[6] + 0x1_0000 * s[7]);
    assert(v / 0x1_0000_0000_0000 == s[6] + 0x100 * s[7]);
    assert(v / 0x100_0000_0000_0000 == s[7]);
    assert(v % 0x100 == s[0]);
}

/// Reading back the little-endian bytes of a 64-bit value gives the value.
#[verifier::rlimit(50)]
pub proof fn lemma_u64_le_value_round(v: u64)
    ensures
        u64_of_le(spec_u64_le(v)) == v,
{
    let x = v as int;
    let q1 = x / 0x100;
    let q2 = x / 0x1_0000;
    let q3 = x / 0x100_0000;
    let q4 = x / 0x1_0000_0000;
    let q5 = x / 0x100_0000_0000;
    let q6 = x / 0x1_0000_0000_0000;
    let q7 = x / 0x100_0000_0000_0000;
    vstd::arithmetic::div_mod::lemma_div_denominator(x, 0x100, 0x100);
    vstd::arithmetic::div_mod::lemma_div_denominator(x, 0x1_0000, 0x100);
    vstd::arithmetic::div_mod::lemma_div_denominator(x, 0x100_0000, 0x100);
    vstd::arithmetic::div_mod::lemma_div_denominator(x, 0x1_0000_0000, 0x100);
    vstd::arithmetic::div_mod::lemma_div_denominator(x, 0x100_0000_0000, 0x100);
    vstd::arithmetic::div_mod::lemma_div_denominator(x, 0x1_0000_0000_0000, 0x100);
    assert(q1 / 0x100 == q2 && q2 / 0x100 == q3 && q3 / 0x100 == q4 && q4 / 0x100 == q5 && q5
        / 0x100 == q6 && q6 / 0x100 == q7);
    assert(x == 0x100 * q1 + x % 0x100);
    assert(q1 == 0x100 * q2 + q1 % 0x100);
    assert(q2 == 0x100 * q3 + q2 % 0x100);
    assert(q3 == 0x100 * q4 + q3 % 0x100);
    assert(q4 == 0x100 * q5 + q4 % 0x100);
    assert(q5 == 0x100 * q6 + q5 % 0x100);
    assert(q6 == 0x100 * q7 + q6 % 0x100);
    assert(0 <= q7 < 0x100);
    assert(q7 % 0x100 == q7);
}

/// Size of one encoded payroll entry.
pub const EMPLOYEE_ENTRY_LEN: usize = 80;

/// Size of an encoded payroll record.
pub const PAYROLL_RECORD_LEN: usize = 705;

/// The exact bytes of one payroll entry.
pub open spec fn entry_bytes(e: Employee) -> Seq<u8> {
    e.key@ + e.encrypted_salary.bytes@ + spec_u64_le(e.last_claimed_slot) + spec_u64_le(
        e.previous_claimed_slot,
    )
}

/// The concatenation of a list of payroll entries.
pub open spec fn employees_bytes(s: Seq<Employee>) -> Seq<u8>
    decreases s.len(),
{
    if s.len() == 0 {
        Seq::empty()
    } else {
        employees_bytes(s.drop_last()) + entry_bytes(s.last())
    }
}

proof fn lemma_employees_bytes_len(s: Seq<Employee>)
    ensures
        employees_bytes(s).len() == 80 * s.len(),
    decreases s.len(),
{
    if s.len() > 0 {
        lemma_employees_bytes_len(s.drop_last());
    }
}

/// The exact bytes of a payroll record: the two identities, the employee
/// count, and all capacity slots with unused slots zeroed.
pub open spec fn spec_encode_payroll(p: Payroll) -> Seq<u8> {
    p.employer@ + p.mint@ + seq![p.employees@.len() as u8] + employees_bytes(p.employees@)
        + zero_bytes(80 * (MAX_EMPLOYEES - p.employees@.len()))
}

fn push_employee(out: &mut Vec<u8>, e: &Employee)
    ensures
        final(out)@ =~= old(out)@ + entry_bytes(*e),
{
    push_bytes32(out, &e.key);
    push_bytes32(out, &e.encrypted_salary.bytes);
    push_u64_le(out, e.last_claimed_slot);
    push_u64_le(out, e.previous_claimed_slot);
    proof {
        assert(out@ =~= old(out)@ + entry_bytes(*e));
    }
}

/// Serializes a payroll record.
pub fn encode_payroll(p: &Payroll) -> (r: Vec<u8>)
    requires
        p.well_formed(),
    ensures
        r@ == spec_encode_payroll(*p),
        r@.len() == PAYROLL_RECORD_LEN,
{
    let mut out: Vec<u8> = Vec::new();
    push_bytes32(&mut out, &p.employer);
    push_bytes32(&mut out, &p.mint);
    let num = p.employees.len();
    out.push(num as u8);
    let ghost prefix = out@;
    let mut i: usize = 0;
    while i < num
        invariant
            0 <= i <= num,
            num == p.employees@.len() <= MAX_EMPLOYEES,
            out@ =~= prefix + employees_bytes(p.employees@.take(i as int)),
        decreases num - i,
    {
        push_employee(&mut out, &p.employees[i]);
        proof {
            assert(p.employees@.take(i + 1 as int).drop_last() =~= p.employees@.take(i as int));
            assert(p.employees@.take(i + 1 as int).last() == p.employees@[i as int]);
            assert(out@ =~= prefix + employees_bytes(p.employees@.take(i + 1 as int)));
        }
        i = i + 1;
    }
    proof {
        assert(p.employees@.take(num as int) =~= p.employees@);
    }
    let ghost filled = out@;
    let mut k: usize = num;
    while k < MAX_EMPLOYEES
        invariant
            num <= k <= MAX_EMPLOYEES,
            num == p.employees@.len(),
            out@ =~= filled + zero_bytes(80 * (k - num)),
        decreases MAX_EMPLOYEES - k,
    {
        let z = zero32();
        push_bytes32(&mut out, &z);
        push_bytes32(&mut out, &z);
        let zero_slot: u64 = 0;
        push_u64_le(&mut out, zero_slot);
        push_u64_le(&mut out, zero_slot);
        proof {
            assert(out@ =~= filled + zero_bytes(80 * (k + 1 - num)));
        }
        k = k + 1;
    }
    proof {
        lemma_employees_bytes_len(p.employees@);
        assert(out@ =~= spec_encode_payroll(*p));
    }
    out
}

/// The byte strings a payroll record decodes from.
pub open spec fn payroll_bytes_well_formed(d: Seq<u8>) -> bool {
    d.len() == PAYROLL_RECORD_LEN && d[64] <= MAX_EMPLOYEES
}

/// Every field of every listed entry of `p` equals its position in the
/// record image `d`.
pub open spec fn payroll_matches_bytes(p: Payroll, d: Seq<u8>) -> bool {
    &&& p.employer@ == d.subrange(0, 32)
    &&& p.mint@ == d.subrange(32, 64)
    &&& p.employees@.len() == d[64]
    &&& forall|k: int| 0 <= k < p.employees@.len() ==> entry_matches_bytes(#[trigger] p.employees@[k], d, k)
    &&& p.well_formed()
}

/// Entry `e` equals the `k`-th capacity slot of the record image `d`.
pub open spec fn entry_matches_bytes(e: Employee, d: Seq<u8>, k: int) -> bool {
    &&& e.key@ == d.subrange(65 + 80 * k, 97 + 80 * k)
    &&& e.encrypted_salary.bytes@ == d.subrange(97 + 80 * k, 129 + 80 * k)
    &&& e.last_claimed_slot == u64_of_le(d.subrange(129 + 80 * k, 137 + 80 * k))
    &&& e.previous_claimed_slot == u64_of_le(d.subrange(137 + 80 * k, 145 + 80 * k))
}

/// Parses a payroll record. Succeeds exactly on a record-sized input whose
/// employee count is within capacity, and then every field of every listed
/// entry equals its position in the input.
pub fn decode_payroll(data: &[u8]) -> (r: Result<Payroll, SettlementError>)
    ensures
        r is Ok <==> payroll_bytes_well_formed(data@),
        r matches Ok(p) ==> payroll_matches_bytes(p, data@),
        r is Err ==> r == Err::<Payroll, SettlementError>(SettlementError::DeserializationError),
{
    if data.len() != PAYROLL_RECORD_LEN {
        return Err(SettlementError::DeserializationError);
    }
    let num = data[64] as usize;
    if num > MAX_EMPLOYEES {
        return Err(SettlementError::DeserializationError);
    }
    let employer = read_bytes32(data, 0);
    let mint = read_bytes32(data, 32);
    let mut employees: Vec<Employee> = Vec::new();
    let mut i: usize = 0;
    while i < num
        invariant
            0 <= i <= num,
            num <= MAX_EMPLOYEES,
            data@.len() == PAYROLL_RECORD_LEN,
            employees@.len() == i,
            forall|k: int|
                0 <= k < i ==> ({
                    &&& employees@[k].key@ == data@.subrange(65 + 80 * k, 97 + 80 * k)
                    &&& employees@[k].encrypted_salary.bytes@ == data@.subrange(
                        97 + 80 * k,
                        129 + 80 * k,
                    )
                    &&& employees@[k].last_claimed_slot == u64_of_le(
                        data@.subrange(129 + 80 * k, 137 + 80 * k),
                    )
                    &&& employees@[k].previous_claimed_slot == u64_of_le(
                        data@.subrange(137 + 80 * k, 145 + 80 * k),
                    )
                }),
        decreases num - i,
    {
        let base = 65 + 80 * i;
        let e = Employee {
            key: read_bytes32(data, base),
            encrypted_salary: Ciphertext { bytes: read_bytes32(data, base + 32) },
            last_claimed_slot: read_u64_le(data, base + 64),
            previous_claimed_slot: read_u64_le(data, base + 72),
        };
        employees.push(e);
        i = i + 1;
    }
    Ok(Payroll { employer, mint, employees })
}


proof fn lemma_keys_bytes_index(s: Seq<[u8; 32]>, k: int)
    requires
        0 <= k < s.len(),
    ensures
        keys_bytes(s).subrange(32 * k, 32 * k + 32) =~= s[k]@,
    decreases s.len(),
{
    lemma_keys_bytes_len(s);
    lemma_keys_bytes_len(s.drop_last());
    if k == s.len() - 1 {
        assert(keys_bytes(s).subrange(32 * k, 32 * k + 32) =~= s[k]@);
    } else {
        lemma_keys_bytes_index(s.drop_last(), k);
        assert(keys_bytes(s).subrange(32 * k, 32 * k + 32) =~= keys_bytes(
            s.drop_last(),
        ).subrange(32 * k, 32 * k + 32));
    }
}

/// Reading back the little-endian bytes of a 16-bit value gives the value.
proof fn lemma_u16_le_value_round(v: u16)
    ensures
        u16_of_le(spec_u16_le(v)) == v,
{
}

/// Law: the store reads back what it wrote. The image of a well-formed pool
/// decodes, and any pool matching that image carries exactly the written
/// fields.
pub proof fn lemma_pool_codec_round_trip(p: LendingPool, q: LendingPool)
    requires
        p.well_formed(),
        pool_matches_bytes(q, spec_encode_lending_pool(p)),
    ensures
        pool_bytes_well_formed(spec_encode_lending_pool(p)),
        q.lender@ == p.lender@,
        q.asset_mint@ == p.asset_mint@,
        q.collateral_mint@ == p.collateral_mint@,
        q.interest_rate_bps == p.interest_rate_bps,
        q.loan_to_value_bps == p.loan_to_value_bps,
        q.collateral_threshold_bps == p.collateral_threshold_bps,
        q.borrowers@.len() == p.borrowers@.len(),
        forall|k: int| 0 <= k < p.borrowers@.len() ==> q.borrowers@[k]@ == p.borrowers@[k]@,
{
    let d = spec_encode_lending_pool(p);
    lemma_keys_bytes_len(p.borrowers@);
    assert(d.len() == POOL_RECORD_LEN);
    assert(d[102] == p.borrowers@.len() as u8);
    assert(d.subrange(0, 32) =~= p.lender@);
    assert(d.subrange(32, 64) =~= p.asset_mint@);
    assert(d.subrange(64, 96) =~= p.collateral_mint@);
    assert(d.subrange(96, 98) =~= spec_u16_le(p.interest_rate_bps));
    assert(d.subrange(98, 100) =~= spec_u16_le(p.loan_to_value_bps));
    assert(d.subrange(100, 102) =~= spec_u16_le(p.collateral_threshold_bps));
    lemma_u16_le_value_round(p.interest_rate_bps);
    lemma_u16_le_value_round(p.loan_to_value_bps);
    lemma_u16_le_value_round(p.collateral_threshold_bps);
    assert forall|k: int| 0 <= k < p.borrowers@.len() implies q.borrowers@[k]@
        == p.borrowers@[k]@ by {
        lemma_keys_bytes_index(p.borrowers@, k);
        assert(d.subrange(103 + 32 * k, 135 + 32 * k) =~= keys_bytes(p.borrowers@).subrange(
            32 * k,
            32 * k + 32,
        ));
    }
}

/// Law: the store reads back what it wrote. The image of a loan decodes, and
/// any loan matching that image carries exactly the written fields.
pub proof fn lemma_loan_codec_round_trip(l: Loan, m: Loan)
    requires
        spec_encode_loan(m) == spec_encode_loan(l),
    ensures
        loan_bytes_well_formed(spec_encode_loan(l)),
        m.borrower@ == l.borrower@,
        m.lending_pool@ == l.lending_pool@,
        m.active == l.active,
        m.encrypted_principal.bytes@ == l.encrypted_principal.bytes@,
        m.encrypted_collateral.bytes@ == l.encrypted_collateral.bytes@,
        m.last_update_slot == l.last_update_slot,
{
    let d = spec_encode_loan(l);
    assert(d.len() == LOAN_RECORD_LEN);
    assert(d[64] == (if l.active { 1u8 } else { 0u8 }));
    assert(d[64] == (if m.active { 1u8 } else { 0u8 }));
    assert(d.subrange(0, 32) =~= l.borrower@ && d.subrange(0, 32) =~= m.borrower@);
    assert(d.subrange(32, 64) =~= l.lending_pool@ && d.subrange(32, 64) =~= m.lending_pool@);
    assert(d.subrange(65, 97) =~= l.encrypted_principal.bytes@ && d.subrange(65, 97)
        =~= m.encrypted_principal.bytes@);
    assert(d.subrange(97, 129) =~= l.encrypted_collateral.bytes@ && d.subrange(97, 129)
        =~= m.encrypted_collateral.bytes@);
    assert(d.subrange(129, 137) =~= spec_u64_le(l.last_update_slot) && d.subrange(129, 137)
        =~= spec_u64_le(m.last_update_slot));
    lemma_u64_le_value_round(l.last_update_slot);
    lemma_u64_le_value_round(m.last_update_slot);
}


proof fn lemma_employees_bytes_index(s: Seq<Employee>, k: int)
    requires
        0 <= k < s.len(),
    ensures
        employees_bytes(s).subrange(80 * k, 80 * k + 80) =~= entry_bytes(s[k]),
    decreases s.len(),
{
    lemma_employees_bytes_len(s);
    lemma_employees_bytes_len(s.drop_last());
    if k == s.len() - 1 {
        assert(employees_bytes(s).subrange(80 * k, 80 * k + 80) =~= entry_bytes(s[k]));
    } else {
        lemma_employees_bytes_index(s.drop_last(), k);
        assert(employees_bytes(s).subrange(80 * k, 80 * k + 80) =~= employees_bytes(
            s.drop_last(),
        ).subrange(80 * k, 80 * k + 80));
    }
}

/// Law: the store reads back what it wrote. The image of a well-formed
/// payroll decodes, and any payroll matching that image carries exactly the
/// written entries.
pub proof fn lemma_payroll_codec_round_trip(p: Payroll, q: Payroll)
    requires
        p.well_formed(),
        payroll_matches_bytes(q, spec_encode_payroll(p)),
    ensures
        payroll_bytes_well_formed(spec_encode_payroll(p)),
        q.employer@ == p.employer@,
        q.mint@ == p.mint@,
        q.employees@.len() == p.employees@.len(),
        forall|k: int|
            0 <= k < p.employees@.len() ==> ({
                &&& (#[trigger] q.employees@[k]).key@ == p.employees@[k].key@
                &&& q.employees@[k].encrypted_salary.bytes@
                    == p.employees@[k].encrypted_salary.bytes@
                &&& q.employees@[k].last_claimed_slot == p.employees@[k].last_claimed_slot
                &&& q.employees@[k].previous_claimed_slot == p.employees@[k].previous_claimed_slot
            }),
{
    let d = spec_encode_payroll(p);
    lemma_employees_bytes_len(p.employees@);
    assert(d.len() == PAYROLL_RECORD_LEN);
    assert(d[64] == p.employees@.len() as u8);
    assert(d.subrange(0, 32) =~= p.employer@);
    assert(d.subrange(32, 64) =~= p.mint@);
    assert forall|k: int| 0 <= k < p.employees@.len() implies ({
        &&& (#[trigger] q.employees@[k]).key@ == p.employees@[k].key@
        &&& q.employees@[k].encrypted_salary.bytes@ == p.employees@[k].encrypted_salary.bytes@
        &&& q.employees@[k].last_claimed_slot == p.employees@[k].last_claimed_slot
        &&& q.employees@[k].previous_claimed_slot == p.employees@[k].previous_claimed_slot
    }) by {
        lemma_employees_bytes_index(p.employees@, k);
        let e = p.employees@[k];
        let eb = entry_bytes(e);
        assert(d.subrange(65 + 80 * k, 145 + 80 * k) =~= employees_bytes(p.employees@).subrange(
            80 * k,
            80 * k + 80,
        ));
        assert(d.subrange(65 + 80 * k, 97 + 80 * k) =~= eb.subrange(0, 32));
        assert(d.subrange(97 + 80 * k, 129 + 80 * k) =~= eb.subrange(32, 64));
        assert(d.subrange(129 + 80 * k, 137 + 80 * k) =~= eb.subrange(64, 72));
        assert(d.subrange(137 + 80 * k, 145 + 80 * k) =~= eb.subrange(72, 80));
        assert(eb.subrange(0, 32) =~= e.key@);
        assert(eb.subrange(32, 64) =~= e.encrypted_salary.bytes@);
        assert(eb.subrange(64, 72) =~= spec_u64_le(e.last_claimed_slot));
        assert(eb.subrange(72, 80) =~= spec_u64_le(e.previous_claimed_slot));
        lemma_u64_le_value_round(e.last_claimed_slot);
        lemma_u64_le_value_round(e.previous_claimed_slot);
        assert(entry_matches_bytes(q.employees@[k], d, k));
    }
}

} // verus!
