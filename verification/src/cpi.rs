//! Cross-program invocations of the System program: the instruction each helper builds,
//! its account metas and its data bytes.
//!
//! Handing an instruction to the runtime (`invoke`, `invoke_signed`) is a syscall on raw
//! account memory, and funding an account with the rent-exempt minimum needs the Rent
//! sysvar read at run time; neither is done here. What this module fixes is everything
//! such a call carries: the program, the accounts with their flags, and the data.

use vstd::prelude::*;
use crate::borsh::{le32, le64, read_le32, read_le64, le32_round_trip, le64_round_trip, write_u32_le, write_u64_le, write_bytes};

verus! {

/// An account passed to an instruction, with its access flags.
#[derive(Clone, Copy)]
pub struct InstructionAccount {
    pub address: [u8; 32],
    pub is_writable: bool,
    pub is_signer: bool,
}

impl InstructionAccount {
    /// A writable account that also signs.
    pub fn writable_signer(address: [u8; 32]) -> (r: InstructionAccount)
        ensures
            r == (InstructionAccount { address, is_writable: true, is_signer: true }),
    {
        InstructionAccount { address, is_writable: true, is_signer: true }
    }

    /// A writable account that does not sign.
    pub fn writable(address: [u8; 32]) -> (r: InstructionAccount)
        ensures
            r == (InstructionAccount { address, is_writable: true, is_signer: false }),
    {
        InstructionAccount { address, is_writable: true, is_signer: false }
    }
}

/// A ready-to-invoke instruction for another program: its id, its accounts and its data.
pub struct CpiCall {
    pub program_id: [u8; 32],
    pub accounts: Vec<InstructionAccount>,
    pub data: Vec<u8>,
}

impl CpiCall {
    /// An instruction from its parts.
    pub fn new(program_id: [u8; 32], accounts: Vec<InstructionAccount>, data: Vec<u8>) -> (r: CpiCall)
        ensures
            r.program_id == program_id,
            r.accounts@ == accounts@,
            r.data@ == data@,
    {
        CpiCall { program_id, accounts, data }
    }
}

/// The System program's id: 32 zero bytes (`11111111111111111111111111111111`).
pub open spec fn system_program_id() -> Seq<u8> {
    Seq::new(32, |i: int| 0u8)
}

/// Marker type for the System program.
pub struct System;

impl System {
    /// The System program's id.
    pub fn id() -> (r: [u8; 32])
        ensures
            r@ == system_program_id(),
    {
        let id = [0u8; 32];
        assert(id@ =~= system_program_id());
        id
    }
}

/// The data of `CreateAccount`: discriminator 0, lamports, space, owner.
pub open spec fn create_account_data(lamports: u64, space: u64, owner: Seq<u8>) -> Seq<u8> {
    le32(0) + le64(lamports) + le64(space) + owner
}

/// The data of `Assign`: discriminator 1, owner.
pub open spec fn assign_data(owner: Seq<u8>) -> Seq<u8> {
    le32(1) + owner
}

/// The data of `Transfer`: discriminator 2, lamports.
pub open spec fn transfer_data(lamports: u64) -> Seq<u8> {
    le32(2) + le64(lamports)
}

fn zeroed(n: usize) -> (r: Vec<u8>)
    ensures
        r@.len() == n,
{
    let mut v: Vec<u8> = Vec::new();
    let mut i: usize = 0;
    while i < n
        invariant
            i <= n,
            v@.len() == i,
        decreases n - i,
    {
        v.push(0);
        i = i + 1;
    }
    v
}

/// Create a new account via the System program: the 52-byte `CreateAccount` instruction
/// (discriminator 0, lamports, space, owner), with `from` paying and `to` created, both
/// writable signers.
pub fn create_account(from: [u8; 32], to: [u8; 32], lamports: u64, space: u64, owner: [u8; 32]) -> (r:
    CpiCall)
    ensures
        r.program_id@ == system_program_id(),
        r.accounts@ == seq![
            InstructionAccount { address: from, is_writable: true, is_signer: true },
            InstructionAccount { address: to, is_writable: true, is_signer: true },
        ],
        r.data@ == create_account_data(lamports, space, owner@),
{
    let mut data = zeroed(52);
    write_u32_le(&mut data, 0, 0);
    write_u64_le(&mut data, 4, lamports);
    write_u64_le(&mut data, 12, space);
    write_bytes(&mut data, 20, &owner);
    assert(data@ =~= create_account_data(lamports, space, owner@)) by {
        assert(data@.subrange(20, 52) == owner@);
        assert(data@.take(20).subrange(12, 20) == le64(space));
        assert(data@.take(12).subrange(4, 12) == le64(lamports));
        assert(data@.take(4) == le32(0));
        assert forall|i: int| 0 <= i < 52 implies data@[i] == create_account_data(
            lamports,
            space,
            owner@,
        )[i] by {
            if i < 4 {
                assert(data@.take(4)[i] == data@[i]);
            } else if i < 12 {
                assert(data@.take(12).subrange(4, 12)[i - 4] == data@[i]);
            } else if i < 20 {
                assert(data@.take(20).subrange(12, 20)[i - 12] == data@[i]);
            } else {
                assert(data@.subrange(20, 52)[i - 20] == data@[i]);
            }
        }
    }
    let mut accounts: Vec<InstructionAccount> = Vec::new();
    accounts.push(InstructionAccount::writable_signer(from));
    accounts.push(InstructionAccount::writable_signer(to));
    CpiCall::new(System::id(), accounts, data)
}

/// Transfer lamports via the System program: the 12-byte `Transfer` instruction
/// (discriminator 2, lamports), with `from` a writable signer and `to` writable.
pub fn transfer(from: [u8; 32], to: [u8; 32], lamports: u64) -> (r: CpiCall)
    ensures
        r.program_id@ == system_program_id(),
        r.accounts@ == seq![
            InstructionAccount { address: from, is_writable: true, is_signer: true },
            InstructionAccount { address: to, is_writable: true, is_signer: false },
        ],
        r.data@ == transfer_data(lamports),
{
    let mut data = zeroed(12);
    write_u32_le(&mut data, 0, 2);
    write_u64_le(&mut data, 4, lamports);
    assert(data@ =~= transfer_data(lamports)) by {
        assert forall|i: int| 0 <= i < 12 implies data@[i] == transfer_data(lamports)[i] by {
            if i < 4 {
                assert(data@.take(4)[i] == data@[i]);
            } else {
                assert(data@.subrange(4, 12)[i - 4] == data@[i]);
            }
        }
    }
    let mut accounts: Vec<InstructionAccount> = Vec::new();
    accounts.push(InstructionAccount::writable_signer(from));
    accounts.push(InstructionAccount::writable(to));
    CpiCall::new(System::id(), accounts, data)
}

/// Assign an account to a new owner program via the System program: the 36-byte `Assign`
/// instruction (discriminator 1, owner), with the account a writable signer.
pub fn assign(account: [u8; 32], owner: [u8; 32]) -> (r: CpiCall)
    ensures
        r.program_id@ == system_program_id(),
        r.accounts@ == seq![
            InstructionAccount { address: account, is_writable: true, is_signer: true },
        ],
        r.data@ == assign_data(owner@),
{
    let mut data = zeroed(36);
    write_u32_le(&mut data, 0, 1);
    write_bytes(&mut data, 4, &owner);
    assert(data@ =~= assign_data(owner@)) by {
        assert forall|i: int| 0 <= i < 36 implies data@[i] == assign_data(owner@)[i] by {
            if i < 4 {
                assert(data@.take(4)[i] == data@[i]);
            } else {
                assert(data@.subrange(4, 36)[i - 4] == data@[i]);
            }
        }
    }
    let mut accounts: Vec<InstructionAccount> = Vec::new();
    accounts.push(InstructionAccount::writable_signer(account));
    CpiCall::new(System::id(), accounts, data)
}

/// The `CreateAccount` data decodes back to its discriminator, lamports, space and owner.
pub proof fn create_account_data_decodes(lamports: u64, space: u64, owner: Seq<u8>)
    requires
        owner.len() == 32,
    ensures
        ({
            let d = create_account_data(lamports, space, owner);
            &&& d.len() == 52
            &&& read_le32(d) == 0
            &&& read_le64(d.subrange(4, 12)) == lamports
            &&& read_le64(d.subrange(12, 20)) == space
            &&& d.subrange(20, 52) == owner
        }),
{
    let d = create_account_data(lamports, space, owner);
    le32_round_trip(0);
    le64_round_trip(lamports);
    le64_round_trip(space);
    assert(d.take(4) =~= le32(0));
    assert(d.subrange(4, 12) =~= le64(lamports));
    assert(d.subrange(12, 20) =~= le64(space));
    assert(d.subrange(20, 52) =~= owner);
}

/// The `Transfer` data decodes back to its discriminator and lamports.
pub proof fn transfer_data_decodes(lamports: u64)
    ensures
        transfer_data(lamports).len() == 12,
        read_le32(transfer_data(lamports)) == 2,
        read_le64(transfer_data(lamports).subrange(4, 12)) == lamports,
{
    le32_round_trip(2);
    le64_round_trip(lamports);
    assert(transfer_data(lamports).subrange(4, 12) =~= le64(lamports));
}

/// The `Assign` data decodes back to its discriminator and owner.
pub proof fn assign_data_decodes(owner: Seq<u8>)
    requires
        owner.len() == 32,
    ensures
        assign_data(owner).len() == 36,
        read_le32(assign_data(owner)) == 1,
        assign_data(owner).subrange(4, 36) == owner,
{
    le32_round_trip(1);
    assert(assign_data(owner).subrange(4, 36) =~= owner);
}

} // verus!
