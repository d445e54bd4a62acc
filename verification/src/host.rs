//! The host as the ledger sees it: account handles, their
//! addresses, and the errors a call can end with.

use vstd::prelude::*;

verus! {

/// Address of an account or of a program.
#[derive(Debug, Clone, Copy, PartialEq, Eq)]
pub struct Pubkey(pub [u8; 32]);

/// The ways a call can fail.
#[derive(Debug, Clone, Copy, PartialEq, Eq, Structural)]
pub enum ProgramError {
    /// The instruction bytes are not the encoding of any instruction.
    InvalidInstructionData,
    /// The first account of the call is not a signer.
    MissingRequiredSignature,
    /// The storage account cannot hold the encoded record.
    AccountDataTooSmall,
    /// The call was given fewer accounts than the instruction reads.
    NotEnoughAccountKeys,
}

pub type ProgramResult = Result<(), ProgramError>;

/// An account as the host hands it to a call. `data` is the account's
/// storage: its length is the capacity the host gave it and never changes.
#[derive(Debug, Clone, PartialEq, Eq)]
pub struct AccountInfo {
    pub key: Pubkey,
    pub is_signer: bool,
    pub is_writable: bool,
    pub lamports: u64,
    pub data: Vec<u8>,
    pub owner: Pubkey,
    pub executable: bool,
    pub rent_epoch: u64,
}

/// What a call can observe of an account, with the storage as a sequence of
/// bytes.
pub struct AccountView {
    pub key: Pubkey,
    pub is_signer: bool,
    pub is_writable: bool,
    pub lamports: u64,
    pub data: Seq<u8>,
    pub owner: Pubkey,
    pub executable: bool,
    pub rent_epoch: u64,
}

impl View for AccountInfo {
    type V = AccountView;

    open spec fn view(&self) -> AccountView {
        AccountView {
            key: self.key,
            is_signer: self.is_signer,
            is_writable: self.is_writable,
            lamports: self.lamports,
            data: self.data@,
            owner: self.owner,
            executable: self.executable,
            rent_epoch: self.rent_epoch,
        }
    }
}

/// The views of a list of accounts, in order.
pub open spec fn account_views(accounts: Seq<AccountInfo>) -> Seq<AccountView> {
    Seq::new(accounts.len(), |i: int| accounts[i]@)
}

impl AccountInfo {
    pub fn new(
        key: Pubkey,
        is_signer: bool,
        is_writable: bool,
        lamports: u64,
        data: Vec<u8>,
        owner: Pubkey,
        executable: bool,
        rent_epoch: u64,
    ) -> (account: AccountInfo)
        ensures
            account@ == (AccountView {
                key,
                is_signer,
                is_writable,
                lamports,
                data: data@,
                owner,
                executable,
                rent_epoch,
            }),
    {
        AccountInfo { key, is_signer, is_writable, lamports, data, owner, executable, rent_epoch }
    }
}

} // verus!
