//! The call itself: decode the instruction, check the caller, store the
//! record.

use crate::host::{account_views, AccountInfo, AccountView, ProgramError, ProgramResult, Pubkey};
use crate::trade::{
    decoded_instruction, record_encodable, record_encoding, TradeInstruction,
    TradeInstructionView, TradeRecord, TradeRecordView, TradeType,
};
use vstd::prelude::*;

verus! {

/// The storage of an account after a record has been written to it: the
/// encoding of the record from offset 0, and behind it what was there before.
pub open spec fn storage_after(data: Seq<u8>, record: TradeRecordView) -> Seq<u8> {
    record_encoding(record) + data.skip(record_encoding(record).len() as int)
}

/// The error with which recording `record` on `accounts` ends, if it fails.
/// The checks are made in this order: the two accounts are there, the first
/// one signed, the record fits the storage of the second.
pub open spec fn record_trade_error(accounts: Seq<AccountView>, record: TradeRecordView) -> Option<
    ProgramError,
> {
    if accounts.len() < 2 {
        Some(ProgramError::NotEnoughAccountKeys)
    } else if !accounts[0].is_signer {
        Some(ProgramError::MissingRequiredSignature)
    } else if !record_encodable(record) || accounts[1].data.len() < record_encoding(record).len() {
        Some(ProgramError::AccountDataTooSmall)
    } else {
        None
    }
}

/// The accounts after recording `record`: untouched when the call fails,
/// else with the record written to the storage of the second account and
/// nothing else changed.
pub open spec fn accounts_after_trade(
    accounts: Seq<AccountView>,
    record: TradeRecordView,
) -> Seq<AccountView> {
    if record_trade_error(accounts, record) is Some {
        accounts
    } else {
        accounts.update(
            1,
            AccountView { data: storage_after(accounts[1].data, record), ..accounts[1] },
        )
    }
}

/// The result that goes with an optional error.
pub open spec fn result_of(error: Option<ProgramError>) -> ProgramResult {
    match error {
        Some(e) => Err(e),
        None => Ok(()),
    }
}

/// The error with which processing `instruction_data` on `accounts` ends,
/// if it fails: bytes that encode no instruction are refused before the
/// accounts are looked at.
pub open spec fn process_error(accounts: Seq<AccountView>, instruction_data: Seq<u8>) -> Option<
    ProgramError,
> {
    match decoded_instruction(instruction_data) {
        None => Some(ProgramError::InvalidInstructionData),
        Some(TradeInstructionView::RecordTrade(record)) => record_trade_error(accounts, record),
    }
}

/// The accounts after processing `instruction_data`.
pub open spec fn accounts_after_process(
    accounts: Seq<AccountView>,
    instruction_data: Seq<u8>,
) -> Seq<AccountView> {
    match decoded_instruction(instruction_data) {
        None => accounts,
        Some(TradeInstructionView::RecordTrade(record)) => accounts_after_trade(accounts, record),
    }
}

/// Writes `encoded` over the front of `data`; the rest of `data` and its
/// length stay as they are.
fn store(data: &mut Vec<u8>, encoded: &Vec<u8>)
    requires
        encoded@.len() <= old(data)@.len(),
    ensures
        final(data)@ == encoded@ + old(data)@.skip(encoded@.len() as int),
{
    let n = encoded.len();
    let mut i: usize = 0;
    while i < n
        invariant
            n == encoded@.len(),
            i <= n <= data@.len(),
            data@.len() == old(data)@.len(),
            data@ == encoded@.take(i as int) + old(data)@.skip(i as int),
        decreases n - i,
    {
        data[i] = encoded[i];
        i = i + 1;
    }
    assert(encoded@.take(n as int) =~= encoded@);
}

/// Records one trade: checks that the first account signed the call, then
/// writes the encoded record to the front of the second account's storage.
///
/// Only the signer flag of the first account is checked. Neither the owner
/// of the storage account nor its writable flag is looked at, and
/// `_program_id` plays no part. Accounts beyond the second are ignored.
///
/// A record that has no encoding, its symbol being too long for the length
/// prefix, fits no storage and is refused with `AccountDataTooSmall` as well.
///
/// When the call fails, no account has changed: the record is encoded
/// first and copied only if it fits.
pub fn record_trade(
    _program_id: &Pubkey,
    accounts: &mut [AccountInfo],
    user_id: [u8; 16],
    asset_symbol: String,
    trade_type: TradeType,
    quantity: u64,
    price: u64,
    timestamp: i64,
) -> (r: ProgramResult)
    ensures
        ({
            let record = TradeRecordView {
                user_id: user_id@,
                asset_symbol: asset_symbol@,
                trade_type,
                quantity,
                price,
                timestamp,
            };
            let before = account_views(old(accounts)@);
            &&& r == result_of(record_trade_error(before, record))
            &&& account_views(final(accounts)@) == accounts_after_trade(before, record)
        }),
{
    if accounts.len() < 2 {
        return Err(ProgramError::NotEnoughAccountKeys);
    }
    if !accounts[0].is_signer {
        return Err(ProgramError::MissingRequiredSignature);
    }
    let trade_record = TradeRecord {
        user_id,
        asset_symbol,
        trade_type,
        quantity,
        price,
        timestamp,
    };
    let encoded = match trade_record.encode() {
        Some(b) => b,
        None => {
            return Err(ProgramError::AccountDataTooSmall);
        },
    };
    if accounts[1].data.len() < encoded.len() {
        return Err(ProgramError::AccountDataTooSmall);
    }
    store(&mut accounts[1].data, &encoded);
    proof {
        let before = account_views(old(accounts)@);
        assert(account_views(accounts@) =~= accounts_after_trade(before, trade_record@));
    }
    Ok(())
}

/// Entry point of a call: decodes `instruction_data`, and carries out the
/// instruction on `accounts`.
pub fn process_instruction(
    program_id: &Pubkey,
    accounts: &mut [AccountInfo],
    instruction_data: &[u8],
) -> (r: ProgramResult)
    ensures
        r == result_of(process_error(account_views(old(accounts)@), instruction_data@)),
        account_views(final(accounts)@) == accounts_after_process(
            account_views(old(accounts)@),
            instruction_data@,
        ),
{
    let instruction = match TradeInstruction::decode(instruction_data) {
        Ok(i) => i,
        Err(e) => {
            return Err(e);
        },
    };
    match instruction {
        TradeInstruction::RecordTrade {
            user_id,
            asset_symbol,
            trade_type,
            quantity,
            price,
            timestamp,
        } => record_trade(
            program_id,
            accounts,
            user_id,
            asset_symbol,
            trade_type,
            quantity,
            price,
            timestamp,
        ),
    }
}

} // verus!
