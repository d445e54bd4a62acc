//! Laws of the codec and of the call, stated over the specifications that
//! the contracts of the executable functions use.

use crate::host::{AccountView, ProgramError};
use crate::processor::{
    accounts_after_process, accounts_after_trade, process_error, record_trade_error,
    storage_after,
};
use crate::trade::{
    decoded_instruction, decoded_record, encodes_instruction, instruction_encodable,
    instruction_encoding, lemma_decoded_instruction, lemma_decoded_record,
    lemma_record_prefix_unique, record_encodable, record_encoding, starts_with_record,
    TradeInstructionView, TradeRecordView,
};
use vstd::prelude::*;

verus! {

/// Round trip: decoding the encoding of an instruction gives that
/// instruction back.
pub proof fn lemma_instruction_round_trip(i: TradeInstructionView)
    requires
        instruction_encodable(i),
    ensures
        decoded_instruction(instruction_encoding(i)) == Some(i),
{
    lemma_decoded_instruction(i, instruction_encoding(i));
}

/// Round trip: decoding the encoding of a record gives that record back.
pub proof fn lemma_record_round_trip(r: TradeRecordView)
    requires
        record_encodable(r),
    ensures
        decoded_record(record_encoding(r)) == Some(r),
{
    lemma_decoded_record(r, record_encoding(r));
}

/// Decoding accepts canonical bytes only: whatever decodes to an
/// instruction is, byte for byte, the encoding of that instruction.
pub proof fn lemma_decoding_is_canonical(bytes: Seq<u8>)
    ensures
        decoded_instruction(bytes) matches Some(i) ==> instruction_encodable(i)
            && instruction_encoding(i) == bytes,
{
}

/// No encoding of an instruction is the beginning of the encoding of
/// another one.
pub proof fn lemma_instruction_prefix_free(a: TradeInstructionView, b: TradeInstructionView)
    requires
        instruction_encodable(a),
        instruction_encodable(b),
        instruction_encoding(a).is_prefix_of(instruction_encoding(b)),
    ensures
        a == b,
{
    let ra = a->RecordTrade_0;
    let rb = b->RecordTrade_0;
    let ea = instruction_encoding(a);
    let eb = instruction_encoding(b);
    assert(record_encoding(rb) =~= eb.subrange(1, eb.len() as int));
    assert(record_encoding(ra) =~= ea.subrange(1, ea.len() as int));
    assert(record_encoding(ra) =~= record_encoding(rb).subrange(0, ea.len() - 1));
    assert(record_encoding(rb) =~= record_encoding(rb).subrange(0, eb.len() - 1));
    lemma_record_prefix_unique(record_encoding(rb), ra, rb);
}

/// Truncation: an instruction that has lost bytes at its end is refused.
pub proof fn lemma_truncated_instruction_is_refused(i: TradeInstructionView, kept: int)
    requires
        instruction_encodable(i),
        0 <= kept < instruction_encoding(i).len(),
    ensures
        decoded_instruction(instruction_encoding(i).subrange(0, kept)) is None,
{
    let cut = instruction_encoding(i).subrange(0, kept);
    if decoded_instruction(cut) is Some {
        let v = decoded_instruction(cut)->0;
        assert(encodes_instruction(v, cut));
        lemma_instruction_prefix_free(v, i);
    }
}

/// Bytes left over: an instruction followed by anything at all is refused.
pub proof fn lemma_extended_instruction_is_refused(i: TradeInstructionView, extra: Seq<u8>)
    requires
        instruction_encodable(i),
        extra.len() > 0,
    ensures
        decoded_instruction(instruction_encoding(i) + extra) is None,
{
    let long = instruction_encoding(i) + extra;
    if decoded_instruction(long) is Some {
        let v = decoded_instruction(long)->0;
        assert(encodes_instruction(v, long));
        assert(instruction_encoding(i) =~= long.subrange(0, instruction_encoding(i).len() as int));
        lemma_instruction_prefix_free(i, v);
    }
}

/// Bytes that encode no instruction end the call with
/// `InvalidInstructionData`, whatever the accounts are, and change nothing.
pub proof fn lemma_undecodable_call_is_refused(accounts: Seq<AccountView>, data: Seq<u8>)
    requires
        forall|i: TradeInstructionView| !encodes_instruction(i, data),
    ensures
        process_error(accounts, data) == Some(ProgramError::InvalidInstructionData),
        accounts_after_process(accounts, data) == accounts,
{
}

/// Authorization: where the first of the two accounts has not signed,
/// recording a trade fails with `MissingRequiredSignature` and every
/// account, the storage included, is as it was.
pub proof fn lemma_unsigned_trade_is_refused(accounts: Seq<AccountView>, record: TradeRecordView)
    requires
        accounts.len() >= 2,
        !accounts[0].is_signer,
    ensures
        record_trade_error(accounts, record) == Some(ProgramError::MissingRequiredSignature),
        accounts_after_trade(accounts, record) == accounts,
{
}

/// Authorization, for the whole call: a well-formed instruction on two
/// accounts of which the first has not signed fails with
/// `MissingRequiredSignature` and changes nothing.
pub proof fn lemma_unsigned_call_is_refused(accounts: Seq<AccountView>, i: TradeInstructionView)
    requires
        instruction_encodable(i),
        accounts.len() >= 2,
        !accounts[0].is_signer,
    ensures
        process_error(accounts, instruction_encoding(i)) == Some(
            ProgramError::MissingRequiredSignature,
        ),
        accounts_after_process(accounts, instruction_encoding(i)) == accounts,
{
    lemma_instruction_round_trip(i);
}

/// Capacity: where the signer is there but the storage is smaller than the
/// encoded record, recording a trade fails with `AccountDataTooSmall` and
/// changes nothing.
pub proof fn lemma_small_storage_is_refused(accounts: Seq<AccountView>, record: TradeRecordView)
    requires
        accounts.len() >= 2,
        accounts[0].is_signer,
        record_encodable(record),
        accounts[1].data.len() < record_encoding(record).len(),
    ensures
        record_trade_error(accounts, record) == Some(ProgramError::AccountDataTooSmall),
        accounts_after_trade(accounts, record) == accounts,
{
}

/// Capacity, for the whole call.
pub proof fn lemma_small_storage_call_is_refused(accounts: Seq<AccountView>, i: TradeInstructionView)
    requires
        instruction_encodable(i),
        accounts.len() >= 2,
        accounts[0].is_signer,
        accounts[1].data.len() < record_encoding(i->RecordTrade_0).len(),
    ensures
        process_error(accounts, instruction_encoding(i)) == Some(
            ProgramError::AccountDataTooSmall,
        ),
        accounts_after_process(accounts, instruction_encoding(i)) == accounts,
{
    lemma_instruction_round_trip(i);
}

/// A call that fails, for whatever reason, leaves every account as it was.
pub proof fn lemma_failed_call_changes_nothing(accounts: Seq<AccountView>, data: Seq<u8>)
    requires
        process_error(accounts, data) is Some,
    ensures
        accounts_after_process(accounts, data) == accounts,
{
}

/// A record that was stored can be read back: the storage begins with the
/// encoding of that record and of no other, and has kept its length and
/// what lay behind the record.
pub proof fn lemma_stored_record_reads_back(data: Seq<u8>, record: TradeRecordView)
    requires
        record_encodable(record),
        record_encoding(record).len() <= data.len(),
    ensures
        storage_after(data, record).len() == data.len(),
        forall|v: TradeRecordView|
            starts_with_record(storage_after(data, record), v) <==> v == record,
        storage_after(data, record).skip(record_encoding(record).len() as int) == data.skip(
            record_encoding(record).len() as int,
        ),
{
    let after = storage_after(data, record);
    let e = record_encoding(record);
    assert(e =~= after.subrange(0, e.len() as int));
    assert(starts_with_record(after, record));
    assert forall|v: TradeRecordView| starts_with_record(after, v) implies v == record by {
        lemma_record_prefix_unique(after, v, record);
    }
    assert(after.skip(e.len() as int) =~= data.skip(e.len() as int));
}

/// Success: a call that succeeds changes the storage of the second account
/// and nothing else, and that storage then reads back as the record.
pub proof fn lemma_successful_trade_is_stored(accounts: Seq<AccountView>, record: TradeRecordView)
    requires
        record_trade_error(accounts, record) is None,
    ensures
        ({
            let after = accounts_after_trade(accounts, record);
            &&& after.len() == accounts.len()
            &&& forall|k: int| 0 <= k < accounts.len() && k != 1 ==> after[k] == accounts[k]
            &&& after[1] == (AccountView { data: after[1].data, ..accounts[1] })
            &&& after[1].data.len() == accounts[1].data.len()
            &&& forall|v: TradeRecordView| starts_with_record(after[1].data, v) <==> v == record
        }),
{
    lemma_stored_record_reads_back(accounts[1].data, record);
}

/// Last write wins: after two successful calls the storage reads back as
/// the second record, whatever the first one was; of the first at most the
/// bytes behind the second record's encoding are left.
pub proof fn lemma_last_write_wins(
    accounts: Seq<AccountView>,
    first: TradeRecordView,
    second: TradeRecordView,
)
    requires
        record_trade_error(accounts, first) is None,
        record_trade_error(accounts_after_trade(accounts, first), second) is None,
    ensures
        ({
            let end = accounts_after_trade(accounts_after_trade(accounts, first), second);
            &&& end.len() == accounts.len()
            &&& forall|k: int| 0 <= k < accounts.len() && k != 1 ==> end[k] == accounts[k]
            &&& end[1].data.len() == accounts[1].data.len()
            &&& forall|v: TradeRecordView| starts_with_record(end[1].data, v) <==> v == second
            &&& end[1].data.subrange(0, record_encoding(second).len() as int) == record_encoding(
                second,
            )
        }),
{
    let mid = accounts_after_trade(accounts, first);
    lemma_successful_trade_is_stored(accounts, first);
    lemma_successful_trade_is_stored(mid, second);
    let end = accounts_after_trade(mid, second);
    assert(end[1].data.subrange(0, record_encoding(second).len() as int) =~= record_encoding(
        second,
    ));
}

} // verus!
