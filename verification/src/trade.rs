//! The trade record, the instruction that carries one, and their canonical
//! binary encoding.

use crate::host::ProgramError;
use crate::wire::{
    borsh_i64_from_slice, borsh_i64_to_vec, borsh_id_from_slice, borsh_id_to_vec,
    borsh_string_from_slice, borsh_string_to_vec, borsh_u32_from_slice, borsh_u64_from_slice,
    borsh_u64_to_vec, i64_bits, i64_le, lemma_i64_le_injective, lemma_le_bytes_len,
    lemma_text_encoding_injective, lemma_text_encoding_shape, lemma_u32_le_injective,
    lemma_u64_le_injective, text_encodable, text_encoding, u32_le, u64_le,
};
use vstd::prelude::*;
use vstd::slice::slice_subrange;
use vstd::utf8::*;

verus! {

/// Direction of a trade.
#[derive(Debug, Clone, Copy, PartialEq, Eq, Structural)]
pub enum TradeType {
    Buy,
    Sell,
}

/// A trade as it is persisted.
#[derive(Debug, Clone, PartialEq, Eq)]
pub struct TradeRecord {
    /// Opaque identifier of the user.
    pub user_id: [u8; 16],
    /// Label of the traded asset, such as "BTC".
    pub asset_symbol: String,
    pub trade_type: TradeType,
    /// Quantity, scaled by 10^8.
    pub quantity: u64,
    /// Price, scaled by 10^2.
    pub price: u64,
    /// Seconds since the epoch.
    pub timestamp: i64,
}

/// A command as it arrives on the wire.
#[derive(Debug, Clone, PartialEq, Eq)]
pub enum TradeInstruction {
    /// Record a new trade.
    ///
    /// Accounts expected:
    /// 0. the signing account of the user placing the trade;
    /// 1. the account whose storage receives the record.
    RecordTrade {
        user_id: [u8; 16],
        asset_symbol: String,
        trade_type: TradeType,
        quantity: u64,
        price: u64,
        timestamp: i64,
    },
}

/// The fields of a trade as mathematical values.
pub struct TradeRecordView {
    pub user_id: Seq<u8>,
    pub asset_symbol: Seq<char>,
    pub trade_type: TradeType,
    pub quantity: u64,
    pub price: u64,
    pub timestamp: i64,
}

/// An instruction as a mathematical value.
pub enum TradeInstructionView {
    RecordTrade(TradeRecordView),
}

impl View for TradeRecord {
    type V = TradeRecordView;

    open spec fn view(&self) -> TradeRecordView {
        TradeRecordView {
            user_id: self.user_id@,
            asset_symbol: self.asset_symbol@,
            trade_type: self.trade_type,
            quantity: self.quantity,
            price: self.price,
            timestamp: self.timestamp,
        }
    }
}

impl View for TradeInstruction {
    type V = TradeInstructionView;

    open spec fn view(&self) -> TradeInstructionView {
        match *self {
            TradeInstruction::RecordTrade {
                user_id,
                asset_symbol,
                trade_type,
                quantity,
                price,
                timestamp,
            } => TradeInstructionView::RecordTrade(
                TradeRecordView {
                    user_id: user_id@,
                    asset_symbol: asset_symbol@,
                    trade_type,
                    quantity,
                    price,
                    timestamp,
                },
            ),
        }
    }
}

/// The byte that stands for a trade type.
pub open spec fn trade_type_tag(t: TradeType) -> u8 {
    match t {
        TradeType::Buy => 0,
        TradeType::Sell => 1,
    }
}

/// The byte that introduces a `RecordTrade` instruction.
pub const RECORD_TRADE_TAG: u8 = 0;

/// Whether a record has an encoding: the identifier is 16 bytes and the
/// symbol fits its length prefix.
pub open spec fn record_encodable(r: TradeRecordView) -> bool {
    r.user_id.len() == 16 && text_encodable(r.asset_symbol)
}

/// The canonical encoding of a record: its fields in declared order.
pub open spec fn record_encoding(r: TradeRecordView) -> Seq<u8> {
    r.user_id + text_encoding(r.asset_symbol) + seq![trade_type_tag(r.trade_type)] + u64_le(
        r.quantity,
    ) + u64_le(r.price) + i64_le(r.timestamp)
}

/// Whether `bytes` begins with the encoding of `r`.
pub open spec fn starts_with_record(bytes: Seq<u8>, r: TradeRecordView) -> bool {
    record_encodable(r) && record_encoding(r).is_prefix_of(bytes)
}

/// Whether an instruction has an encoding: its payload must have one.
pub open spec fn instruction_encodable(i: TradeInstructionView) -> bool {
    match i {
        TradeInstructionView::RecordTrade(r) => record_encodable(r),
    }
}

/// The canonical encoding of an instruction: its tag, then its payload.
pub open spec fn instruction_encoding(i: TradeInstructionView) -> Seq<u8> {
    match i {
        TradeInstructionView::RecordTrade(r) => seq![RECORD_TRADE_TAG] + record_encoding(r),
    }
}

/// Whether `bytes` is exactly the encoding of the record `r`.
pub open spec fn encodes_record(r: TradeRecordView, bytes: Seq<u8>) -> bool {
    record_encodable(r) && record_encoding(r) == bytes
}

/// Whether `bytes` is exactly the encoding of the instruction `i`.
pub open spec fn encodes_instruction(i: TradeInstructionView, bytes: Seq<u8>) -> bool {
    instruction_encodable(i) && instruction_encoding(i) == bytes
}

/// The record that `bytes` encodes, if it encodes one. No byte string
/// encodes two records (`lemma_record_encoding_injective`).
pub open spec fn decoded_record(bytes: Seq<u8>) -> Option<TradeRecordView> {
    if exists|r: TradeRecordView| encodes_record(r, bytes) {
        Some(choose|r: TradeRecordView| encodes_record(r, bytes))
    } else {
        None
    }
}

/// The instruction that `bytes` encodes, if it encodes one. No byte string
/// encodes two instructions (`lemma_instruction_encoding_injective`).
pub open spec fn decoded_instruction(bytes: Seq<u8>) -> Option<TradeInstructionView> {
    if exists|i: TradeInstructionView| encodes_instruction(i, bytes) {
        Some(choose|i: TradeInstructionView| encodes_instruction(i, bytes))
    } else {
        None
    }
}

/// Where each field lies in the encoding of a record whose symbol takes `n`
/// bytes of UTF-8: the encoding is `45 + n` bytes long.
pub proof fn lemma_record_layout(r: TradeRecordView)
    requires
        record_encodable(r),
    ensures
        ({
            let e = record_encoding(r);
            let n = encode_utf8(r.asset_symbol).len() as int;
            &&& n <= u32::MAX
            &&& e.len() == 45 + n
            &&& e.subrange(0, 16) == r.user_id
            &&& e.subrange(16, 20) == u32_le(n as u32)
            &&& e.subrange(16, 20 + n) == text_encoding(r.asset_symbol)
            &&& e[20 + n] == trade_type_tag(r.trade_type)
            &&& e.subrange(21 + n, 29 + n) == u64_le(r.quantity)
            &&& e.subrange(29 + n, 37 + n) == u64_le(r.price)
            &&& e.subrange(37 + n, 45 + n) == i64_le(r.timestamp)
        }),
{
    let e = record_encoding(r);
    let n = encode_utf8(r.asset_symbol).len() as int;
    lemma_text_encoding_shape(r.asset_symbol);
    lemma_le_bytes_len(r.quantity as nat, 8);
    lemma_le_bytes_len(r.price as nat, 8);
    lemma_le_bytes_len(i64_bits(r.timestamp), 8);
    let t = text_encoding(r.asset_symbol);
    assert(e.subrange(0, 16) =~= r.user_id);
    assert(e.subrange(16, 20 + n) =~= t);
    assert(e.subrange(16, 20) =~= t.subrange(0, 4));
    assert(e.subrange(21 + n, 29 + n) =~= u64_le(r.quantity));
    assert(e.subrange(29 + n, 37 + n) =~= u64_le(r.price));
    assert(e.subrange(37 + n, 45 + n) =~= i64_le(r.timestamp));
}

/// A byte string that begins with the encoding of `r` holds the fields of
/// `r` at the places the layout gives.
pub proof fn lemma_prefix_layout(bytes: Seq<u8>, r: TradeRecordView)
    requires
        starts_with_record(bytes, r),
    ensures
        ({
            let n = encode_utf8(r.asset_symbol).len() as int;
            &&& n <= u32::MAX
            &&& bytes.len() >= 45 + n
            &&& bytes.subrange(0, 16) == r.user_id
            &&& bytes.subrange(16, 20) == u32_le(n as u32)
            &&& bytes.subrange(16, 20 + n) == text_encoding(r.asset_symbol)
            &&& bytes[20 + n] == trade_type_tag(r.trade_type)
            &&& bytes.subrange(21 + n, 29 + n) == u64_le(r.quantity)
            &&& bytes.subrange(29 + n, 37 + n) == u64_le(r.price)
            &&& bytes.subrange(37 + n, 45 + n) == i64_le(r.timestamp)
        }),
{
    let e = record_encoding(r);
    let n = encode_utf8(r.asset_symbol).len() as int;
    lemma_record_layout(r);
    assert(e =~= bytes.subrange(0, e.len() as int));
    assert(bytes.subrange(0, 16) =~= e.subrange(0, 16));
    assert(bytes.subrange(16, 20) =~= e.subrange(16, 20));
    assert(bytes.subrange(16, 20 + n) =~= e.subrange(16, 20 + n));
    assert(bytes[20 + n] == e[20 + n]);
    assert(bytes.subrange(21 + n, 29 + n) =~= e.subrange(21 + n, 29 + n));
    assert(bytes.subrange(29 + n, 37 + n) =~= e.subrange(29 + n, 37 + n));
    assert(bytes.subrange(37 + n, 45 + n) =~= e.subrange(37 + n, 45 + n));
}

/// The length prefix found in the bytes is the length of the symbol of any
/// record that the bytes begin with.
pub proof fn lemma_prefix_symbol_len(bytes: Seq<u8>, r: TradeRecordView, n: u32)
    requires
        starts_with_record(bytes, r),
        bytes.subrange(16, 20) == u32_le(n),
    ensures
        encode_utf8(r.asset_symbol).len() == n,
{
    lemma_prefix_layout(bytes, r);
    lemma_u32_le_injective(encode_utf8(r.asset_symbol).len() as u32, n);
}

/// A byte string begins with the encoding of at most one record.
pub proof fn lemma_record_prefix_unique(bytes: Seq<u8>, a: TradeRecordView, b: TradeRecordView)
    requires
        starts_with_record(bytes, a),
        starts_with_record(bytes, b),
    ensures
        a == b,
{
    lemma_prefix_layout(bytes, a);
    lemma_prefix_layout(bytes, b);
    lemma_prefix_symbol_len(bytes, a, encode_utf8(b.asset_symbol).len() as u32);
    lemma_text_encoding_injective(a.asset_symbol, b.asset_symbol);
    lemma_u64_le_injective(a.quantity, b.quantity);
    lemma_u64_le_injective(a.price, b.price);
    lemma_i64_le_injective(a.timestamp, b.timestamp);
    assert(a.user_id =~= b.user_id);
}

/// Records with the same encoding are the same record.
pub proof fn lemma_record_encoding_injective(a: TradeRecordView, b: TradeRecordView)
    requires
        record_encodable(a),
        record_encodable(b),
        record_encoding(a) == record_encoding(b),
    ensures
        a == b,
{
    lemma_record_prefix_unique(record_encoding(a), a, b);
}

/// Instructions with the same encoding are the same instruction.
pub proof fn lemma_instruction_encoding_injective(a: TradeInstructionView, b: TradeInstructionView)
    requires
        instruction_encodable(a),
        instruction_encodable(b),
        instruction_encoding(a) == instruction_encoding(b),
    ensures
        a == b,
{
    let ra = a->RecordTrade_0;
    let rb = b->RecordTrade_0;
    assert(record_encoding(ra) =~= instruction_encoding(a).subrange(
        1,
        instruction_encoding(a).len() as int,
    ));
    assert(record_encoding(rb) =~= instruction_encoding(b).subrange(
        1,
        instruction_encoding(b).len() as int,
    ));
    lemma_record_encoding_injective(ra, rb);
}

/// Bytes that encode `r` decode to `r` and to nothing else.
pub proof fn lemma_decoded_record(r: TradeRecordView, bytes: Seq<u8>)
    requires
        encodes_record(r, bytes),
    ensures
        decoded_record(bytes) == Some(r),
{
    let c = choose|c: TradeRecordView| encodes_record(c, bytes);
    lemma_record_encoding_injective(c, r);
}

/// Bytes that encode `i` decode to `i` and to nothing else.
pub proof fn lemma_decoded_instruction(i: TradeInstructionView, bytes: Seq<u8>)
    requires
        encodes_instruction(i, bytes),
    ensures
        decoded_instruction(bytes) == Some(i),
{
    let c = choose|c: TradeInstructionView| encodes_instruction(c, bytes);
    lemma_instruction_encoding_injective(c, i);
}

impl TradeType {
    /// The byte that stands for this trade type.
    pub fn tag(self) -> (b: u8)
        ensures
            b == trade_type_tag(self),
    {
        match self {
            TradeType::Buy => 0,
            TradeType::Sell => 1,
        }
    }

    /// The trade type that a byte stands for, if any.
    pub fn from_tag(b: u8) -> (t: Option<TradeType>)
        ensures
            match t {
                Some(t) => trade_type_tag(t) == b,
                None => forall|t: TradeType| trade_type_tag(t) != b,
            },
    {
        if b == 0 {
            Some(TradeType::Buy)
        } else if b == 1 {
            Some(TradeType::Sell)
        } else {
            None
        }
    }
}

/// The canonical encoding of a trade given by its fields, or `None` when it
/// has none because the symbol is too long for its length prefix.
fn encode_trade(
    user_id: &[u8; 16],
    asset_symbol: &String,
    trade_type: TradeType,
    quantity: u64,
    price: u64,
    timestamp: i64,
) -> (r: Option<Vec<u8>>)
    ensures
        ({
            let v = TradeRecordView {
                user_id: user_id@,
                asset_symbol: asset_symbol@,
                trade_type,
                quantity,
                price,
                timestamp,
            };
            &&& r is Some <==> record_encodable(v)
            &&& r is Some ==> r->0@ == record_encoding(v)
        }),
{
    let mut out = borsh_id_to_vec(user_id).unwrap();
    let mut symbol = match borsh_string_to_vec(asset_symbol) {
        Ok(b) => b,
        Err(_) => {
            return None;
        },
    };
    out.append(&mut symbol);
    out.push(trade_type.tag());
    let mut quantity_bytes = borsh_u64_to_vec(quantity).unwrap();
    out.append(&mut quantity_bytes);
    let mut price_bytes = borsh_u64_to_vec(price).unwrap();
    out.append(&mut price_bytes);
    let mut timestamp_bytes = borsh_i64_to_vec(timestamp).unwrap();
    out.append(&mut timestamp_bytes);
    assert(out@ =~= record_encoding(
        TradeRecordView {
            user_id: user_id@,
            asset_symbol: asset_symbol@,
            trade_type,
            quantity,
            price,
            timestamp,
        },
    ));
    Some(out)
}

impl TradeRecord {
    /// The canonical encoding of the record, or `None` when it has none
    /// because the symbol is too long for its length prefix.
    pub fn encode(&self) -> (r: Option<Vec<u8>>)
        ensures
            r is Some <==> record_encodable(self@),
            r is Some ==> r->0@ == record_encoding(self@),
    {
        encode_trade(
            &self.user_id,
            &self.asset_symbol,
            self.trade_type,
            self.quantity,
            self.price,
            self.timestamp,
        )
    }

    /// Reads one record from the front of `bytes`. Returns the record and the
    /// number of bytes its encoding takes, or `None` when `bytes` does not
    /// begin with the encoding of any record.
    pub fn decode_prefix(bytes: &[u8]) -> (r: Option<(TradeRecord, usize)>)
        ensures
            match r {
                Some((record, used)) => starts_with_record(bytes@, record@) && used
                    == record_encoding(record@).len(),
                None => forall|v: TradeRecordView| !starts_with_record(bytes@, v),
            },
    {
        let len = bytes.len();
        if len < 20 {
            proof {
                assert forall|v: TradeRecordView| !starts_with_record(bytes@, v) by {
                    if starts_with_record(bytes@, v) {
                        lemma_prefix_layout(bytes@, v);
                    }
                }
            }
            return None;
        }
        let user_id = borsh_id_from_slice(slice_subrange(bytes, 0, 16)).unwrap();
        let prefix = borsh_u32_from_slice(slice_subrange(bytes, 16, 20)).unwrap();
        let n = prefix as usize;
        if len - 20 < n || len - 20 - n < 25 {
            proof {
                assert forall|v: TradeRecordView| !starts_with_record(bytes@, v) by {
                    if starts_with_record(bytes@, v) {
                        lemma_prefix_layout(bytes@, v);
                        lemma_prefix_symbol_len(bytes@, v, prefix);
                    }
                }
            }
            return None;
        }
        let asset_symbol = match borsh_string_from_slice(slice_subrange(bytes, 16, 20 + n)) {
            Ok(s) => s,
            Err(_) => {
                proof {
                    assert forall|v: TradeRecordView| !starts_with_record(bytes@, v) by {
                        if starts_with_record(bytes@, v) {
                            lemma_prefix_layout(bytes@, v);
                            lemma_prefix_symbol_len(bytes@, v, prefix);
                            lemma_text_encoding_shape(v.asset_symbol);
                        }
                    }
                }
                return None;
            },
        };
        let trade_type = match TradeType::from_tag(bytes[20 + n]) {
            Some(t) => t,
            None => {
                proof {
                    assert forall|v: TradeRecordView| !starts_with_record(bytes@, v) by {
                        if starts_with_record(bytes@, v) {
                            lemma_prefix_layout(bytes@, v);
                            lemma_prefix_symbol_len(bytes@, v, prefix);
                        }
                    }
                }
                return None;
            },
        };
        let quantity = borsh_u64_from_slice(slice_subrange(bytes, 21 + n, 29 + n)).unwrap();
        let price = borsh_u64_from_slice(slice_subrange(bytes, 29 + n, 37 + n)).unwrap();
        let timestamp = borsh_i64_from_slice(slice_subrange(bytes, 37 + n, 45 + n)).unwrap();
        let record = TradeRecord { user_id, asset_symbol, trade_type, quantity, price, timestamp };
        proof {
            let text = bytes@.subrange(16, 20 + n);
            lemma_le_bytes_len(encode_utf8(record@.asset_symbol).len() as u32 as nat, 4);
            assert(text.len() == 4 + n);
            assert(encode_utf8(record@.asset_symbol).len() == n);
            assert(record_encoding(record@) =~= bytes@.subrange(0, 45 + n));
        }
        Some((record, 45 + n))
    }
    /// Decodes a record from exactly `bytes`: `None` when `bytes` is not the
    /// encoding of a record, with nothing missing and nothing left over.
    pub fn decode(bytes: &[u8]) -> (r: Option<TradeRecord>)
        ensures
            r is Some ==> encodes_record(r->0@, bytes@),
            r is None ==> forall|v: TradeRecordView| !encodes_record(v, bytes@),
            decoded_record(bytes@) == match r {
                Some(record) => Some(record@),
                None => None,
            },
    {
        match TradeRecord::decode_prefix(bytes) {
            Some((record, used)) => {
                if used == bytes.len() {
                    proof {
                        assert(bytes@.subrange(0, used as int) =~= bytes@);
                        lemma_decoded_record(record@, bytes@);
                    }
                    Some(record)
                } else {
                    proof {
                        assert forall|v: TradeRecordView| !encodes_record(v, bytes@) by {
                            if encodes_record(v, bytes@) {
                                assert(bytes@.subrange(0, bytes@.len() as int) =~= bytes@);
                                lemma_record_prefix_unique(bytes@, v, record@);
                            }
                        }
                    }
                    None
                }
            },
            None => {
                proof {
                    assert forall|v: TradeRecordView| !encodes_record(v, bytes@) by {
                        if encodes_record(v, bytes@) {
                            assert(bytes@.subrange(0, bytes@.len() as int) =~= bytes@);
                            assert(starts_with_record(bytes@, v));
                        }
                    }
                }
                None
            },
        }
    }
}

impl TradeInstruction {
    /// The canonical encoding of the instruction, or `None` when it has
    /// none because the symbol is too long for its length prefix.
    pub fn encode(&self) -> (r: Option<Vec<u8>>)
        ensures
            r is Some <==> instruction_encodable(self@),
            r is Some ==> r->0@ == instruction_encoding(self@),
    {
        match self {
            TradeInstruction::RecordTrade {
                user_id,
                asset_symbol,
                trade_type,
                quantity,
                price,
                timestamp,
            } => {
                let mut payload = match encode_trade(
                    user_id,
                    asset_symbol,
                    *trade_type,
                    *quantity,
                    *price,
                    *timestamp,
                ) {
                    Some(b) => b,
                    None => {
                        return None;
                    },
                };
                let mut out: Vec<u8> = Vec::new();
                out.push(RECORD_TRADE_TAG);
                out.append(&mut payload);
                assert(out@ =~= instruction_encoding(self@));
                Some(out)
            },
        }
    }

    /// Decodes an instruction from exactly `bytes`. Every byte string that
    /// is not the encoding of an instruction (an unknown tag, a field cut
    /// short or malformed, bytes left over) is refused with
    /// `InvalidInstructionData`.
    pub fn decode(bytes: &[u8]) -> (r: Result<TradeInstruction, ProgramError>)
        ensures
            r is Ok ==> encodes_instruction(r->Ok_0@, bytes@),
            r is Err ==> r->Err_0 == ProgramError::InvalidInstructionData && forall|
                v: TradeInstructionView,
            |
                !encodes_instruction(v, bytes@),
            decoded_instruction(bytes@) == match r {
                Ok(instruction) => Some(instruction@),
                Err(_) => None,
            },
    {
        let len = bytes.len();
        if len == 0 || bytes[0] != RECORD_TRADE_TAG {
            proof {
                assert forall|v: TradeInstructionView| !encodes_instruction(v, bytes@) by {
                    if encodes_instruction(v, bytes@) {
                        assert(instruction_encoding(v)[0] == RECORD_TRADE_TAG);
                    }
                }
            }
            return Err(ProgramError::InvalidInstructionData);
        }
        match TradeRecord::decode(slice_subrange(bytes, 1, len)) {
            Some(record) => {
                let TradeRecord { user_id, asset_symbol, trade_type, quantity, price, timestamp } =
                    record;
                let instruction = TradeInstruction::RecordTrade {
                    user_id,
                    asset_symbol,
                    trade_type,
                    quantity,
                    price,
                    timestamp,
                };
                proof {
                    assert(instruction_encoding(instruction@) =~= bytes@);
                    lemma_decoded_instruction(instruction@, bytes@);
                }
                Ok(instruction)
            },
            None => {
                proof {
                    assert forall|v: TradeInstructionView| !encodes_instruction(v, bytes@) by {
                        if encodes_instruction(v, bytes@) {
                            let payload = v->RecordTrade_0;
                            assert(record_encoding(payload) =~= bytes@.subrange(1, len as int));
                            assert(encodes_record(payload, bytes@.subrange(1, len as int)));
                        }
                    }
                }
                Err(ProgramError::InvalidInstructionData)
            },
        }
    }
}

} // verus!
