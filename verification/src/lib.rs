//! Ledger-side recording of trades: a binary command is decoded into the one
//! supported operation, the caller's authorization is checked, and the trade
//! record is encoded into a storage slot supplied by the caller.

pub mod host;
pub mod laws;
pub mod processor;
pub mod trade;
pub mod wire;

pub use host::{AccountInfo, ProgramError, ProgramResult, Pubkey};
pub use processor::{process_instruction, record_trade};
pub use trade::{TradeInstruction, TradeRecord, TradeType};
