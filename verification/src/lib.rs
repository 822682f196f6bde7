//! A two-party token escrow. A maker deposits an amount of one asset in a
//! vault and names the amount of another asset wanted for it; a taker pays
//! that amount and receives what the vault holds. Each of the two operations
//! happens as a whole or not at all.

pub mod book;
pub mod constants;
pub mod error;
pub mod escrow;
pub mod guarantees;
pub mod instructions;
pub mod ledger;
pub mod state;
pub mod table;

pub use crate::book::OfferBook;
pub use crate::error::EscrowError;
pub use crate::escrow::{accept_offer, make_offer, Escrow};
pub use crate::instructions::accept_offer::{transfer_tokens_to_maker, withdraw_and_close_escrow, AcceptOffer};
pub use crate::instructions::make_offer::{save_offer, send_offered_tokens_to_escrow, MakeOffer};
pub use crate::instructions::shared::transfer_tokens;
pub use crate::ledger::{CloseAccount, Ledger, MintInfo, TokenInstruction, TransferChecked};
pub use crate::state::{AccountKey, Authority, Identity, Offer, OfferKey};
