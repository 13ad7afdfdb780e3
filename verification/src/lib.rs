//! A token contract that mints from reservations, with its rules proved.
//!
//! A buyer reserves a token by attaching a deposit; the contract's owner later
//! completes the reservation, which mints the token for the buyer; the holder
//! of a token may burn it for a refund. `model` says what every operation does
//! to the state, `contract` holds the state and the operations themselves, and
//! `laws` proves what follows for any sequence of calls.
//!
//! The library does no input or output. An operation is told who calls and
//! what the call carries, and answers with the payment to schedule or with
//! the reason for refusing; a refused operation changes nothing.

pub mod account;
pub mod contract;
pub mod decimal;
pub mod error;
pub mod laws;
pub mod model;
pub mod reservation_store;
pub mod str_map;
pub mod str_set;
pub mod types;
pub mod units;

pub use account::AccountId;
pub use contract::{ArtDressUpNFT, Contract};
pub use error::ContractError;
pub use reservation_store::ReservationStore;
pub use str_map::StrMap;
pub use str_set::StrSet;
pub use types::{
    CallContext, NFTContractMetadata, ReservationNft, Token, TokenId, TokenMetadata, Transfer,
};
pub use units::to_yocto;
