use vstd::prelude::*;
use vstd::string::StringExecFns;

verus! {

/// Why an operation was refused. A refused operation changes nothing and
/// schedules no payment.
#[derive(Clone, Copy, Debug, PartialEq, Eq)]
pub enum ContractError {
    /// The deposit attached to a reservation is below the minimum.
    InsufficientDeposit,
    /// A token with that identifier has been minted already.
    TokenAlreadyExists,
    /// The account already holds a reservation for that token.
    DuplicateReservation,
    /// The account holds no reservation for that token.
    ReservationNotFound,
    /// Only the contract's owner may do this.
    Unauthorized,
    /// The ledger has no such token.
    TokenNotFound,
    /// The token belongs to somebody else.
    NotOwner,
}

impl ContractError {
    /// The reason as the caller reads it.
    pub open spec fn reason(self) -> Seq<char> {
        match self {
            ContractError::InsufficientDeposit => "Deposit is not sufficient."@,
            ContractError::TokenAlreadyExists => "Token already exists."@,
            ContractError::DuplicateReservation => "Reservations that exist."@,
            ContractError::ReservationNotFound => "Reservation does not exist."@,
            ContractError::Unauthorized => "A function that can only be called by the owner."@,
            ContractError::TokenNotFound => "NFT does not exist."@,
            ContractError::NotOwner => "Not your NFT."@,
        }
    }

    /// The human-readable reason that goes with the error.
    pub fn message(&self) -> (text: String)
        ensures
            text@ == self.reason(),
    {
        match self {
            ContractError::InsufficientDeposit => String::from_str("Deposit is not sufficient."),
            ContractError::TokenAlreadyExists => String::from_str("Token already exists."),
            ContractError::DuplicateReservation => String::from_str("Reservations that exist."),
            ContractError::ReservationNotFound => String::from_str("Reservation does not exist."),
            ContractError::Unauthorized => String::from_str(
                "A function that can only be called by the owner.",
            ),
            ContractError::TokenNotFound => String::from_str("NFT does not exist."),
            ContractError::NotOwner => String::from_str("Not your NFT."),
        }
    }
}

} // verus!
