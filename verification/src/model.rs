use crate::decimal::decimal;
use crate::error::ContractError;
use crate::reservation_store::{
    holds_token, reservations_of, store_with, store_without, StoreView,
};
use crate::types::{
    CallContextView, NFTContractMetadataView, ReservationView, TokenMetadataView, TokenView,
    TransferView,
};
use crate::units::YOCTO_PER_NEAR;
use vstd::prelude::*;

verus! {

/// The least deposit that a reservation must carry, in NEAR.
pub const MIN_RESERVATION_DEPOSIT_NEAR: u128 = 20;

/// The handling fee paid out of each reservation, in NEAR.
pub const RESERVATION_FEE_NEAR: u128 = 9;

/// What the holder gets back for a burned token, in NEAR.
pub const BURN_REFUND_NEAR: u128 = 10;

/// The owner's share of every resale, in percent.
pub const OWNER_ROYALTY_PERCENT: u32 = 5;

/// The least deposit that a reservation must carry, in yoctoNEAR.
pub open spec fn min_reservation_deposit() -> u128 {
    (MIN_RESERVATION_DEPOSIT_NEAR * YOCTO_PER_NEAR) as u128
}

/// The handling fee paid out of each reservation, in yoctoNEAR.
pub open spec fn reservation_fee() -> u128 {
    (RESERVATION_FEE_NEAR * YOCTO_PER_NEAR) as u128
}

/// What the holder gets back for a burned token, in yoctoNEAR.
pub open spec fn burn_refund() -> u128 {
    (BURN_REFUND_NEAR * YOCTO_PER_NEAR) as u128
}

/// The account that collects the handling fee.
pub open spec fn fee_collector() -> Seq<char> {
    "dev.artdressup.testnet"@
}

/// The title under which a token is minted: the title it was handed in
/// with, followed by " #" and the number of the mint where mints are numbered.
pub open spec fn numbered_title(title: Seq<char>, minted_so_far: Option<u32>) -> Seq<char> {
    match minted_so_far {
        Some(n) => title + " #"@ + decimal((n + 1) as nat),
        None => title,
    }
}

/// The mint counter after one more mint.
pub open spec fn next_number(minted_so_far: Option<u32>) -> Option<u32> {
    match minted_so_far {
        Some(n) => Some((n + 1) as u32),
        None => None,
    }
}

/// The royalty table of a token minted from a reservation: the contract's
/// owner, and nobody else.
pub open spec fn owner_royalty(owner: Seq<char>) -> Map<Seq<char>, u32> {
    Map::<Seq<char>, u32>::empty().insert(owner, OWNER_ROYALTY_PERCENT)
}

/// The state of the contract: the token ledger, the pending reservations and
/// the two counters.
#[verifier::ext_equal]
pub struct ContractView {
    pub owner_id: Seq<char>,
    pub tokens_per_owner: Map<Seq<char>, Set<Seq<char>>>,
    pub tokens_by_id: Map<Seq<char>, TokenView>,
    pub token_metadata_by_id: Map<Seq<char>, TokenMetadataView>,
    pub metadata: NFTContractMetadataView,
    pub reservation_nft: StoreView,
    pub nft_seq_num: Option<u32>,
    pub nft_del_num: u32,
}

impl ContractView {
    /// The state right after the contract has been set up.
    pub open spec fn initial(
        owner_id: Seq<char>,
        metadata: NFTContractMetadataView,
    ) -> ContractView {
        ContractView {
            owner_id,
            tokens_per_owner: Map::empty(),
            tokens_by_id: Map::empty(),
            token_metadata_by_id: Map::empty(),
            metadata,
            reservation_nft: Map::empty(),
            nft_seq_num: Some(0u32),
            nft_del_num: 0,
        }
    }

    /// The tokens filed under `owner` in the per-owner index.
    pub open spec fn tokens_of(self, owner: Seq<char>) -> Set<Seq<char>> {
        if self.tokens_per_owner.contains_key(owner) {
            self.tokens_per_owner[owner]
        } else {
            Set::empty()
        }
    }

    /// The ledger records `token_id` as owned by `account`.
    pub open spec fn owned_by(self, token_id: Seq<char>, account: Seq<char>) -> bool {
        self.tokens_by_id.contains_key(token_id) && self.tokens_by_id[token_id].owner_id == account
    }

    /// The per-owner index files `token_id` under `account`.
    pub open spec fn indexed_under(self, token_id: Seq<char>, account: Seq<char>) -> bool {
        self.tokens_per_owner.contains_key(account) && self.tokens_per_owner[account].contains(
            token_id,
        )
    }

    /// The three structures of the ledger agree: a token has metadata exactly
    /// when it has a record, and is filed under an account exactly when that
    /// account owns it.
    pub open spec fn ledger_consistent(self) -> bool {
        &&& forall|t: Seq<char>|
            #![trigger self.tokens_by_id.contains_key(t)]
            self.token_metadata_by_id.contains_key(t) <==> self.tokens_by_id.contains_key(t)
        &&& forall|t: Seq<char>, a: Seq<char>| #[trigger]
            self.indexed_under(t, a) <==> self.owned_by(t, a)
    }

    /// What `get_reservations` answers.
    pub open spec fn get_reservations(self, account: Seq<char>) -> Option<Seq<ReservationView>> {
        if self.reservation_nft.contains_key(account) {
            Some(self.reservation_nft[account])
        } else {
            None
        }
    }

    /// What `create_reservation` does: the new state and the payment of the
    /// handling fee, or the reason for refusing.
    pub open spec fn create_reservation(self, ctx: CallContextView, token_id: Seq<char>) -> Result<
        (ContractView, TransferView),
        ContractError,
    > {
        if ctx.deposit < min_reservation_deposit() {
            Err(ContractError::InsufficientDeposit)
        } else if self.tokens_by_id.contains_key(token_id) {
            Err(ContractError::TokenAlreadyExists)
        } else if holds_token(reservations_of(self.reservation_nft, ctx.caller), token_id) {
            Err(ContractError::DuplicateReservation)
        } else {
            Ok(
                (
                    ContractView {
                        reservation_nft: store_with(
                            self.reservation_nft,
                            ctx.caller,
                            ReservationView { token_id, reservation_time: ctx.timestamp },
                        ),
                        ..self
                    },
                    TransferView { receiver: fee_collector(), amount: reservation_fee() },
                ),
            )
        }
    }

    /// What the ledger's mint does: the new state, or the reason for refusing.
    pub open spec fn nft_mint(
        self,
        token_id: Seq<char>,
        metadata: TokenMetadataView,
        receiver_id: Seq<char>,
        royalty: Map<Seq<char>, u32>,
    ) -> Result<ContractView, ContractError> {
        if self.tokens_by_id.contains_key(token_id) {
            Err(ContractError::TokenAlreadyExists)
        } else {
            Ok(
                ContractView {
                    tokens_by_id: self.tokens_by_id.insert(
                        token_id,
                        TokenView { owner_id: receiver_id, royalty },
                    ),
                    token_metadata_by_id: self.token_metadata_by_id.insert(token_id, metadata),
                    tokens_per_owner: self.tokens_per_owner.insert(
                        receiver_id,
                        self.tokens_of(receiver_id).insert(token_id),
                    ),
                    ..self
                },
            )
        }
    }

    /// What `complete_reservation` does: the new state, or the reason for
    /// refusing.
    pub open spec fn complete_reservation(
        self,
        ctx: CallContextView,
        account_id: Seq<char>,
        token_id: Seq<char>,
        metadata: TokenMetadataView,
    ) -> Result<ContractView, ContractError> {
        if ctx.caller != self.owner_id {
            Err(ContractError::Unauthorized)
        } else if !holds_token(reservations_of(self.reservation_nft, account_id), token_id) {
            Err(ContractError::ReservationNotFound)
        } else {
            let numbered = TokenMetadataView {
                title: numbered_title(metadata.title, self.nft_seq_num),
                ..metadata
            };
            match self.nft_mint(token_id, numbered, account_id, owner_royalty(self.owner_id)) {
                Err(e) => Err(e),
                Ok(minted) => Ok(
                    ContractView {
                        nft_seq_num: next_number(self.nft_seq_num),
                        reservation_nft: store_without(self.reservation_nft, account_id, token_id),
                        ..minted
                    },
                ),
            }
        }
    }

    /// What `del_nft` does: the new state and the refund, or the reason for
    /// refusing.
    pub open spec fn del_nft(self, ctx: CallContextView, token_id: Seq<char>) -> Result<
        (ContractView, TransferView),
        ContractError,
    > {
        if !self.token_metadata_by_id.contains_key(token_id) {
            Err(ContractError::TokenNotFound)
        } else if !self.owned_by(token_id, ctx.caller) {
            Err(ContractError::NotOwner)
        } else if !self.indexed_under(token_id, ctx.caller) {
            Err(ContractError::TokenNotFound)
        } else {
            Ok(
                (
                    ContractView {
                        token_metadata_by_id: self.token_metadata_by_id.remove(token_id),
                        tokens_by_id: self.tokens_by_id.remove(token_id),
                        tokens_per_owner: self.tokens_per_owner.insert(
                            ctx.caller,
                            self.tokens_per_owner[ctx.caller].remove(token_id),
                        ),
                        nft_del_num: (self.nft_del_num + 1) as u32,
                        ..self
                    },
                    TransferView { receiver: ctx.caller, amount: burn_refund() },
                ),
            )
        }
    }

    /// What `del_reservations` does: the new state, or the reason for refusing.
    pub open spec fn del_reservations(self, ctx: CallContextView, account_id: Seq<char>) -> Result<
        ContractView,
        ContractError,
    > {
        if ctx.caller != self.owner_id {
            Err(ContractError::Unauthorized)
        } else {
            Ok(ContractView { reservation_nft: self.reservation_nft.remove(account_id), ..self })
        }
    }

    /// What `set_owner_id` does: the new state, or the reason for refusing.
    pub open spec fn set_owner_id(self, ctx: CallContextView, new_owner_id: Seq<char>) -> Result<
        ContractView,
        ContractError,
    > {
        if ctx.caller != self.owner_id {
            Err(ContractError::Unauthorized)
        } else {
            Ok(ContractView { owner_id: new_owner_id, ..self })
        }
    }
}

} // verus!
