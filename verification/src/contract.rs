use crate::account::{valid_account_text, AccountId};
use crate::error::ContractError;
use crate::decimal::u32_to_decimal;
use crate::model::{
    fee_collector, ContractView, BURN_REFUND_NEAR, MIN_RESERVATION_DEPOSIT_NEAR,
    OWNER_ROYALTY_PERCENT, RESERVATION_FEE_NEAR,
};
use crate::reservation_store::{
    find_reservation, reservations_view, valid_store, ReservationStore,
};
use crate::str_map::{Duplicate, StrMap};
use crate::str_set::StrSet;
use crate::types::{
    CallContext, NFTContractMetadata, NFTContractMetadataView, ReservationNft, Token, TokenId,
    TokenMetadata, Transfer,
};
use crate::units::to_yocto;
use vstd::prelude::*;
use vstd::string::StringExecFns;

verus! {

/// A token contract that mints from reservations: the token ledger, the
/// pending reservations, and the counters of mints and burns.
#[derive(Debug, PartialEq, Eq)]
pub struct Contract {
    /// The account that may complete and clear reservations.
    pub owner_id: AccountId,
    /// The tokens of each account.
    pub tokens_per_owner: StrMap<StrSet>,
    /// The ledger record of each token.
    pub tokens_by_id: StrMap<Token>,
    /// The metadata of each token.
    pub token_metadata_by_id: StrMap<TokenMetadata>,
    /// How the collection presents itself.
    pub metadata: NFTContractMetadata,
    /// The pending reservations of each account.
    pub reservation_nft: ReservationStore,
    /// How many tokens have been minted from reservations; `None` where
    /// mints are not numbered.
    pub nft_seq_num: Option<u32>,
    /// How many tokens have been burned.
    pub nft_del_num: u32,
}

impl View for Contract {
    type V = ContractView;

    open spec fn view(&self) -> ContractView {
        ContractView {
            owner_id: self.owner_id@,
            tokens_per_owner: self.tokens_per_owner@,
            tokens_by_id: self.tokens_by_id@,
            token_metadata_by_id: self.token_metadata_by_id@,
            metadata: self.metadata@,
            reservation_nft: self.reservation_nft@,
            nft_seq_num: self.nft_seq_num,
            nft_del_num: self.nft_del_num,
        }
    }
}

impl Clone for Contract {
    fn clone(&self) -> (copy: Self)
        ensures
            copy@ == self@,
    {
        Contract {
            owner_id: self.owner_id.clone(),
            tokens_per_owner: self.tokens_per_owner.clone(),
            tokens_by_id: self.tokens_by_id.clone(),
            token_metadata_by_id: self.token_metadata_by_id.clone(),
            metadata: self.metadata.clone(),
            reservation_nft: self.reservation_nft.clone(),
            nft_seq_num: self.nft_seq_num,
            nft_del_num: self.nft_del_num,
        }
    }
}

/// The metadata that `new_default_meta` gives the collection.
pub open spec fn default_metadata() -> NFTContractMetadataView {
    NFTContractMetadataView {
        spec: "nft-1.0.0"@,
        name: "Art Dress Up"@,
        symbol: "ADU"@,
        icon: Some("https://cdn.artdressup.com/icon.png"@),
        base_uri: Some("https://cdn.artdressup.com/nft/"@),
        reference: None,
        reference_hash: None,
    }
}

/// The account that collects the handling fee of every reservation.
pub fn fee_collector_account() -> (account: AccountId)
    ensures
        account@ == fee_collector(),
{
    let name = String::from_str("dev.artdressup.testnet");
    proof {
        reveal_strlit("dev.artdressup.testnet");
        assert(valid_account_text(name@));
    }
    match AccountId::new(name) {
        Some(account) => account,
        None => vstd::pervasive::unreached(),
    }
}

impl Contract {
    /// Sets the contract up with the default metadata of the collection.
    pub fn new_default_meta(owner_id: AccountId) -> (contract: Self)
        ensures
            contract@ == ContractView::initial(owner_id@, default_metadata()),
    {
        Self::new(
            owner_id,
            NFTContractMetadata {
                spec: String::from_str("nft-1.0.0"),
                name: String::from_str("Art Dress Up"),
                symbol: String::from_str("ADU"),
                icon: Some(String::from_str("https://cdn.artdressup.com/icon.png")),
                base_uri: Some(String::from_str("https://cdn.artdressup.com/nft/")),
                reference: None,
                reference_hash: None,
            },
        )
    }

    /// The account that owns the contract.
    pub fn get_owner_id(&self) -> (owner: AccountId)
        ensures
            owner@ == self@.owner_id,
    {
        self.owner_id.clone()
    }

    /// Hands the contract over to `new_owner_id`, at the owner's request, and
    /// returns the new owner.
    pub fn set_owner_id(&mut self, ctx: &CallContext, new_owner_id: AccountId) -> (result: Result<
        AccountId,
        ContractError,
    >)
        ensures
            match old(self)@.set_owner_id(ctx@, new_owner_id@) {
                Ok(post) => {
                    &&& final(self)@ == post
                    &&& result matches Ok(owner)
                    &&& owner@ == new_owner_id@
                },
                Err(e) => final(self)@ == old(self)@ && result == Err::<AccountId, ContractError>(
                    e,
                ),
            },
    {
        if !self.owner_id.same(&ctx.caller) {
            return Err(ContractError::Unauthorized);
        }
        self.owner_id = new_owner_id;
        Ok(self.owner_id.clone())
    }

    /// Sets the contract up: nothing minted, nothing reserved, both counters
    /// at zero.
    pub fn new(owner_id: AccountId, metadata: NFTContractMetadata) -> (contract: Self)
        ensures
            contract@ == ContractView::initial(owner_id@, metadata@),
    {
        Contract {
            tokens_per_owner: StrMap::new(),
            tokens_by_id: StrMap::new(),
            token_metadata_by_id: StrMap::new(),
            owner_id,
            metadata,
            reservation_nft: ReservationStore::new(),
            nft_seq_num: Some(0),
            nft_del_num: 0,
        }
    }

    /// Mints `token_id` for `receiver_id`: the ledger records its owner and
    /// royalty table, keeps its metadata and files it under its owner. A token
    /// that exists already is not minted again. Returns the record of the
    /// minted token.
    pub fn nft_mint(
        &mut self,
        token_id: TokenId,
        metadata: TokenMetadata,
        receiver_id: AccountId,
        royalty: StrMap<u32>,
    ) -> (result: Result<Token, ContractError>)
        ensures
            match old(self)@.nft_mint(token_id@, metadata@, receiver_id@, royalty@) {
                Ok(post) => {
                    &&& final(self)@ == post
                    &&& result matches Ok(token)
                    &&& token@ == post.tokens_by_id[token_id@]
                },
                Err(e) => final(self)@ == old(self)@ && result == Err::<Token, ContractError>(e),
            },
    {
        if self.tokens_by_id.contains_key(&token_id) {
            return Err(ContractError::TokenAlreadyExists);
        }
        let mut owned = match self.tokens_per_owner.remove(receiver_id.as_string()) {
            Some(set) => set,
            None => StrSet::new(),
        };
        owned.insert(token_id.clone());
        self.tokens_per_owner.insert(receiver_id.as_string().clone(), owned);
        self.token_metadata_by_id.insert(token_id.clone(), metadata);
        let token = Token { owner_id: receiver_id, royalty };
        let minted = token.clone();
        self.tokens_by_id.insert(token_id, token);
        proof {
            let post = old(self)@.nft_mint(token_id@, metadata@, receiver_id@, royalty@)->Ok_0;
            assert(self@.tokens_per_owner =~= post.tokens_per_owner);
            assert(self@ =~= post);
        }
        Ok(minted)
    }
}

/// The life of a reservation, over any state that the model describes:
/// reserving a token, asking for an account's reservations, turning a
/// reservation into a token, burning a token, and clearing an account's
/// reservations. Each operation is told who calls and what the call carries;
/// a refused operation leaves the state as it was.
pub trait ArtDressUpNFT: View<V = ContractView> + Sized {
    /// Reserves `token_id` for the caller, who must have attached the minimum
    /// deposit, and schedules the payment of the handling fee.
    fn create_reservation(&mut self, ctx: &CallContext, token_id: TokenId) -> (result: Result<
        Transfer,
        ContractError,
    >)
        ensures
            match old(self)@.create_reservation(ctx@, token_id@) {
                Ok((post, fee)) => {
                    &&& final(self)@ == post
                    &&& result matches Ok(transfer)
                    &&& transfer@ == fee
                },
                Err(e) => final(self)@ == old(self)@ && result == Err::<Transfer, ContractError>(
                    e,
                ),
            },
            valid_store(old(self)@.reservation_nft),
            valid_store(final(self)@.reservation_nft),
    ;

    /// Turns the reservation that `account_id` holds for `token_id` into a
    /// token of that account, at the owner's request. Where mints are
    /// numbered, the token's title gets the number of this mint; the
    /// contract's owner gets the royalty.
    fn complete_reservation(
        &mut self,
        ctx: &CallContext,
        account_id: AccountId,
        token_id: TokenId,
        metadata: TokenMetadata,
    ) -> (result: Result<(), ContractError>)
        requires
            old(self)@.nft_seq_num matches Some(n) ==> n < u32::MAX,
        ensures
            match old(self)@.complete_reservation(ctx@, account_id@, token_id@, metadata@) {
                Ok(post) => final(self)@ == post && result is Ok,
                Err(e) => final(self)@ == old(self)@ && result == Err::<(), ContractError>(e),
            },
            valid_store(old(self)@.reservation_nft),
            valid_store(final(self)@.reservation_nft),
    ;

    /// The pending reservations of `account_id`, in the order in which the
    /// store keeps them; `None` where the account has none.
    fn get_reservations(&self, account_id: AccountId) -> (reservations: Option<
        Vec<ReservationNft>,
    >)
        ensures
            match reservations {
                Some(list) => self@.get_reservations(account_id@) == Some(
                    reservations_view(list@),
                ),
                None => self@.get_reservations(account_id@).is_none(),
            },
            valid_store(self@.reservation_nft),
    ;

    /// Burns `token_id`, at its owner's request: the token leaves the ledger,
    /// and the refund is scheduled.
    fn del_nft(&mut self, ctx: &CallContext, token_id: TokenId) -> (result: Result<
        Transfer,
        ContractError,
    >)
        requires
            old(self)@.nft_del_num < u32::MAX,
        ensures
            match old(self)@.del_nft(ctx@, token_id@) {
                Ok((post, refund)) => {
                    &&& final(self)@ == post
                    &&& result matches Ok(transfer)
                    &&& transfer@ == refund
                },
                Err(e) => final(self)@ == old(self)@ && result == Err::<Transfer, ContractError>(
                    e,
                ),
            },
    ;

    /// Drops every reservation of `account_id`, at the owner's request.
    fn del_reservations(&mut self, ctx: &CallContext, account_id: AccountId) -> (result: Result<
        (),
        ContractError,
    >)
        ensures
            match old(self)@.del_reservations(ctx@, account_id@) {
                Ok(post) => final(self)@ == post && result is Ok,
                Err(e) => final(self)@ == old(self)@ && result == Err::<(), ContractError>(e),
            },
            valid_store(old(self)@.reservation_nft),
            valid_store(final(self)@.reservation_nft),
    ;
}

impl ArtDressUpNFT for Contract {
    fn create_reservation(&mut self, ctx: &CallContext, token_id: TokenId) -> (result: Result<
        Transfer,
        ContractError,
    >) {
        let minimum = to_yocto(MIN_RESERVATION_DEPOSIT_NEAR);
        proof {
            use_type_invariant(&self.reservation_nft);
        }
        if ctx.deposit < minimum {
            return Err(ContractError::InsufficientDeposit);
        }
        if self.tokens_by_id.contains_key(&token_id) {
            return Err(ContractError::TokenAlreadyExists);
        }
        let reservation = ReservationNft { token_id, reservation_time: ctx.timestamp };
        if !self.reservation_nft.add(&ctx.caller, reservation) {
            return Err(ContractError::DuplicateReservation);
        }
        proof {
            use_type_invariant(&self.reservation_nft);
        }
        let amount = to_yocto(RESERVATION_FEE_NEAR);
        Ok(Transfer { receiver: fee_collector_account(), amount })
    }

    fn complete_reservation(
        &mut self,
        ctx: &CallContext,
        account_id: AccountId,
        token_id: TokenId,
        metadata: TokenMetadata,
    ) -> (result: Result<(), ContractError>) {
        proof {
            use_type_invariant(&self.reservation_nft);
        }
        if !ctx.caller.same(&self.owner_id) {
            return Err(ContractError::Unauthorized);
        }
        let reserved = match self.reservation_nft.get(&account_id) {
            Some(list) => find_reservation(list, &token_id).is_some(),
            None => false,
        };
        if !reserved {
            return Err(ContractError::ReservationNotFound);
        }
        let mut title = metadata.title;
        match self.nft_seq_num {
            Some(n) => {
                let number = u32_to_decimal(n + 1);
                title.append(" #");
                title.append(number.as_str());
            },
            None => {},
        }
        let numbered = TokenMetadata {
            title,
            description: metadata.description,
            media: metadata.media,
        };
        let mut royalty: StrMap<u32> = StrMap::new();
        royalty.insert(self.owner_id.as_string().clone(), OWNER_ROYALTY_PERCENT);
        match self.nft_mint(token_id.clone(), numbered, account_id.clone(), royalty) {
            Err(e) => Err(e),
            Ok(_) => {
                match self.nft_seq_num {
                    Some(n) => {
                        self.nft_seq_num = Some(n + 1);
                    },
                    None => {},
                }
                let _ = self.reservation_nft.take(&account_id, &token_id);
                proof {
                    use_type_invariant(&self.reservation_nft);
                }
                Ok(())
            },
        }
    }

    fn get_reservations(&self, account_id: AccountId) -> (reservations: Option<
        Vec<ReservationNft>,
    >) {
        proof {
            use_type_invariant(&self.reservation_nft);
        }
        match self.reservation_nft.get(&account_id) {
            Some(list) => Some(list.duplicate()),
            None => None,
        }
    }

    fn del_nft(&mut self, ctx: &CallContext, token_id: TokenId) -> (result: Result<
        Transfer,
        ContractError,
    >) {
        if !self.token_metadata_by_id.contains_key(&token_id) {
            return Err(ContractError::TokenNotFound);
        }
        let owned = match self.tokens_by_id.get(&token_id) {
            Some(token) => token.owner_id.same(&ctx.caller),
            None => false,
        };
        if !owned {
            return Err(ContractError::NotOwner);
        }
        let caller = ctx.caller.as_string();
        let indexed = match self.tokens_per_owner.get(caller) {
            Some(tokens) => tokens.contains(&token_id),
            None => false,
        };
        if !indexed {
            return Err(ContractError::TokenNotFound);
        }
        let _ = self.token_metadata_by_id.remove(&token_id);
        let _ = self.tokens_by_id.remove(&token_id);
        let mut tokens = match self.tokens_per_owner.remove(caller) {
            Some(tokens) => tokens,
            None => StrSet::new(),
        };
        let _ = tokens.remove(&token_id);
        self.tokens_per_owner.insert(caller.clone(), tokens);
        self.nft_del_num = self.nft_del_num + 1;
        let amount = to_yocto(BURN_REFUND_NEAR);
        proof {
            let post = old(self)@.del_nft(ctx@, token_id@)->Ok_0.0;
            assert(self@.tokens_per_owner =~= post.tokens_per_owner);
            assert(self@ =~= post);
        }
        Ok(Transfer { receiver: ctx.caller.clone(), amount })
    }

    fn del_reservations(&mut self, ctx: &CallContext, account_id: AccountId) -> (result: Result<
        (),
        ContractError,
    >) {
        proof {
            use_type_invariant(&self.reservation_nft);
        }
        if !ctx.caller.same(&self.owner_id) {
            return Err(ContractError::Unauthorized);
        }
        self.reservation_nft.clear(&account_id);
        proof {
            use_type_invariant(&self.reservation_nft);
        }
        Ok(())
    }
}

} // verus!
