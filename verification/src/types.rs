use crate::account::AccountId;
use crate::str_map::{Duplicate, StrMap};
use vstd::prelude::*;

verus! {

/// Identifier of a token, chosen by whoever reserves it.
pub type TokenId = String;

/// The characters of an optional text.
pub open spec fn text_of(text: Option<String>) -> Option<Seq<char>> {
    match text {
        Some(t) => Some(t@),
        None => None,
    }
}

/// Copies an optional text.
pub fn clone_text(text: &Option<String>) -> (copy: Option<String>)
    ensures
        text_of(copy) == text_of(*text),
{
    match text {
        Some(t) => Some(t.clone()),
        None => None,
    }
}

/// A buyer's claim on a token that has not been minted yet.
#[derive(Debug, PartialEq, Eq)]
pub struct ReservationNft {
    pub token_id: TokenId,
    pub reservation_time: u64,
}

/// What a reservation says.
pub struct ReservationView {
    pub token_id: Seq<char>,
    pub reservation_time: u64,
}

impl View for ReservationNft {
    type V = ReservationView;

    open spec fn view(&self) -> ReservationView {
        ReservationView { token_id: self.token_id@, reservation_time: self.reservation_time }
    }
}

impl Clone for ReservationNft {
    fn clone(&self) -> (copy: Self)
        ensures
            copy == *self,
    {
        ReservationNft {
            token_id: self.token_id.clone(),
            reservation_time: self.reservation_time,
        }
    }
}

impl Duplicate for Vec<ReservationNft> {
    fn duplicate(&self) -> (copy: Self) {
        let mut copy: Vec<ReservationNft> = Vec::new();
        let mut i: usize = 0;
        while i < self.len()
            invariant
                i <= self@.len(),
                copy@.len() == i,
                forall|j: int| 0 <= j < i ==> #[trigger] copy@[j] == self@[j],
            decreases self@.len() - i,
        {
            copy.push(self[i].clone());
            i = i + 1;
        }
        assert(copy@ =~= self@);
        copy
    }
}

/// What a minted token shows to its holder.
#[derive(Debug, PartialEq, Eq)]
pub struct TokenMetadata {
    pub title: String,
    pub description: Option<String>,
    pub media: Option<String>,
}

/// What a token's metadata says.
pub struct TokenMetadataView {
    pub title: Seq<char>,
    pub description: Option<Seq<char>>,
    pub media: Option<Seq<char>>,
}

impl View for TokenMetadata {
    type V = TokenMetadataView;

    open spec fn view(&self) -> TokenMetadataView {
        TokenMetadataView {
            title: self.title@,
            description: text_of(self.description),
            media: text_of(self.media),
        }
    }
}

impl Clone for TokenMetadata {
    fn clone(&self) -> (copy: Self)
        ensures
            copy@ == self@,
    {
        TokenMetadata {
            title: self.title.clone(),
            description: clone_text(&self.description),
            media: clone_text(&self.media),
        }
    }
}

impl Duplicate for TokenMetadata {
    fn duplicate(&self) -> (copy: Self) {
        self.clone()
    }
}

/// A minted token as the ledger records it: its owner, and the share of each
/// resale, in percent, that goes to each account of the royalty table.
#[derive(Debug, PartialEq, Eq)]
pub struct Token {
    pub owner_id: AccountId,
    pub royalty: StrMap<u32>,
}

/// What a ledger record says.
pub struct TokenView {
    pub owner_id: Seq<char>,
    pub royalty: Map<Seq<char>, u32>,
}

impl View for Token {
    type V = TokenView;

    open spec fn view(&self) -> TokenView {
        TokenView { owner_id: self.owner_id@, royalty: self.royalty@ }
    }
}

impl Clone for Token {
    fn clone(&self) -> (copy: Self)
        ensures
            copy@ == self@,
    {
        Token { owner_id: self.owner_id.clone(), royalty: self.royalty.clone() }
    }
}

impl Duplicate for Token {
    fn duplicate(&self) -> (copy: Self) {
        self.clone()
    }
}

/// How the collection presents itself.
#[derive(Debug, PartialEq, Eq)]
pub struct NFTContractMetadata {
    pub spec: String,
    pub name: String,
    pub symbol: String,
    pub icon: Option<String>,
    pub base_uri: Option<String>,
    pub reference: Option<String>,
    pub reference_hash: Option<String>,
}

/// What the collection's metadata says.
pub struct NFTContractMetadataView {
    pub spec: Seq<char>,
    pub name: Seq<char>,
    pub symbol: Seq<char>,
    pub icon: Option<Seq<char>>,
    pub base_uri: Option<Seq<char>>,
    pub reference: Option<Seq<char>>,
    pub reference_hash: Option<Seq<char>>,
}

impl View for NFTContractMetadata {
    type V = NFTContractMetadataView;

    open spec fn view(&self) -> NFTContractMetadataView {
        NFTContractMetadataView {
            spec: self.spec@,
            name: self.name@,
            symbol: self.symbol@,
            icon: text_of(self.icon),
            base_uri: text_of(self.base_uri),
            reference: text_of(self.reference),
            reference_hash: text_of(self.reference_hash),
        }
    }
}

impl Clone for NFTContractMetadata {
    fn clone(&self) -> (copy: Self)
        ensures
            copy@ == self@,
    {
        NFTContractMetadata {
            spec: self.spec.clone(),
            name: self.name.clone(),
            symbol: self.symbol.clone(),
            icon: clone_text(&self.icon),
            base_uri: clone_text(&self.base_uri),
            reference: clone_text(&self.reference),
            reference_hash: clone_text(&self.reference_hash),
        }
    }
}

/// Who calls an operation, what they attached to the call, and when.
#[derive(Debug, PartialEq, Eq)]
pub struct CallContext {
    pub caller: AccountId,
    pub deposit: u128,
    pub timestamp: u64,
}

/// What a call context says.
pub struct CallContextView {
    pub caller: Seq<char>,
    pub deposit: u128,
    pub timestamp: u64,
}

impl View for CallContext {
    type V = CallContextView;

    open spec fn view(&self) -> CallContextView {
        CallContextView { caller: self.caller@, deposit: self.deposit, timestamp: self.timestamp }
    }
}

impl Clone for CallContext {
    fn clone(&self) -> (copy: Self)
        ensures
            copy@ == self@,
    {
        CallContext {
            caller: self.caller.clone(),
            deposit: self.deposit,
            timestamp: self.timestamp,
        }
    }
}

/// A payment that an operation schedules: it is made if, and only if, the
/// operation's changes are kept.
#[derive(Debug, PartialEq, Eq)]
pub struct Transfer {
    pub receiver: AccountId,
    pub amount: u128,
}

/// What a scheduled payment says.
pub struct TransferView {
    pub receiver: Seq<char>,
    pub amount: u128,
}

impl View for Transfer {
    type V = TransferView;

    open spec fn view(&self) -> TransferView {
        TransferView { receiver: self.receiver@, amount: self.amount }
    }
}

impl Clone for Transfer {
    fn clone(&self) -> (copy: Self)
        ensures
            copy@ == self@,
    {
        Transfer { receiver: self.receiver.clone(), amount: self.amount }
    }
}

} // verus!
