use crate::decimal::decimal;
use crate::error::ContractError;
use crate::model::{
    burn_refund, min_reservation_deposit, numbered_title, owner_royalty, reservation_fee,
    ContractView, OWNER_ROYALTY_PERCENT,
};
use crate::reservation_store::{
    distinct_tokens, first_match, holds_token, lemma_holds_has_first, reservations_of,
    reserves_at, swap_removed, valid_store,
};
use crate::types::{CallContextView, ReservationView, TokenMetadataView, TransferView};
use vstd::prelude::*;

verus! {

/// Exactly one entry of `list` reserves `token_id`.
pub open spec fn reserved_once(list: Seq<ReservationView>, token_id: Seq<char>) -> bool {
    exists|i: int|
        #[trigger] reserves_at(list, token_id, i) && forall|j: int| #[trigger]
            reserves_at(list, token_id, j) ==> j == i
}

/// The handling fee is less than the least deposit, and less than the refund
/// for a burned token.
pub proof fn lemma_fee_below_deposit_and_refund()
    ensures
        reservation_fee() < min_reservation_deposit(),
        reservation_fee() < burn_refund(),
{
}

/// After a reservation of `token_id` has succeeded for an account, the list
/// of that account holds exactly one reservation of `token_id`.
pub proof fn lemma_reservation_recorded_once(
    pre: ContractView,
    ctx: CallContextView,
    token_id: Seq<char>,
)
    requires
        pre.create_reservation(ctx, token_id) is Ok,
    ensures
        ({
            let post = pre.create_reservation(ctx, token_id)->Ok_0.0;
            post.get_reservations(ctx.caller) matches Some(list) && reserved_once(list, token_id)
        }),
{
    let post = pre.create_reservation(ctx, token_id)->Ok_0.0;
    let before = reservations_of(pre.reservation_nft, ctx.caller);
    let list = post.reservation_nft[ctx.caller];
    let last = before.len() as int;
    assert(reserves_at(list, token_id, last));
    assert forall|j: int| #[trigger] reserves_at(list, token_id, j) implies j == last by {
        if j < last {
            assert(reserves_at(before, token_id, j));
        }
    }
}

/// A token that has been minted cannot be reserved: with a sufficient
/// deposit, the reservation is refused because the token exists.
pub proof fn lemma_minted_token_cannot_be_reserved(
    pre: ContractView,
    ctx: CallContextView,
    token_id: Seq<char>,
)
    requires
        pre.tokens_by_id.contains_key(token_id),
        ctx.deposit >= min_reservation_deposit(),
    ensures
        pre.create_reservation(ctx, token_id) == Err::<(ContractView, TransferView), ContractError>(
            ContractError::TokenAlreadyExists,
        ),
{
}

/// An account that reserves the same token twice in a row, each time with a
/// sufficient deposit, is refused the second time because it holds the
/// reservation already, and still holds exactly one reservation of the token.
pub proof fn lemma_second_reservation_refused(
    pre: ContractView,
    first: CallContextView,
    second: CallContextView,
    token_id: Seq<char>,
)
    requires
        pre.create_reservation(first, token_id) is Ok,
        second.caller == first.caller,
        second.deposit >= min_reservation_deposit(),
    ensures
        ({
            let mid = pre.create_reservation(first, token_id)->Ok_0.0;
            &&& mid.create_reservation(second, token_id) == Err::<
                (ContractView, TransferView),
                ContractError,
            >(ContractError::DuplicateReservation)
            &&& reserved_once(reservations_of(mid.reservation_nft, first.caller), token_id)
        }),
{
    lemma_reservation_recorded_once(pre, first, token_id);
    let mid = pre.create_reservation(first, token_id)->Ok_0.0;
    let list = reservations_of(mid.reservation_nft, first.caller);
    let i = choose|i: int| #[trigger] reserves_at(list, token_id, i);
    assert(reserves_at(list, token_id, i));
}

/// Nobody but the contract's owner completes a reservation, whether the
/// reservation exists or not.
pub proof fn lemma_only_owner_completes(
    pre: ContractView,
    ctx: CallContextView,
    account_id: Seq<char>,
    token_id: Seq<char>,
    metadata: TokenMetadataView,
)
    requires
        ctx.caller != pre.owner_id,
    ensures
        pre.complete_reservation(ctx, account_id, token_id, metadata) == Err::<
            ContractView,
            ContractError,
        >(ContractError::Unauthorized),
{
}

/// What holds after a reservation has been completed: the account no longer
/// holds a reservation of the token, and is out of the store if that was its
/// only one; the ledger records the token as the account's, under the title
/// it was handed in with, numbered where mints are numbered; the mint counter
/// has advanced by one; and the royalty table names the contract's owner, with
/// its share, and nobody else.
pub proof fn lemma_completed_reservation(
    pre: ContractView,
    ctx: CallContextView,
    account_id: Seq<char>,
    token_id: Seq<char>,
    metadata: TokenMetadataView,
)
    requires
        valid_store(pre.reservation_nft),
        pre.nft_seq_num matches Some(n) ==> n < u32::MAX,
        pre.complete_reservation(ctx, account_id, token_id, metadata) is Ok,
    ensures
        ({
            let post = pre.complete_reservation(ctx, account_id, token_id, metadata)->Ok_0;
            &&& valid_store(post.reservation_nft)
            &&& !holds_token(reservations_of(post.reservation_nft, account_id), token_id)
            &&& reservations_of(pre.reservation_nft, account_id).len() == 1
                ==> post.get_reservations(account_id).is_none()
            &&& post.owned_by(token_id, account_id)
            &&& post.indexed_under(token_id, account_id)
            &&& post.token_metadata_by_id.contains_key(token_id)
            &&& pre.nft_seq_num matches Some(n) ==> {
                &&& post.token_metadata_by_id[token_id].title == metadata.title + " #"@ + decimal(
                    (n + 1) as nat,
                )
                &&& post.nft_seq_num == Some((n + 1) as u32)
            }
            &&& pre.nft_seq_num is None ==> {
                &&& post.token_metadata_by_id[token_id].title == metadata.title
                &&& post.nft_seq_num is None
            }
            &&& post.tokens_by_id[token_id].royalty.dom() == set![pre.owner_id]
            &&& post.tokens_by_id[token_id].royalty[pre.owner_id] == OWNER_ROYALTY_PERCENT
        }),
{
    lemma_store_stays_valid(pre, ctx, account_id, token_id, metadata);
    let post = pre.complete_reservation(ctx, account_id, token_id, metadata)->Ok_0;
    let list = reservations_of(pre.reservation_nft, account_id);
    lemma_holds_has_first(list, token_id);
    let i = first_match(list, token_id);
    let last = list.len() - 1;
    assert(pre.reservation_nft.contains_key(account_id));
    let rest = reservations_of(post.reservation_nft, account_id);
    assert(!holds_token(rest, token_id)) by {
        if holds_token(rest, token_id) {
            let w = choose|w: int| reserves_at(rest, token_id, w);
            let from = if w == i {
                last
            } else {
                w
            };
            assert(rest[w] == list[from]);
            assert(list[from].token_id != list[i].token_id);
        }
    }
    assert(owner_royalty(pre.owner_id).dom() =~= set![pre.owner_id]);
}

/// Where the account holds no reservation of the token, the owner's attempt
/// to complete one is refused because the reservation does not exist.
pub proof fn lemma_missing_reservation(
    pre: ContractView,
    ctx: CallContextView,
    account_id: Seq<char>,
    token_id: Seq<char>,
    metadata: TokenMetadataView,
)
    requires
        ctx.caller == pre.owner_id,
        !holds_token(reservations_of(pre.reservation_nft, account_id), token_id),
    ensures
        pre.complete_reservation(ctx, account_id, token_id, metadata) == Err::<
            ContractView,
            ContractError,
        >(ContractError::ReservationNotFound),
{
}

/// A token that exists is not burned for a caller who does not own it.
pub proof fn lemma_burn_by_stranger(pre: ContractView, ctx: CallContextView, token_id: Seq<char>)
    requires
        pre.token_metadata_by_id.contains_key(token_id),
        !pre.owned_by(token_id, ctx.caller),
    ensures
        pre.del_nft(ctx, token_id) == Err::<(ContractView, TransferView), ContractError>(
            ContractError::NotOwner,
        ),
{
}

/// In a ledger whose structures agree, the owner's burn succeeds: the token
/// leaves all three structures, the burn counter advances by one, the owner
/// is refunded, and the structures still agree. To burn the token once more
/// fails, whoever asks, because the token is gone.
pub proof fn lemma_burn_by_owner(
    pre: ContractView,
    ctx: CallContextView,
    again: CallContextView,
    token_id: Seq<char>,
)
    requires
        pre.ledger_consistent(),
        pre.owned_by(token_id, ctx.caller),
        pre.nft_del_num < u32::MAX,
    ensures
        pre.del_nft(ctx, token_id) is Ok,
        ({
            let (post, refund) = pre.del_nft(ctx, token_id)->Ok_0;
            &&& !post.token_metadata_by_id.contains_key(token_id)
            &&& !post.tokens_by_id.contains_key(token_id)
            &&& forall|a: Seq<char>| !#[trigger] post.indexed_under(token_id, a)
            &&& post.nft_del_num == pre.nft_del_num + 1
            &&& refund == TransferView { receiver: ctx.caller, amount: burn_refund() }
            &&& post.ledger_consistent()
            &&& post.del_nft(again, token_id) == Err::<(ContractView, TransferView), ContractError>(
                ContractError::TokenNotFound,
            )
        }),
{
    assert(pre.tokens_by_id.contains_key(token_id));
    assert(pre.indexed_under(token_id, ctx.caller));
    let (post, refund) = pre.del_nft(ctx, token_id)->Ok_0;
    assert forall|a: Seq<char>| !#[trigger] post.indexed_under(token_id, a) by {
        if a != ctx.caller && post.indexed_under(token_id, a) {
            assert(pre.indexed_under(token_id, a));
            assert(pre.owned_by(token_id, a));
        }
    }
    assert forall|t: Seq<char>, a: Seq<char>| #[trigger]
        post.indexed_under(t, a) <==> post.owned_by(t, a) by {
        if t != token_id {
            assert(pre.indexed_under(t, a) <==> pre.owned_by(t, a));
        }
    }
    assert forall|t: Seq<char>|
        post.token_metadata_by_id.contains_key(t) <==> #[trigger] post.tokens_by_id.contains_key(
            t,
        ) by {
        assert(pre.token_metadata_by_id.contains_key(t) <==> pre.tokens_by_id.contains_key(t));
    }
}

/// The owner's request to clear an account's reservations succeeds, whether
/// the account holds any or not, and leaves the account without reservations.
pub proof fn lemma_reservations_cleared(
    pre: ContractView,
    ctx: CallContextView,
    account_id: Seq<char>,
)
    requires
        ctx.caller == pre.owner_id,
    ensures
        pre.del_reservations(ctx, account_id) is Ok,
        pre.del_reservations(ctx, account_id)->Ok_0.get_reservations(account_id).is_none(),
{
}

/// Minting keeps the ledger's structures in agreement.
pub proof fn lemma_mint_keeps_ledger_consistent(
    pre: ContractView,
    token_id: Seq<char>,
    metadata: TokenMetadataView,
    receiver_id: Seq<char>,
    royalty: Map<Seq<char>, u32>,
)
    requires
        pre.ledger_consistent(),
        pre.nft_mint(token_id, metadata, receiver_id, royalty) is Ok,
    ensures
        pre.nft_mint(token_id, metadata, receiver_id, royalty)->Ok_0.ledger_consistent(),
{
    let post = pre.nft_mint(token_id, metadata, receiver_id, royalty)->Ok_0;
    assert forall|t: Seq<char>, a: Seq<char>| #[trigger]
        post.indexed_under(t, a) <==> post.owned_by(t, a) by {
        assert(pre.indexed_under(t, a) <==> pre.owned_by(t, a));
    }
    assert forall|t: Seq<char>|
        post.token_metadata_by_id.contains_key(t) <==> #[trigger] post.tokens_by_id.contains_key(
            t,
        ) by {
        assert(pre.token_metadata_by_id.contains_key(t) <==> pre.tokens_by_id.contains_key(t));
    }
}

/// Completing a reservation keeps the ledger's structures in agreement.
pub proof fn lemma_completion_keeps_ledger_consistent(
    pre: ContractView,
    ctx: CallContextView,
    account_id: Seq<char>,
    token_id: Seq<char>,
    metadata: TokenMetadataView,
)
    requires
        pre.ledger_consistent(),
        pre.complete_reservation(ctx, account_id, token_id, metadata) is Ok,
    ensures
        pre.complete_reservation(ctx, account_id, token_id, metadata)->Ok_0.ledger_consistent(),
{
    let numbered = TokenMetadataView {
        title: numbered_title(metadata.title, pre.nft_seq_num),
        ..metadata
    };
    let royalty = owner_royalty(pre.owner_id);
    lemma_mint_keeps_ledger_consistent(pre, token_id, numbered, account_id, royalty);
    let minted = pre.nft_mint(token_id, numbered, account_id, royalty)->Ok_0;
    let post = pre.complete_reservation(ctx, account_id, token_id, metadata)->Ok_0;
    assert forall|t: Seq<char>, a: Seq<char>| #[trigger]
        post.indexed_under(t, a) <==> post.owned_by(t, a) by {
        assert(minted.indexed_under(t, a) <==> minted.owned_by(t, a));
    }
}

/// Whatever `create_reservation`, `complete_reservation` and
/// `del_reservations` do to a valid store, the store stays valid: no account
/// is left with an empty list, and no account reserves a token twice.
pub proof fn lemma_store_stays_valid(
    pre: ContractView,
    ctx: CallContextView,
    account_id: Seq<char>,
    token_id: Seq<char>,
    metadata: TokenMetadataView,
)
    requires
        valid_store(pre.reservation_nft),
    ensures
        pre.create_reservation(ctx, token_id) matches Ok((post, _)) ==> valid_store(
            post.reservation_nft,
        ),
        pre.complete_reservation(ctx, account_id, token_id, metadata) matches Ok(post)
            ==> valid_store(post.reservation_nft),
        pre.del_reservations(ctx, account_id) matches Ok(post) ==> valid_store(
            post.reservation_nft,
        ),
{
    if pre.create_reservation(ctx, token_id) is Ok {
        let post = pre.create_reservation(ctx, token_id)->Ok_0.0;
        let before = reservations_of(pre.reservation_nft, ctx.caller);
        let list = post.reservation_nft[ctx.caller];
        assert(distinct_tokens(list)) by {
            assert forall|i: int, j: int|
                0 <= i < list.len() && 0 <= j < list.len() && i != j implies (
            #[trigger] list[i]).token_id != (#[trigger] list[j]).token_id by {
                if i < before.len() && j < before.len() {
                    assert(before[i].token_id != before[j].token_id);
                } else if i < before.len() {
                    assert(!reserves_at(before, token_id, i));
                } else {
                    assert(!reserves_at(before, token_id, j));
                }
            }
        }
        assert forall|a: Seq<char>| #[trigger]
            post.reservation_nft.contains_key(a) implies post.reservation_nft[a].len() > 0
            && distinct_tokens(post.reservation_nft[a]) by {
            if a != ctx.caller {
                assert(pre.reservation_nft.contains_key(a));
            }
        }
    }
    if pre.complete_reservation(ctx, account_id, token_id, metadata) is Ok {
        let post = pre.complete_reservation(ctx, account_id, token_id, metadata)->Ok_0;
        let list = reservations_of(pre.reservation_nft, account_id);
        lemma_holds_has_first(list, token_id);
        let i = first_match(list, token_id);
        let last = list.len() - 1;
        assert(pre.reservation_nft.contains_key(account_id));
        if list.len() > 1 {
            let rest = swap_removed(list, i);
            assert(post.reservation_nft[account_id] == rest);
            assert(distinct_tokens(rest)) by {
                assert forall|a: int, b: int|
                    0 <= a < rest.len() && 0 <= b < rest.len() && a != b implies (
                #[trigger] rest[a]).token_id != (#[trigger] rest[b]).token_id by {
                    let from_a = if a == i {
                        last
                    } else {
                        a
                    };
                    let from_b = if b == i {
                        last
                    } else {
                        b
                    };
                    assert(rest[a] == list[from_a]);
                    assert(rest[b] == list[from_b]);
                    assert(list[from_a].token_id != list[from_b].token_id);
                }
            }
        }
        assert forall|a: Seq<char>| #[trigger]
            post.reservation_nft.contains_key(a) implies post.reservation_nft[a].len() > 0
            && distinct_tokens(post.reservation_nft[a]) by {
            if a != account_id {
                assert(pre.reservation_nft.contains_key(a));
            }
        }
    }
    if pre.del_reservations(ctx, account_id) is Ok {
        let post = pre.del_reservations(ctx, account_id)->Ok_0;
        assert forall|a: Seq<char>| #[trigger]
            post.reservation_nft.contains_key(a) implies post.reservation_nft[a].len() > 0
            && distinct_tokens(post.reservation_nft[a]) by {
            assert(pre.reservation_nft.contains_key(a));
        }
    }
}

/// The two counters never go down, and each goes up by one exactly when its
/// event happens: the mint counter when a reservation is completed, the burn
/// counter when a token is burned. No other operation touches them.
pub proof fn lemma_counters_only_advance(
    pre: ContractView,
    ctx: CallContextView,
    account_id: Seq<char>,
    token_id: Seq<char>,
    metadata: TokenMetadataView,
)
    requires
        pre.nft_seq_num matches Some(n) ==> n < u32::MAX,
        pre.nft_del_num < u32::MAX,
    ensures
        pre.create_reservation(ctx, token_id) matches Ok((post, _)) ==> post.nft_seq_num
            == pre.nft_seq_num && post.nft_del_num == pre.nft_del_num,
        pre.complete_reservation(ctx, account_id, token_id, metadata) matches Ok(post) ==> {
            &&& post.nft_del_num == pre.nft_del_num
            &&& match pre.nft_seq_num {
                Some(n) => post.nft_seq_num == Some((n + 1) as u32),
                None => post.nft_seq_num is None,
            }
        },
        pre.del_nft(ctx, token_id) matches Ok((post, _)) ==> post.nft_seq_num == pre.nft_seq_num
            && post.nft_del_num == pre.nft_del_num + 1,
        pre.del_reservations(ctx, account_id) matches Ok(post) ==> post.nft_seq_num
            == pre.nft_seq_num && post.nft_del_num == pre.nft_del_num,
        pre.set_owner_id(ctx, account_id) matches Ok(post) ==> post.nft_seq_num == pre.nft_seq_num
            && post.nft_del_num == pre.nft_del_num,
{
}

/// A reservation is only made of a token that has not been minted, and
/// changes nothing but the caller's own list.
pub proof fn lemma_reservation_touches_one_list(
    pre: ContractView,
    ctx: CallContextView,
    token_id: Seq<char>,
    other: Seq<char>,
)
    requires
        pre.create_reservation(ctx, token_id) is Ok,
        other != ctx.caller,
    ensures
        !pre.tokens_by_id.contains_key(token_id),
        ({
            let post = pre.create_reservation(ctx, token_id)->Ok_0.0;
            &&& post.get_reservations(other) == pre.get_reservations(other)
            &&& post.tokens_by_id == pre.tokens_by_id
            &&& post.token_metadata_by_id == pre.token_metadata_by_id
            &&& post.tokens_per_owner == pre.tokens_per_owner
            &&& post.owner_id == pre.owner_id
        }),
{
}

} // verus!
