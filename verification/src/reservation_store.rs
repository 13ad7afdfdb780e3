use crate::account::AccountId;
use crate::str_map::StrMap;
use crate::types::{ReservationNft, ReservationView, TokenId};
use vstd::prelude::*;

verus! {

/// What the reservation store holds: for each account with pending
/// reservations, the list of them.
pub type StoreView = Map<Seq<char>, Seq<ReservationView>>;

/// What a list of reservations says, entry by entry.
pub open spec fn reservations_view(list: Seq<ReservationNft>) -> Seq<ReservationView> {
    list.map_values(|r: ReservationNft| r@)
}

/// Entry `i` of `list` reserves `token_id`.
pub open spec fn reserves_at(list: Seq<ReservationView>, token_id: Seq<char>, i: int) -> bool {
    0 <= i < list.len() && list[i].token_id == token_id
}

/// Some entry of `list` reserves `token_id`.
pub open spec fn holds_token(list: Seq<ReservationView>, token_id: Seq<char>) -> bool {
    exists|i: int| reserves_at(list, token_id, i)
}

/// Entry `i` is the first of `list` that reserves `token_id`.
pub open spec fn is_first_match(list: Seq<ReservationView>, token_id: Seq<char>, i: int) -> bool {
    &&& reserves_at(list, token_id, i)
    &&& forall|j: int| 0 <= j < i ==> (#[trigger] list[j]).token_id != token_id
}

/// The position of the first entry of `list` that reserves `token_id`.
pub open spec fn first_match(list: Seq<ReservationView>, token_id: Seq<char>) -> int {
    choose|i: int| is_first_match(list, token_id, i)
}

/// No token is reserved twice in `list`.
pub open spec fn distinct_tokens(list: Seq<ReservationView>) -> bool {
    forall|i: int, j: int|
        0 <= i < list.len() && 0 <= j < list.len() && i != j ==> (#[trigger] list[i]).token_id != (
        #[trigger] list[j]).token_id
}

/// The store's invariant: no account is filed with an empty list, and no
/// account reserves a token twice.
pub open spec fn valid_store(store: StoreView) -> bool {
    forall|account: Seq<char>| #[trigger]
        store.contains_key(account) ==> store[account].len() > 0 && distinct_tokens(
            store[account],
        )
}

/// The reservations of `account`, none if the store does not know it.
pub open spec fn reservations_of(store: StoreView, account: Seq<char>) -> Seq<ReservationView> {
    if store.contains_key(account) {
        store[account]
    } else {
        Seq::empty()
    }
}

/// `list` after entry `i` has been replaced by the last entry and the last
/// entry dropped.
pub open spec fn swap_removed(list: Seq<ReservationView>, i: int) -> Seq<ReservationView> {
    list.update(i, list.last()).drop_last()
}

/// The store after `reservation` has been appended to the list of `account`.
pub open spec fn store_with(
    store: StoreView,
    account: Seq<char>,
    reservation: ReservationView,
) -> StoreView {
    store.insert(account, reservations_of(store, account).push(reservation))
}

/// The store after the first reservation of `token_id` has left the list of
/// `account`, and the account with it if the list is then empty.
pub open spec fn store_without(
    store: StoreView,
    account: Seq<char>,
    token_id: Seq<char>,
) -> StoreView {
    let list = reservations_of(store, account);
    if list.len() == 1 {
        store.remove(account)
    } else {
        store.insert(account, swap_removed(list, first_match(list, token_id)))
    }
}

/// The first match, where there is one, is the position that satisfies
/// `is_first_match`.
pub proof fn lemma_first_match(list: Seq<ReservationView>, token_id: Seq<char>, i: int)
    requires
        is_first_match(list, token_id, i),
    ensures
        first_match(list, token_id) == i,
        holds_token(list, token_id),
{
    let chosen = first_match(list, token_id);
    assert(is_first_match(list, token_id, chosen));
    if chosen < i {
        assert(list[chosen].token_id != token_id);
    }
    if i < chosen {
        assert(list[i].token_id != token_id);
    }
}

/// A list that holds a token has a first entry that reserves it.
pub proof fn lemma_holds_has_first(list: Seq<ReservationView>, token_id: Seq<char>)
    requires
        holds_token(list, token_id),
    ensures
        is_first_match(list, token_id, first_match(list, token_id)),
{
    let witness = choose|i: int| reserves_at(list, token_id, i);
    lemma_first_before(list, token_id, witness);
}

proof fn lemma_first_before(list: Seq<ReservationView>, token_id: Seq<char>, bound: int)
    requires
        reserves_at(list, token_id, bound),
    ensures
        exists|i: int| is_first_match(list, token_id, i),
    decreases bound,
{
    if forall|j: int| 0 <= j < bound ==> (#[trigger] list[j]).token_id != token_id {
        assert(is_first_match(list, token_id, bound));
    } else {
        let earlier = choose|j: int| 0 <= j < bound && (#[trigger] list[j]).token_id == token_id;
        lemma_first_before(list, token_id, earlier);
    }
}

/// The position of the first reservation of `token_id` in `list`.
pub fn find_reservation(list: &Vec<ReservationNft>, token_id: &TokenId) -> (found: Option<usize>)
    ensures
        match found {
            Some(i) => is_first_match(reservations_view(list@), token_id@, i as int),
            None => !holds_token(reservations_view(list@), token_id@),
        },
{
    let ghost view = reservations_view(list@);
    let mut i: usize = 0;
    while i < list.len()
        invariant
            i <= list@.len(),
            view == reservations_view(list@),
            forall|j: int| 0 <= j < i ==> (#[trigger] view[j]).token_id != token_id@,
        decreases list@.len() - i,
    {
        if list[i].token_id == *token_id {
            assert(view[i as int].token_id == token_id@);
            return Some(i);
        }
        assert(view[i as int].token_id != token_id@);
        i = i + 1;
    }
    assert(!holds_token(view, token_id@)) by {
        if holds_token(view, token_id@) {
            let w = choose|w: int| reserves_at(view, token_id@, w);
            assert(view[w].token_id != token_id@);
        }
    }
    None
}

/// The pending reservations, account by account.
#[derive(Debug, PartialEq, Eq)]
pub struct ReservationStore {
    lists: StrMap<Vec<ReservationNft>>,
}

/// What a map of lists says, list by list.
spec fn lists_view(lists: Map<Seq<char>, Seq<ReservationNft>>) -> StoreView {
    lists.map_values(|list: Seq<ReservationNft>| reservations_view(list))
}

impl View for ReservationStore {
    type V = StoreView;

    closed spec fn view(&self) -> StoreView {
        lists_view(self.lists@)
    }
}

impl ReservationStore {
    /// Holds of every store: see `valid_store`.
    #[verifier::type_invariant]
    pub open spec fn well_formed(self) -> bool {
        valid_store(self@)
    }

    /// The store with no reservation in it.
    pub fn new() -> (store: Self)
        ensures
            store@ == Map::<Seq<char>, Seq<ReservationView>>::empty(),
    {
        let lists: StrMap<Vec<ReservationNft>> = StrMap::new();
        assert(lists_view(lists@) =~= Map::<Seq<char>, Seq<ReservationView>>::empty());
        ReservationStore { lists }
    }

    /// The list of `account`, if the store files one for it.
    pub fn get(&self, account: &AccountId) -> (list: Option<&Vec<ReservationNft>>)
        ensures
            match list {
                Some(l) => self@.contains_key(account@) && reservations_view(l@) == self@[account@],
                None => !self@.contains_key(account@),
            },
    {
        proof {
            use_type_invariant(self);
        }
        self.lists.get(account.as_string())
    }

    /// Appends `reservation` to the list of `account`, unless that list
    /// already reserves the same token. Says whether it was appended.
    pub fn add(&mut self, account: &AccountId, reservation: ReservationNft) -> (added: bool)
        ensures
            added == !holds_token(reservations_of(old(self)@, account@), reservation@.token_id),
            added ==> final(self)@ == store_with(old(self)@, account@, reservation@),
            !added ==> final(self)@ == old(self)@,
    {
        proof {
            use_type_invariant(&*self);
        }
        let key = account.as_string();
        let taken = match self.lists.get(key) {
            Some(list) => find_reservation(list, &reservation.token_id).is_some(),
            None => false,
        };
        if taken {
            return false;
        }
        let ghost before = self.lists@;
        let ghost old_list = reservations_of(self@, account@);
        let mut lists: StrMap<Vec<ReservationNft>> = StrMap::new();
        proof {
            assert(lists_view(lists@) =~= Map::<Seq<char>, Seq<ReservationView>>::empty());
        }
        std::mem::swap(&mut lists, &mut self.lists);
        let mut list = match lists.remove(key) {
            Some(list) => list,
            None => Vec::new(),
        };
        proof {
            assert(reservations_view(list@) =~= old_list);
        }
        list.push(reservation);
        proof {
            let new_list = reservations_view(list@);
            assert(new_list =~= old_list.push(reservation@));
            assert(distinct_tokens(new_list)) by {
                assert forall|i: int, j: int|
                    0 <= i < new_list.len() && 0 <= j < new_list.len() && i != j implies (
                #[trigger] new_list[i]).token_id != (#[trigger] new_list[j]).token_id by {
                    if i < old_list.len() && j < old_list.len() {
                        assert(old_list[i].token_id != old_list[j].token_id);
                    } else if i < old_list.len() {
                        assert(!reserves_at(old_list, reservation@.token_id, i));
                    } else {
                        assert(!reserves_at(old_list, reservation@.token_id, j));
                    }
                }
            }
        }
        lists.insert(key.clone(), list);
        proof {
            assert(lists_view(lists@) =~= store_with(lists_view(before), account@, reservation@));
        }
        self.lists = lists;
        true
    }

    /// Takes the first reservation of `token_id` out of the list of `account`:
    /// the last entry of the list takes its place. An account whose list is
    /// then empty leaves the store.
    pub fn take(&mut self, account: &AccountId, token_id: &TokenId) -> (taken: Option<
        ReservationNft,
    >)
        ensures
            match taken {
                Some(r) => {
                    let list = reservations_of(old(self)@, account@);
                    &&& holds_token(list, token_id@)
                    &&& r@ == list[first_match(list, token_id@)]
                    &&& final(self)@ == store_without(old(self)@, account@, token_id@)
                },
                None => {
                    &&& !holds_token(reservations_of(old(self)@, account@), token_id@)
                    &&& final(self)@ == old(self)@
                },
            },
    {
        proof {
            use_type_invariant(&*self);
        }
        let key = account.as_string();
        let found = match self.lists.get(key) {
            Some(list) => find_reservation(list, token_id),
            None => None,
        };
        let ghost before = self.lists@;
        let ghost old_list = reservations_of(self@, account@);
        match found {
            None => {
                proof {
                    if holds_token(old_list, token_id@) {
                        let w = choose|w: int| reserves_at(old_list, token_id@, w);
                    }
                }
                None
            },
            Some(i) => {
                proof {
                    lemma_first_match(old_list, token_id@, i as int);
                }
                let mut lists: StrMap<Vec<ReservationNft>> = StrMap::new();
                proof {
                    assert(lists_view(lists@) =~= Map::<Seq<char>, Seq<ReservationView>>::empty());
                }
                std::mem::swap(&mut lists, &mut self.lists);
                let mut list = match lists.remove(key) {
                    Some(list) => list,
                    None => Vec::new(),
                };
                proof {
                    assert(reservations_view(list@) =~= old_list);
                }
                let reservation = list.swap_remove(i);
                proof {
                    let new_list = reservations_view(list@);
                    assert(new_list =~= swap_removed(old_list, i as int));
                    assert(reservation@ == old_list[i as int]);
                    assert(distinct_tokens(new_list)) by {
                        let last = old_list.len() - 1;
                        assert forall|a: int, b: int|
                            0 <= a < new_list.len() && 0 <= b < new_list.len() && a != b implies (
                        #[trigger] new_list[a]).token_id != (#[trigger] new_list[b]).token_id by {
                            let from_a = if a == i { last } else { a };
                            let from_b = if b == i { last } else { b };
                            assert(new_list[a] == old_list[from_a]);
                            assert(new_list[b] == old_list[from_b]);
                            assert(old_list[from_a].token_id != old_list[from_b].token_id);
                        }
                    }
                }
                if list.len() == 0 {
                    proof {
                        assert(lists_view(lists@) =~= store_without(
                            lists_view(before),
                            account@,
                            token_id@,
                        ));
                    }
                } else {
                    lists.insert(key.clone(), list);
                    proof {
                        assert(lists_view(lists@) =~= store_without(
                            lists_view(before),
                            account@,
                            token_id@,
                        ));
                    }
                }
                self.lists = lists;
                Some(reservation)
            },
        }
    }

    /// Drops every reservation of `account`.
    pub fn clear(&mut self, account: &AccountId)
        ensures
            final(self)@ == old(self)@.remove(account@),
    {
        proof {
            use_type_invariant(&*self);
        }
        let ghost before = self.lists@;
        let mut lists: StrMap<Vec<ReservationNft>> = StrMap::new();
        proof {
            assert(lists_view(lists@) =~= Map::<Seq<char>, Seq<ReservationView>>::empty());
        }
        std::mem::swap(&mut lists, &mut self.lists);
        let _ = lists.remove(account.as_string());
        proof {
            assert(lists_view(lists@) =~= lists_view(before).remove(account@));
        }
        self.lists = lists;
    }

    /// The accounts that hold a reservation, each of them once.
    pub fn accounts(&self) -> (accounts: Vec<String>)
        ensures
            forall|k: Seq<char>|
                self@.contains_key(k) <==> exists|i: int|
                    0 <= i < accounts@.len() && (#[trigger] accounts@[i])@ == k,
            forall|i: int, j: int|
                0 <= i < accounts@.len() && 0 <= j < accounts@.len() && i != j ==> (
                #[trigger] accounts@[i])@ != (#[trigger] accounts@[j])@,
    {
        let accounts = self.lists.keys();
        proof {
            assert forall|k: Seq<char>|
                self@.contains_key(k) <==> exists|i: int|
                    0 <= i < accounts@.len() && (#[trigger] accounts@[i])@ == k by {
                assert(self@.contains_key(k) == self.lists@.contains_key(k));
            }
        }
        accounts
    }
}

impl Clone for ReservationStore {
    fn clone(&self) -> (copy: Self)
        ensures
            copy@ == self@,
    {
        proof {
            use_type_invariant(self);
        }
        ReservationStore { lists: self.lists.clone() }
    }
}

} // verus!
