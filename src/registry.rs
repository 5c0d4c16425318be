use std::collections::HashMap;

use vstd::prelude::*;

use crate::dna::{digest_of, gen_dna, gender_of_byte, le_value};
use crate::types::{ensure_signed, AccountId, Balance, Config, Error, Event, Gender, Kitty, KittyId, Origin, Payment};

verus! {

broadcast use vstd::std_specs::hash::group_hash_axioms;

/// The sequence left after the element `id` is swapped with the last one and
/// the last position dropped.
pub open spec fn swap_out(s: Seq<KittyId>, id: KittyId) -> Seq<KittyId> {
    let i = s.index_of(id);
    s.update(i, s.last()).drop_last()
}

/// The registry: the kitty table, the per-owner lists, the count of kitties
/// ever minted, the per-owner capacity, and the notifications emitted so far.
pub struct Pallet {
    kitties: HashMap<KittyId, Kitty>,
    kitties_owned: HashMap<AccountId, Vec<KittyId>>,
    count_for_kitties: u64,
    max_kitties_owned: u32,
    events: Vec<Event>,
}

impl Pallet {
    /// The kitty table, by identifier.
    pub closed spec fn kitties_view(&self) -> Map<KittyId, Kitty> {
        self.kitties@
    }

    /// The identifiers listed for `a`; empty for an account with none.
    pub closed spec fn owned_of(&self, a: AccountId) -> Seq<KittyId> {
        if self.kitties_owned@.contains_key(a) {
            self.kitties_owned@[a]@
        } else {
            Seq::empty()
        }
    }

    /// The number of kitties minted so far.
    pub closed spec fn count(&self) -> u64 {
        self.count_for_kitties
    }

    /// How many kitties one account may own.
    pub closed spec fn max_owned(&self) -> u32 {
        self.max_kitties_owned
    }

    /// The notifications emitted so far, oldest first.
    pub closed spec fn events_view(&self) -> Seq<Event> {
        self.events@
    }

    /// The kitty `id` exists and is recorded as owned by `a`.
    pub open spec fn owns(&self, a: AccountId, id: KittyId) -> bool {
        self.kitties_view().contains_key(id) && self.kitties_view()[id].owner == a
    }

    /// The registry's invariant: each record sits under its own identifier;
    /// an identifier is listed for an account exactly when the record names
    /// that account as owner; no list repeats an identifier or exceeds the
    /// capacity; and the count is the number of kitties.
    pub closed spec fn wf(&self) -> bool {
        &&& forall|id: KittyId| #[trigger]
            self.kitties@.contains_key(id) ==> self.kitties@[id].dna == id
        &&& forall|a: AccountId, id: KittyId|
            #![trigger self.owned_of(a).contains(id)]
            #![trigger self.owns(a, id)]
            self.owned_of(a).contains(id) <==> self.owns(a, id)
        &&& forall|a: AccountId| #[trigger] self.owned_of(a).no_duplicates()
        &&& forall|a: AccountId| #[trigger] self.owned_of(a).len() <= self.max_kitties_owned
        &&& self.count_for_kitties as nat == self.kitties@.len()
    }

    /// The error `mint` gives, if any.
    pub open spec fn mint_error(&self, owner: AccountId, dna: KittyId) -> Option<Error> {
        if self.kitties_view().contains_key(dna) {
            Some(Error::DuplicateKitty)
        } else if self.count() == u64::MAX {
            Some(Error::Overflow)
        } else if self.owned_of(owner).len() >= self.max_owned() {
            Some(Error::TooManyOwned)
        } else {
            None
        }
    }

    /// `post` is `pre` after a successful mint.
    pub open spec fn mint_post(pre: Pallet, post: Pallet, owner: AccountId, dna: KittyId, gender: Gender) -> bool {
        &&& post.kitties_view() == pre.kitties_view().insert(
            dna,
            Kitty { dna, price: None, gender, owner },
        )
        &&& post.owned_of(owner) == pre.owned_of(owner).push(dna)
        &&& forall|a: AccountId| a != owner ==> #[trigger] post.owned_of(a) == pre.owned_of(a)
        &&& post.count() == pre.count() + 1
        &&& post.max_owned() == pre.max_owned()
        &&& post.events_view() == pre.events_view().push(Event::Created { kitty: dna, owner })
    }

    /// What a mint of `dna` for `owner` does: on an error nothing changes.
    pub open spec fn mint_outcome(
        pre: Pallet,
        post: Pallet,
        owner: AccountId,
        dna: KittyId,
        gender: Gender,
        r: Result<KittyId, Error>,
    ) -> bool {
        match pre.mint_error(owner, dna) {
            Some(e) => r == Err::<KittyId, Error>(e) && post == pre,
            None => r == Ok::<KittyId, Error>(dna) && Self::mint_post(pre, post, owner, dna, gender),
        }
    }

    /// The error a move of kitty `id` to `to` gives, if any. A destination
    /// at capacity refuses the move, so that nothing changes.
    pub open spec fn transfer_error(&self, id: KittyId, to: AccountId) -> Option<Error> {
        if !self.kitties_view().contains_key(id) {
            Some(Error::NoKitty)
        } else if self.kitties_view()[id].owner == to {
            Some(Error::TransferToSelf)
        } else if self.owned_of(to).len() >= self.max_owned() {
            Some(Error::TooManyOwned)
        } else {
            None
        }
    }

    /// `post` is `pre` after kitty `id` moved to `to`, notifications aside:
    /// the record names `to` and carries no price, the identifier leaves
    /// the old owner's list and is appended to the new owner's.
    pub open spec fn transfer_post(pre: Pallet, post: Pallet, id: KittyId, to: AccountId) -> bool {
        let k = pre.kitties_view()[id];
        let from = k.owner;
        &&& post.kitties_view() == pre.kitties_view().insert(
            id,
            Kitty { dna: k.dna, price: None, gender: k.gender, owner: to },
        )
        &&& post.owned_of(from) == swap_out(pre.owned_of(from), id)
        &&& post.owned_of(to) == pre.owned_of(to).push(id)
        &&& forall|a: AccountId|
            a != from && a != to ==> #[trigger] post.owned_of(a) == pre.owned_of(a)
        &&& post.count() == pre.count()
        &&& post.max_owned() == pre.max_owned()
    }

    /// What moving kitty `id` to `to` does: on an error nothing changes.
    pub open spec fn transfer_outcome(
        pre: Pallet,
        post: Pallet,
        id: KittyId,
        to: AccountId,
        r: Result<(), Error>,
    ) -> bool {
        match pre.transfer_error(id, to) {
            Some(e) => r == Err::<(), Error>(e) && post == pre,
            None => {
                &&& r == Ok::<(), Error>(())
                &&& Self::transfer_post(pre, post, id, to)
                &&& post.events_view() == pre.events_view().push(
                    Event::Transferred { from: pre.kitties_view()[id].owner, to, kitty: id },
                )
            },
        }
    }

    /// What `create_kitty` does: an unsigned request changes nothing; a
    /// signed one mints the identifier and attribute derived from the
    /// inputs for the signer.
    pub open spec fn create_outcome(
        pre: Pallet,
        post: Pallet,
        origin: Origin,
        random: Seq<u8>,
        extrinsic_index: Option<u32>,
        block_number: u32,
        r: Result<KittyId, Error>,
    ) -> bool {
        match origin {
            Origin::Signed(owner) => {
                let d = digest_of(random, extrinsic_index, block_number);
                Self::mint_outcome(pre, post, owner, le_value(d) as u128, gender_of_byte(d[0]), r)
            },
            _ => r == Err::<KittyId, Error>(Error::BadOrigin) && post == pre,
        }
    }

    /// What `transfer` does: the signer must own the kitty, then it moves as
    /// `do_transfer` moves it.
    pub open spec fn transfer_call_outcome(
        pre: Pallet,
        post: Pallet,
        origin: Origin,
        to: AccountId,
        id: KittyId,
        r: Result<(), Error>,
    ) -> bool {
        match origin {
            Origin::Signed(from) => if !pre.kitties_view().contains_key(id) {
                r == Err::<(), Error>(Error::NoKitty) && post == pre
            } else if pre.kitties_view()[id].owner != from {
                r == Err::<(), Error>(Error::NotOwner) && post == pre
            } else {
                Self::transfer_outcome(pre, post, id, to, r)
            },
            _ => r == Err::<(), Error>(Error::BadOrigin) && post == pre,
        }
    }

    /// What `set_price` does: the signer must own the kitty, whose price is
    /// then replaced; nothing else changes but the notifications.
    pub open spec fn set_price_outcome(
        pre: Pallet,
        post: Pallet,
        origin: Origin,
        id: KittyId,
        price: Option<Balance>,
        r: Result<(), Error>,
    ) -> bool {
        match origin {
            Origin::Signed(who) => if !pre.kitties_view().contains_key(id) {
                r == Err::<(), Error>(Error::NoKitty) && post == pre
            } else if pre.kitties_view()[id].owner != who {
                r == Err::<(), Error>(Error::NotOwner) && post == pre
            } else {
                let k = pre.kitties_view()[id];
                &&& r == Ok::<(), Error>(())
                &&& post.kitties_view() == pre.kitties_view().insert(
                    id,
                    Kitty { dna: k.dna, price, gender: k.gender, owner: k.owner },
                )
                &&& forall|a: AccountId| #[trigger] post.owned_of(a) == pre.owned_of(a)
                &&& post.count() == pre.count()
                &&& post.max_owned() == pre.max_owned()
                &&& post.events_view() == pre.events_view().push(Event::PriceSet { kitty: id, price })
            },
            _ => r == Err::<(), Error>(Error::BadOrigin) && post == pre,
        }
    }

    /// The error a purchase of kitty `id` by `buyer` bidding `bid` gives
    /// before any payment, if any. A buyer at capacity is refused here, so
    /// that no payment is made for a kitty that could not be handed over.
    pub open spec fn buy_error(&self, id: KittyId, buyer: AccountId, bid: Balance) -> Option<Error> {
        if !self.kitties_view().contains_key(id) {
            Some(Error::NoKitty)
        } else if self.kitties_view()[id].owner == buyer {
            Some(Error::TransferToSelf)
        } else if self.kitties_view()[id].price is None {
            Some(Error::NotForSale)
        } else if bid < self.kitties_view()[id].price->Some_0 {
            Some(Error::BidPriceTooLow)
        } else if self.owned_of(buyer).len() >= self.max_owned() {
            Some(Error::TooManyOwned)
        } else {
            None
        }
    }

    /// What a purchase does, given the outcome of its payment: a refused
    /// purchase or a failed payment changes nothing; otherwise the kitty
    /// moves to the buyer as in a transfer, and both the move and the sale
    /// are announced.
    pub open spec fn buy_outcome(
        pre: Pallet,
        post: Pallet,
        id: KittyId,
        buyer: AccountId,
        bid: Balance,
        payment: Result<(), Error>,
        r: Result<(), Error>,
    ) -> bool {
        match pre.buy_error(id, buyer, bid) {
            Some(e) => r == Err::<(), Error>(e) && post == pre,
            None => match payment {
                Err(e) => r == Err::<(), Error>(e) && post == pre,
                Ok(_) => {
                    let k = pre.kitties_view()[id];
                    &&& r == Ok::<(), Error>(())
                    &&& Self::transfer_post(pre, post, id, buyer)
                    &&& post.events_view() == pre.events_view().push(
                        Event::Transferred { from: k.owner, to: buyer, kitty: id },
                    ).push(
                        Event::Sold { seller: k.owner, buyer, kitty: id, price: k.price->Some_0 },
                    )
                },
            },
        }
    }
}

/// The position of `id` in `v`, if it is there.
fn position_of(v: &Vec<KittyId>, id: KittyId) -> (r: Option<usize>)
    ensures
        match r {
            Some(i) => i < v@.len() && v@[i as int] == id,
            None => !v@.contains(id),
        },
{
    let mut i: usize = 0;
    while i < v.len()
        invariant
            i <= v@.len(),
            forall|j: int| 0 <= j < i ==> v@[j] != id,
        decreases v@.len() - i,
    {
        if v[i] == id {
            return Some(i);
        }
        i = i + 1;
    }
    None
}

/// Swapping out an element of a sequence without repeats removes exactly
/// that element and keeps the rest free of repeats.
proof fn lemma_swap_out(s: Seq<KittyId>, id: KittyId)
    requires
        s.no_duplicates(),
        s.contains(id),
    ensures
        swap_out(s, id).len() == s.len() - 1,
        swap_out(s, id).no_duplicates(),
        forall|x: KittyId| #[trigger]
            swap_out(s, id).contains(x) <==> (s.contains(x) && x != id),
{
    let i = s.index_of(id);
    let t = swap_out(s, id);
    let n = s.len() - 1;
    assert(0 <= i < s.len() && s[i] == id);
    assert forall|x: KittyId| #[trigger] t.contains(x) <==> (s.contains(x) && x != id) by {
        if t.contains(x) {
            let j = choose|j: int| 0 <= j < t.len() && t[j] == x;
            if j == i {
                assert(s[n] == x);
                assert(n != i);
            } else {
                assert(s[j] == x);
            }
        }
        if s.contains(x) && x != id {
            let j = choose|j: int| 0 <= j < s.len() && s[j] == x;
            if j == n {
                assert(t[i] == x);
            } else {
                assert(t[j] == x);
            }
        }
    }
}

impl Pallet {
    /// An empty registry with the given capacity.
    pub fn new(config: Config) -> (r: Pallet)
        ensures
            r.wf(),
            r.kitties_view() == Map::<KittyId, Kitty>::empty(),
            forall|a: AccountId| #[trigger] r.owned_of(a) == Seq::<KittyId>::empty(),
            r.count() == 0,
            r.max_owned() == config.max_kitties_owned,
            r.events_view() == Seq::<Event>::empty(),
    {
        Pallet {
            kitties: HashMap::new(),
            kitties_owned: HashMap::new(),
            count_for_kitties: 0,
            max_kitties_owned: config.max_kitties_owned,
            events: Vec::new(),
        }
    }

    /// The length of the list of `a`.
    fn owned_len(&self, a: AccountId) -> (r: usize)
        ensures
            r == self.owned_of(a).len(),
    {
        match self.kitties_owned.get(&a) {
            Some(v) => v.len(),
            None => 0,
        }
    }

    /// Records a notification.
    fn deposit_event(&mut self, e: Event)
        ensures
            old(self).wf() ==> final(self).wf(),
            final(self).kitties == old(self).kitties,
            final(self).kitties_owned == old(self).kitties_owned,
            final(self).count_for_kitties == old(self).count_for_kitties,
            final(self).max_kitties_owned == old(self).max_kitties_owned,
            final(self).events@ == old(self).events@.push(e),
    {
        let ghost pre = *self;
        self.events.push(e);
        proof {
            assert forall|a: AccountId| #[trigger] self.owned_of(a) == pre.owned_of(a) by {}
            assert forall|a: AccountId, id: KittyId| #[trigger] self.owns(a, id) == pre.owns(a, id) by {}
        }
    }

    /// Takes the list of `a` out of the index.
    fn take_owned(&mut self, a: AccountId) -> (r: Vec<KittyId>)
        ensures
            r@ == old(self).owned_of(a),
            final(self).kitties_owned@ == old(self).kitties_owned@.remove(a),
            final(self).kitties == old(self).kitties,
            final(self).count_for_kitties == old(self).count_for_kitties,
            final(self).max_kitties_owned == old(self).max_kitties_owned,
            final(self).events == old(self).events,
    {
        match self.kitties_owned.remove(&a) {
            Some(v) => v,
            None => Vec::new(),
        }
    }

    /// Creates kitty `dna` with attribute `gender` for `owner`. Fails with
    /// `DuplicateKitty` if the identifier is taken, `Overflow` if the count
    /// is at its maximum, `TooManyOwned` if `owner` is at capacity; all
    /// checks come before any change.
    pub fn mint(&mut self, owner: AccountId, dna: KittyId, gender: Gender) -> (r: Result<KittyId, Error>)
        requires
            old(self).wf(),
        ensures
            final(self).wf(),
            Self::mint_outcome(*old(self), *final(self), owner, dna, gender, r),
    {
        if self.kitties.contains_key(&dna) {
            return Err(Error::DuplicateKitty);
        }
        let new_count = match self.count_for_kitties.checked_add(1) {
            Some(c) => c,
            None => return Err(Error::Overflow),
        };
        if self.owned_len(owner) >= self.max_kitties_owned as usize {
            return Err(Error::TooManyOwned);
        }
        let ghost pre = *self;
        let kitty = Kitty { dna, price: None, gender, owner };
        let mut list = self.take_owned(owner);
        list.push(dna);
        self.kitties_owned.insert(owner, list);
        self.kitties.insert(dna, kitty);
        self.count_for_kitties = new_count;
        self.events.push(Event::Created { kitty: dna, owner });
        proof {
            assert(self.kitties@.dom() == pre.kitties@.dom().insert(dna));
            assert forall|a: AccountId| a != owner implies #[trigger] self.owned_of(a) == pre.owned_of(a) by {
                assert(self.kitties_owned@.contains_key(a) == pre.kitties_owned@.contains_key(a));
            }
            assert forall|a: AccountId, id: KittyId|
                #![trigger self.owned_of(a).contains(id)]
                #![trigger self.owns(a, id)]
                self.owned_of(a).contains(id) <==> self.owns(a, id) by {
                if a == owner {
                    if self.owned_of(a).contains(id) && id != dna {
                        let j = choose|j: int| 0 <= j < self.owned_of(a).len() && self.owned_of(a)[j] == id;
                        assert(pre.owned_of(a)[j] == id);
                        assert(pre.owns(a, id));
                    }
                    if self.owns(a, id) && id != dna {
                        assert(pre.owns(a, id));
                        assert(pre.owned_of(a).contains(id));
                        let j = choose|j: int| 0 <= j < pre.owned_of(a).len() && pre.owned_of(a)[j] == id;
                        assert(self.owned_of(a)[j] == id);
                    }
                    if id == dna {
                        assert(self.owned_of(a)[pre.owned_of(a).len() as int] == id);
                    }
                } else {
                    assert(pre.owned_of(a).contains(id) <==> pre.owns(a, id));
                    if id == dna {
                        assert(!pre.owns(a, id));
                    }
                }
            }
            assert(!pre.owned_of(owner).contains(dna));
            assert forall|a: AccountId| #[trigger] self.owned_of(a).no_duplicates() by {
                if a == owner {
                    assert(pre.owned_of(a).no_duplicates());
                }
            }
            assert forall|a: AccountId| #[trigger] self.owned_of(a).len() <= self.max_kitties_owned by {
                assert(pre.owned_of(a).len() <= pre.max_kitties_owned);
            }
        }
        Ok(dna)
    }

    /// Moves kitty `kitty_id` from its owner to `to` and clears its price.
    /// Fails with `NoKitty` if it does not exist, `TransferToSelf` if `to`
    /// already owns it, `TooManyOwned` if `to` is at capacity; a failed move
    /// changes nothing.
    pub fn do_transfer(&mut self, kitty_id: KittyId, to: AccountId) -> (r: Result<(), Error>)
        requires
            old(self).wf(),
        ensures
            final(self).wf(),
            Self::transfer_outcome(*old(self), *final(self), kitty_id, to, r),
    {
        let kitty = match self.kitties.get(&kitty_id) {
            Some(k) => *k,
            None => return Err(Error::NoKitty),
        };
        let from = kitty.owner;
        if from == to {
            return Err(Error::TransferToSelf);
        }
        if self.owned_len(to) >= self.max_kitties_owned as usize {
            return Err(Error::TooManyOwned);
        }
        let ghost pre = *self;
        proof {
            assert(pre.owns(from, kitty_id));
            assert(pre.owned_of(from).contains(kitty_id));
        }
        let mut from_owned = self.take_owned(from);
        let ind = match position_of(&from_owned, kitty_id) {
            Some(i) => i,
            None => return Err(Error::NoKitty),
        };
        proof {
            assert(pre.owned_of(from).no_duplicates());
            assert(pre.owned_of(from).index_of(kitty_id) == ind);
            lemma_swap_out(pre.owned_of(from), kitty_id);
        }
        from_owned.swap_remove(ind);
        let mut to_owned = self.take_owned(to);
        to_owned.push(kitty_id);
        self.kitties.insert(
            kitty_id,
            Kitty { dna: kitty.dna, price: None, gender: kitty.gender, owner: to },
        );
        self.kitties_owned.insert(to, to_owned);
        self.kitties_owned.insert(from, from_owned);
        self.events.push(Event::Transferred { from, to, kitty: kitty_id });
        proof {
            let sf = swap_out(pre.owned_of(from), kitty_id);
            assert(self.owned_of(from) == sf);
            assert(self.owned_of(to) == pre.owned_of(to).push(kitty_id));
            assert(self.kitties@.dom() =~= pre.kitties@.dom());
            assert forall|a: AccountId| a != from && a != to implies #[trigger] self.owned_of(a)
                == pre.owned_of(a) by {
                assert(self.kitties_owned@.contains_key(a) == pre.kitties_owned@.contains_key(a));
            }
            assert(!pre.owned_of(to).contains(kitty_id));
            assert forall|a: AccountId, id: KittyId|
                #![trigger self.owned_of(a).contains(id)]
                #![trigger self.owns(a, id)]
                self.owned_of(a).contains(id) <==> self.owns(a, id) by {
                if a == from {
                    assert(sf.contains(id) <==> (pre.owned_of(from).contains(id) && id != kitty_id));
                    assert(pre.owned_of(a).contains(id) <==> pre.owns(a, id));
                } else if a == to {
                    assert(pre.owned_of(a).contains(id) <==> pre.owns(a, id));
                    if self.owned_of(a).contains(id) && id != kitty_id {
                        let j = choose|j: int| 0 <= j < self.owned_of(a).len() && self.owned_of(a)[j] == id;
                        assert(pre.owned_of(a)[j] == id);
                    }
                    if self.owns(a, id) && id != kitty_id {
                        assert(pre.owned_of(a).contains(id));
                        let j = choose|j: int| 0 <= j < pre.owned_of(a).len() && pre.owned_of(a)[j] == id;
                        assert(self.owned_of(a)[j] == id);
                    }
                    if id == kitty_id {
                        assert(self.owned_of(a)[pre.owned_of(a).len() as int] == id);
                    }
                } else {
                    assert(pre.owned_of(a).contains(id) <==> pre.owns(a, id));
                }
            }
            assert forall|a: AccountId| #[trigger] self.owned_of(a).no_duplicates() by {
                assert(pre.owned_of(a).no_duplicates());
            }
            assert forall|a: AccountId| #[trigger] self.owned_of(a).len() <= self.max_kitties_owned by {
                assert(pre.owned_of(a).len() <= pre.max_kitties_owned);
            }
        }
        Ok(())
    }

    /// Mints a kitty for the signer of `origin`, with the identifier and
    /// attribute that `gen_dna` derives from the entropy sample, the
    /// extrinsic index and the block number.
    pub fn create_kitty(
        &mut self,
        origin: Origin,
        random: [u8; 32],
        extrinsic_index: Option<u32>,
        block_number: u32,
    ) -> (r: Result<KittyId, Error>)
        requires
            old(self).wf(),
        ensures
            final(self).wf(),
            Self::create_outcome(*old(self), *final(self), origin, random@, extrinsic_index, block_number, r),
    {
        let sender = match ensure_signed(origin) {
            Ok(a) => a,
            Err(e) => return Err(e),
        };
        let (dna, gender) = gen_dna(random, extrinsic_index, block_number);
        proof {
            let d = digest_of(random@, extrinsic_index, block_number);
            assert(le_value(d) as u128 == dna);
        }
        self.mint(sender, dna, gender)
    }

    /// Moves kitty `kitty_id` from the signer of `origin`, who must own it,
    /// to `to`.
    pub fn transfer(&mut self, origin: Origin, to: AccountId, kitty_id: KittyId) -> (r: Result<(), Error>)
        requires
            old(self).wf(),
        ensures
            final(self).wf(),
            Self::transfer_call_outcome(*old(self), *final(self), origin, to, kitty_id, r),
    {
        let from = match ensure_signed(origin) {
            Ok(a) => a,
            Err(e) => return Err(e),
        };
        let kitty = match self.kitties.get(&kitty_id) {
            Some(k) => *k,
            None => return Err(Error::NoKitty),
        };
        if kitty.owner != from {
            return Err(Error::NotOwner);
        }
        self.do_transfer(kitty_id, to)
    }

    /// Sets or clears the price of kitty `kitty_id`, which the signer of
    /// `origin` must own.
    pub fn set_price(&mut self, origin: Origin, kitty_id: KittyId, price: Option<Balance>) -> (r: Result<(), Error>)
        requires
            old(self).wf(),
        ensures
            final(self).wf(),
            Self::set_price_outcome(*old(self), *final(self), origin, kitty_id, price, r),
    {
        let sender = match ensure_signed(origin) {
            Ok(a) => a,
            Err(e) => return Err(e),
        };
        let kitty = match self.kitties.get(&kitty_id) {
            Some(k) => *k,
            None => return Err(Error::NoKitty),
        };
        if kitty.owner != sender {
            return Err(Error::NotOwner);
        }
        let ghost pre = *self;
        self.kitties.insert(
            kitty_id,
            Kitty { dna: kitty.dna, price, gender: kitty.gender, owner: kitty.owner },
        );
        proof {
            assert(self.kitties@.dom() =~= pre.kitties@.dom());
            assert forall|a: AccountId| #[trigger] self.owned_of(a) == pre.owned_of(a) by {}
            assert forall|a: AccountId| #[trigger] self.owned_of(a).no_duplicates() by {
                assert(pre.owned_of(a).no_duplicates());
            }
            assert forall|a: AccountId| #[trigger] self.owned_of(a).len() <= self.max_kitties_owned by {
                assert(pre.owned_of(a).len() <= pre.max_kitties_owned);
            }
            assert forall|a: AccountId, id: KittyId|
                #![trigger self.owned_of(a).contains(id)]
                #![trigger self.owns(a, id)]
                self.owned_of(a).contains(id) <==> self.owns(a, id) by {
                assert(pre.owned_of(a).contains(id) <==> pre.owns(a, id));
            }
        }
        self.deposit_event(Event::PriceSet { kitty: kitty_id, price });
        Ok(())
    }

    /// The payment a purchase of kitty `kitty_id` by `buyer` bidding
    /// `bid_price` asks for: the asking price, not the bid, from the buyer
    /// to the owner. Fails as the purchase itself would before paying.
    pub fn buy_quote(&self, kitty_id: KittyId, buyer: AccountId, bid_price: Balance) -> (r: Result<Payment, Error>)
        requires
            self.wf(),
        ensures
            match self.buy_error(kitty_id, buyer, bid_price) {
                Some(e) => r == Err::<Payment, Error>(e),
                None => r == Ok::<Payment, Error>(
                    Payment {
                        from: buyer,
                        to: self.kitties_view()[kitty_id].owner,
                        amount: self.kitties_view()[kitty_id].price->Some_0,
                    },
                ),
            },
    {
        let kitty = match self.kitties.get(&kitty_id) {
            Some(k) => *k,
            None => return Err(Error::NoKitty),
        };
        let from = kitty.owner;
        if buyer == from {
            return Err(Error::TransferToSelf);
        }
        let price = match kitty.price {
            Some(p) => p,
            None => return Err(Error::NotForSale),
        };
        if bid_price < price {
            return Err(Error::BidPriceTooLow);
        }
        if self.owned_len(buyer) >= self.max_kitties_owned as usize {
            return Err(Error::TooManyOwned);
        }
        Ok(Payment { from: buyer, to: from, amount: price })
    }

    /// Completes the purchase of kitty `kitty_id` by `to` bidding
    /// `bid_price`, where `payment` is the outcome of making the payment
    /// that `buy_quote` gave. A failed payment aborts the sale unchanged.
    pub fn do_buy_kitty(
        &mut self,
        kitty_id: KittyId,
        to: AccountId,
        bid_price: Balance,
        payment: Result<(), Error>,
    ) -> (r: Result<(), Error>)
        requires
            old(self).wf(),
        ensures
            final(self).wf(),
            Self::buy_outcome(*old(self), *final(self), kitty_id, to, bid_price, payment, r),
    {
        let quote = match self.buy_quote(kitty_id, to, bid_price) {
            Ok(q) => q,
            Err(e) => return Err(e),
        };
        match payment {
            Ok(_) => {},
            Err(e) => return Err(e),
        }
        let ghost pre = *self;
        let moved = self.do_transfer(kitty_id, to);
        proof {
            assert(pre.transfer_error(kitty_id, to) is None);
            assert(moved is Ok);
        }
        let ghost mid = *self;
        self.deposit_event(Event::Sold { seller: quote.to, buyer: to, kitty: kitty_id, price: quote.amount });
        proof {
            assert forall|a: AccountId| #[trigger] self.owned_of(a) == mid.owned_of(a) by {}
        }
        Ok(())
    }

    /// The record of kitty `kitty_id`, if it exists.
    pub fn kitty(&self, kitty_id: KittyId) -> (r: Option<Kitty>)
        ensures
            r == (if self.kitties_view().contains_key(kitty_id) {
                Some(self.kitties_view()[kitty_id])
            } else {
                None::<Kitty>
            }),
    {
        match self.kitties.get(&kitty_id) {
            Some(k) => Some(*k),
            None => None,
        }
    }

    /// The identifiers listed for `owner`.
    pub fn kitties_owned(&self, owner: AccountId) -> (r: Vec<KittyId>)
        ensures
            r@ == self.owned_of(owner),
    {
        match self.kitties_owned.get(&owner) {
            Some(v) => {
                let mut out: Vec<KittyId> = Vec::new();
                let mut i: usize = 0;
                while i < v.len()
                    invariant
                        i <= v@.len(),
                        out@ == v@.subrange(0, i as int),
                    decreases v@.len() - i,
                {
                    out.push(v[i]);
                    i = i + 1;
                }
                proof {
                    assert(v@.subrange(0, v@.len() as int) =~= v@);
                }
                out
            },
            None => Vec::new(),
        }
    }

    /// The number of kitties minted so far.
    pub fn count_for_kitties(&self) -> (r: u64)
        ensures
            r == self.count(),
    {
        self.count_for_kitties
    }

    /// How many kitties one account may own.
    pub fn max_kitties_owned(&self) -> (r: u32)
        ensures
            r == self.max_owned(),
    {
        self.max_kitties_owned
    }

    /// The notifications emitted so far, oldest first.
    pub fn events(&self) -> (r: &Vec<Event>)
        ensures
            r@ == self.events_view(),
    {
        &self.events
    }

    /// In a well-formed registry an identifier is listed for an account
    /// exactly when the kitty's record names that account as its owner.
    pub proof fn lemma_ownership_consistent(&self, a: AccountId, id: KittyId)
        requires
            self.wf(),
        ensures
            self.owned_of(a).contains(id) <==> self.owns(a, id),
    {
    }

    /// In a well-formed registry no account's list is longer than the
    /// capacity, nor repeats an identifier.
    pub proof fn lemma_capacity_respected(&self, a: AccountId)
        requires
            self.wf(),
        ensures
            self.owned_of(a).len() <= self.max_owned(),
            self.owned_of(a).no_duplicates(),
    {
    }

    /// In a well-formed registry the count is the number of kitties.
    pub proof fn lemma_count_is_population(&self)
        requires
            self.wf(),
        ensures
            self.count() as nat == self.kitties_view().len(),
    {
    }
}

} // verus!
