use vstd::prelude::*;

use crate::registry::Pallet;
use crate::types::{AccountId, Balance, Error, Gender, KittyId, Origin};

verus! {

/// One call on the registry, with the result it returned.
pub enum Op {
    Mint { owner: AccountId, dna: KittyId, gender: Gender, r: Result<KittyId, Error> },
    Create {
        origin: Origin,
        random: [u8; 32],
        extrinsic_index: Option<u32>,
        block_number: u32,
        r: Result<KittyId, Error>,
    },
    Transfer { origin: Origin, to: AccountId, id: KittyId, r: Result<(), Error> },
    DoTransfer { id: KittyId, to: AccountId, r: Result<(), Error> },
    SetPrice { origin: Origin, id: KittyId, price: Option<Balance>, r: Result<(), Error> },
    Buy {
        id: KittyId,
        buyer: AccountId,
        bid: Balance,
        payment: Result<(), Error>,
        r: Result<(), Error>,
    },
}

/// `post` is what the call `op` leaves of `pre`.
pub open spec fn op_outcome(pre: Pallet, post: Pallet, op: Op) -> bool {
    match op {
        Op::Mint { owner, dna, gender, r } => Pallet::mint_outcome(pre, post, owner, dna, gender, r),
        Op::Create { origin, random, extrinsic_index, block_number, r } => Pallet::create_outcome(
            pre,
            post,
            origin,
            random@,
            extrinsic_index,
            block_number,
            r,
        ),
        Op::Transfer { origin, to, id, r } => Pallet::transfer_call_outcome(pre, post, origin, to, id, r),
        Op::DoTransfer { id, to, r } => Pallet::transfer_outcome(pre, post, id, to, r),
        Op::SetPrice { origin, id, price, r } => Pallet::set_price_outcome(pre, post, origin, id, price, r),
        Op::Buy { id, buyer, bid, payment, r } => Pallet::buy_outcome(pre, post, id, buyer, bid, payment, r),
    }
}

/// The identifier a call minted, if it minted one.
pub open spec fn minted(op: Op) -> Option<KittyId> {
    match op {
        Op::Mint { r, .. } => match r {
            Ok(id) => Some(id),
            Err(_) => None,
        },
        Op::Create { r, .. } => match r {
            Ok(id) => Some(id),
            Err(_) => None,
        },
        _ => None,
    }
}

/// `states[i + 1]` is what the call `ops[i]` left of `states[i]`, for each `i`.
pub open spec fn is_run(states: Seq<Pallet>, ops: Seq<Op>) -> bool {
    &&& states.len() == ops.len() + 1
    &&& forall|i: int| 0 <= i < ops.len() ==> op_outcome(#[trigger] states[i], states[i + 1], ops[i])
}

/// How many calls in `ops` minted a kitty.
pub open spec fn mints_in(ops: Seq<Op>) -> nat
    decreases ops.len(),
{
    if ops.len() == 0 {
        0
    } else {
        mints_in(ops.drop_last()) + if minted(ops.last()) is Some {
            1nat
        } else {
            0nat
        }
    }
}

/// A call keeps every kitty, and changes the count by one exactly when it
/// mints.
proof fn lemma_step(pre: Pallet, post: Pallet, op: Op)
    requires
        op_outcome(pre, post, op),
    ensures
        pre.kitties_view().dom().subset_of(post.kitties_view().dom()),
        post.count() == pre.count() + if minted(op) is Some {
            1int
        } else {
            0int
        },
        minted(op) matches Some(id) ==> !pre.kitties_view().contains_key(id)
            && post.kitties_view().contains_key(id),
{
}

/// A successful mint returns an identifier that was absent just before
/// and is present just after.
pub proof fn lemma_mint_fresh(pre: Pallet, post: Pallet, op: Op, id: KittyId)
    requires
        op_outcome(pre, post, op),
        minted(op) == Some(id),
    ensures
        !pre.kitties_view().contains_key(id),
        post.kitties_view().contains_key(id),
{
    lemma_step(pre, post, op);
}

/// Along a run no kitty disappears.
proof fn lemma_run_keeps_kitties(states: Seq<Pallet>, ops: Seq<Op>, i: int, j: int)
    requires
        is_run(states, ops),
        0 <= i <= j < states.len(),
    ensures
        states[i].kitties_view().dom().subset_of(states[j].kitties_view().dom()),
    decreases j - i,
{
    if i < j {
        lemma_run_keeps_kitties(states, ops, i, j - 1);
        lemma_step(states[j - 1], states[j], ops[j - 1]);
    }
}

/// No two successful mints in one run return the same identifier.
pub proof fn lemma_minted_ids_distinct(states: Seq<Pallet>, ops: Seq<Op>, i: int, j: int)
    requires
        is_run(states, ops),
        0 <= i < j < ops.len(),
        minted(ops[i]) is Some,
        minted(ops[j]) is Some,
    ensures
        minted(ops[i]) != minted(ops[j]),
{
    lemma_step(states[i], states[i + 1], ops[i]);
    lemma_step(states[j], states[j + 1], ops[j]);
    lemma_run_keeps_kitties(states, ops, i + 1, j);
}

/// After a run the count has grown by the number of successful mints;
/// transfers, price changes and sales leave it alone.
pub proof fn lemma_count_conserved(states: Seq<Pallet>, ops: Seq<Op>)
    requires
        is_run(states, ops),
    ensures
        states.last().count() == states[0].count() + mints_in(ops),
    decreases ops.len(),
{
    if ops.len() > 0 {
        let n = ops.len() - 1;
        let s2 = states.drop_last();
        let o2 = ops.drop_last();
        assert forall|i: int| 0 <= i < o2.len() implies op_outcome(#[trigger] s2[i], s2[i + 1], o2[i]) by {
            assert(op_outcome(states[i], states[i + 1], ops[i]));
        }
        lemma_count_conserved(s2, o2);
        lemma_step(states[n], states[n + 1], ops[n]);
    }
}

/// A purchase whose payment failed changes nothing: owner, price and
/// every list stay as they were.
pub proof fn lemma_sale_atomic(
    pre: Pallet,
    post: Pallet,
    id: KittyId,
    buyer: AccountId,
    bid: Balance,
    e: Error,
    r: Result<(), Error>,
)
    requires
        Pallet::buy_outcome(pre, post, id, buyer, bid, Err(e), r),
    ensures
        r is Err,
        post == pre,
        post.kitties_view() == pre.kitties_view(),
        forall|a: AccountId| #[trigger] post.owned_of(a) == pre.owned_of(a),
{
}

/// The call is a transfer or a purchase that succeeded.
pub open spec fn moved(op: Op) -> bool {
    match op {
        Op::Transfer { r, .. } => r is Ok,
        Op::DoTransfer { r, .. } => r is Ok,
        Op::Buy { r, .. } => r is Ok,
        _ => false,
    }
}

/// After a successful transfer or sale the kitty belongs to its receiver
/// and carries no price.
pub proof fn lemma_price_reset(pre: Pallet, post: Pallet, op: Op)
    requires
        op_outcome(pre, post, op),
        moved(op),
    ensures
        match op {
            Op::Transfer { id, to, .. } => post.kitties_view()[id].price is None
                && post.kitties_view()[id].owner == to,
            Op::DoTransfer { id, to, .. } => post.kitties_view()[id].price is None
                && post.kitties_view()[id].owner == to,
            Op::Buy { id, buyer, .. } => post.kitties_view()[id].price is None
                && post.kitties_view()[id].owner == buyer,
            _ => true,
        },
{
}

/// Minting for an account at capacity fails and changes nothing; once the
/// identifier is free and the count can grow, the error is `TooManyOwned`.
pub proof fn lemma_mint_at_capacity(
    pre: Pallet,
    post: Pallet,
    owner: AccountId,
    dna: KittyId,
    gender: Gender,
    r: Result<KittyId, Error>,
)
    requires
        Pallet::mint_outcome(pre, post, owner, dna, gender, r),
        pre.owned_of(owner).len() == pre.max_owned(),
    ensures
        r is Err,
        post == pre,
        !pre.kitties_view().contains_key(dna) && pre.count() < u64::MAX ==> r == Err::<KittyId, Error>(
            Error::TooManyOwned,
        ),
{
}

/// Moving a kitty to an account at capacity fails and changes nothing;
/// once the kitty exists and belongs to another account, the error is
/// `TooManyOwned`.
pub proof fn lemma_transfer_at_capacity(
    pre: Pallet,
    post: Pallet,
    id: KittyId,
    to: AccountId,
    r: Result<(), Error>,
)
    requires
        Pallet::transfer_outcome(pre, post, id, to, r),
        pre.owned_of(to).len() == pre.max_owned(),
    ensures
        r is Err,
        post == pre,
        pre.kitties_view().contains_key(id) && pre.kitties_view()[id].owner != to ==> r == Err::<
            (),
            Error,
        >(Error::TooManyOwned),
{
}

} // verus!
