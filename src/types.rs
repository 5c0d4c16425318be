use vstd::prelude::*;

verus! {

/// Account identifiers.
pub type AccountId = u64;

/// Monetary amounts.
pub type Balance = u128;

/// Asset identifiers: the 128-bit digest that names a kitty.
pub type KittyId = u128;

/// The binary attribute fixed when a kitty is created.
#[derive(Clone, Copy, Debug, PartialEq, Eq, Structural)]
pub enum Gender {
    Male,
    Female,
}

/// One asset record.
#[derive(Clone, Copy, Debug, PartialEq, Eq, Structural)]
pub struct Kitty {
    pub dna: KittyId,
    pub price: Option<Balance>,
    pub gender: Gender,
    pub owner: AccountId,
}

/// Notifications emitted by successful operations.
#[derive(Clone, Copy, Debug, PartialEq, Eq, Structural)]
pub enum Event {
    Created { kitty: KittyId, owner: AccountId },
    Transferred { from: AccountId, to: AccountId, kitty: KittyId },
    PriceSet { kitty: KittyId, price: Option<Balance> },
    Sold { seller: AccountId, buyer: AccountId, kitty: KittyId, price: Balance },
}

/// Why an operation was rejected.
#[derive(Clone, Copy, Debug, PartialEq, Eq, Structural)]
pub enum Error {
    /// The owner already holds as many kitties as the capacity allows.
    TooManyOwned,
    /// A kitty with this identifier already exists.
    DuplicateKitty,
    /// The global count cannot be incremented.
    Overflow,
    /// No kitty has this identifier.
    NoKitty,
    /// The caller does not own the kitty.
    NotOwner,
    /// Source and destination are the same account.
    TransferToSelf,
    /// The bid is below the asking price.
    BidPriceTooLow,
    /// The kitty carries no price.
    NotForSale,
    /// The request does not come from a signed account.
    BadOrigin,
    /// The payment for a sale could not be made.
    InsufficientFunds,
}

/// Who a request comes from.
#[derive(Clone, Copy, Debug, PartialEq, Eq, Structural)]
pub enum Origin {
    Root,
    Signed(AccountId),
    Unsigned,
}

/// A payment that a sale asks for: `amount` from `from` to `to`.
#[derive(Clone, Copy, Debug, PartialEq, Eq, Structural)]
pub struct Payment {
    pub from: AccountId,
    pub to: AccountId,
    pub amount: Balance,
}

/// Configuration of a registry.
#[derive(Clone, Copy, Debug, PartialEq, Eq, Structural)]
pub struct Config {
    /// How many kitties one account may own at most.
    pub max_kitties_owned: u32,
}

/// The signing account of a request, or `BadOrigin`.
pub fn ensure_signed(origin: Origin) -> (r: Result<AccountId, Error>)
    ensures
        r == (match origin {
            Origin::Signed(a) => Ok::<AccountId, Error>(a),
            _ => Err(Error::BadOrigin),
        }),
{
    match origin {
        Origin::Signed(a) => Ok(a),
        _ => Err(Error::BadOrigin),
    }
}

} // verus!
