//! A registry of uniquely identified collectables: minting, ownership under a
//! bounded per-owner capacity, transfer, listing and sale.
pub mod dna;
pub mod laws;
pub mod registry;
pub mod types;

pub use dna::{dna_from_digest, gen_dna};
pub use registry::Pallet;
pub use types::{ensure_signed, AccountId, Balance, Config, Error, Event, Gender, Kitty, KittyId, Origin, Payment};
