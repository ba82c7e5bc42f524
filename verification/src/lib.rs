//! A proof-of-existence registry: it binds an opaque claim (a bounded byte
//! string, typically a content fingerprint) to the account that currently owns
//! it and to the block at which that ownership was last written.
//!
//! Claims are created, revoked and transferred through [`Pallet`]; every
//! accepted call appends one [`Event`], every rejected call leaves the
//! registry as it was.

pub mod laws;
pub mod pallet;
pub mod proofs;
pub mod types;

pub use pallet::{Pallet, PalletView};
pub use proofs::Proofs;
pub use types::{AccountId, BlockNumber, Config, Error, Event, EventView};
