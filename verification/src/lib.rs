use vstd::prelude::*;

pub mod airdrop;
pub mod browser;
pub mod history;
pub mod quick_share;
pub mod random;
pub mod settings;
pub mod status;
pub mod text;

verus! {

/// Version of the machine-readable documents that this library emits.
pub const SCHEMA_VERSION: u8 = 1;

} // verus!
