//! A registry of artist records keyed by owner account and by name.
//!
//! The library keeps one record per registered owner, enforces name
//! uniqueness at registration time, guards unregistration behind a
//! verification lock and a cooldown period, and applies field-level
//! updates atomically.  Large content (descriptions, assets) is stored
//! as a blake2-256 fingerprint rather than as raw bytes.

use vstd::prelude::*;

pub mod genres;
pub mod hashing;
pub mod laws;
pub mod ledger;
pub mod registry;
pub mod types;

verus! {

/// Capacity bounds and economic constants of one registry instance.
#[derive(Clone, Copy)]
pub struct Config {
    /// Amount reserved from an owner's free balance at registration.
    pub base_deposit: u64,
    /// Blocks that must elapse after registration before unregistering.
    pub unregister_period: u64,
    /// Maximum length in bytes of a main name or an alias.
    pub max_name_len: usize,
    /// Maximum number of genres on one record.
    pub max_genres: usize,
    /// Maximum number of asset fingerprints on one record.
    pub max_assets: usize,
    /// Maximum number of associated contract accounts on one record.
    pub max_contracts: usize,
}

/// Every way a registry call can fail.
#[derive(Clone, Copy, PartialEq, Eq, Structural, Debug)]
pub enum Error {
    /// A genre appears multiple times in the artist data.
    NotUniqueGenre,
    /// An asset appears multiple times in the artist data.
    NotUniqueAsset,
    /// The artist name is already taken.
    NameUnavailable,
    /// The account is not registered as an artist.
    NotRegistered,
    /// The account is already registered as an artist.
    AlreadyRegistered,
    /// The artist is verified and cannot unregister.
    IsVerified,
    /// The unregister period has not fully passed.
    PeriodNotPassed,
    /// A capacity bound of the record would be exceeded.
    Full,
    /// The element to remove was not found.
    NotFound,
    /// The free balance cannot cover the deposit.
    InsufficientBalance,
}

} // verus!
