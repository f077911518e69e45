//! The statistics cache's decisions.
//!
//! Computed character statistics are cached under the character's name with
//! a fixed expiry. The cache connection and the serialization live outside
//! the library; this module states how a cache reply is interpreted: only a
//! well-formed cached body is a hit, and every failure — a miss, a body that
//! does not decode, or a cache error — falls back to computing the
//! statistics afresh.

use vstd::prelude::*;

use crate::stats_processing::CharacterStats;

verus! {

/// The cache expiry of one statistics entry, in seconds.
pub const EXPIRE_INTERVAL: u64 = 14400;

/// What the cache answered for one character name.
pub enum CacheReply {
    /// An entry was found; `Some` when its body decoded into statistics.
    Value(Option<CharacterStats>),
    /// No entry under the name: a miss.
    TypeError,
    /// Any other cache failure.
    OtherError,
}

/// Interprets one cache reply: only a decoded body is a hit; a miss, an
/// undecodable body and a cache failure all fall back to a fresh
/// computation.
pub fn check_cache_character_stats(reply: CacheReply) -> (r: Option<CharacterStats>)
    ensures
        reply matches CacheReply::Value(Some(stats)) ==> r == Some(stats),
        reply matches CacheReply::Value(v) && v is None ==> r is None,
        reply is TypeError ==> r is None,
        reply is OtherError ==> r is None,
{
    match reply {
        CacheReply::Value(Some(stats)) => Some(stats),
        CacheReply::Value(None) => None,
        CacheReply::TypeError => None,
        CacheReply::OtherError => None,
    }
}

} // verus!
