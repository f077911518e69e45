//! Row types of the relational store.
//!
//! Every entity is keyed by an externally assigned 64-bit identifier, except
//! the killmail children (victim, attacker, position), which carry a
//! store-assigned surrogate key and a foreign key to their killmail.
//! Timestamps are Unix seconds; floating-point measurements from the upstream
//! payloads (coordinates, security status, mass) are carried through opaquely
//! as their IEEE-754 bit patterns, since the pipeline never computes on them.

use vstd::prelude::*;

verus! {

/// Root record of a kill event. Immutable once inserted; its presence is the
/// sole guard against reprocessing the same killmail.
#[derive(Clone, Copy, PartialEq, Eq, Structural, Debug)]
pub struct KillmailRow {
    pub killmail_id: u64,
    pub killmail_time: i64,
    pub solar_system_id: u64,
}

/// The single victim of a killmail.
#[derive(Clone, Copy, PartialEq, Eq, Structural, Debug)]
pub struct VictimRow {
    pub victim_id: u64,
    pub alliance_id: Option<u64>,
    pub character_id: Option<u64>,
    pub faction_id: Option<u64>,
    pub corporation_id: Option<u64>,
    pub damage_taken: u64,
    pub ship_type_id: u64,
    pub killmail_id: u64,
}

/// One attacker of a killmail; a killmail has one or more.
#[derive(Clone, Copy, PartialEq, Eq, Structural, Debug)]
pub struct AttackerRow {
    pub attacker_id: u64,
    pub character_id: Option<u64>,
    pub alliance_id: Option<u64>,
    pub corporation_id: Option<u64>,
    pub faction_id: Option<u64>,
    pub damage_done: u64,
    pub final_blow: bool,
    pub security_status_bits: u32,
    pub ship_type_id: Option<u64>,
    pub weapon_type_id: Option<u64>,
    pub killmail_id: u64,
}

/// Optional location of a kill; zero or one per killmail.
#[derive(Clone, Copy, PartialEq, Eq, Structural, Debug)]
pub struct PositionRow {
    pub position_id: u64,
    pub x_bits: u64,
    pub y_bits: u64,
    pub z_bits: u64,
    pub killmail_id: u64,
}

/// Public information of a character, populated lazily on first reference.
#[derive(Clone, PartialEq, Debug)]
pub struct CharacterRow {
    pub character_id: u64,
    pub alliance_id: Option<u64>,
    pub character_name: String,
    pub birthday: Option<String>,
    pub corporation_id: u64,
    pub faction_id: Option<u64>,
    pub last_updated: Option<i64>,
}

/// An alliance, populated lazily on first reference.
#[derive(Clone, PartialEq, Debug)]
pub struct AllianceRow {
    pub alliance_id: u64,
    pub faction_id: Option<u64>,
    pub name: String,
    pub ticker: String,
}

/// A corporation, populated lazily on first reference.
#[derive(Clone, PartialEq, Debug)]
pub struct CorporationRow {
    pub corporation_id: u64,
    pub alliance_id: Option<u64>,
    pub faction_id: Option<u64>,
    pub member_count: Option<u64>,
    pub name: String,
    pub ticker: String,
    pub war_eligible: Option<bool>,
}

/// A faction, from the one-shot faction list import.
#[derive(Clone, PartialEq, Debug)]
pub struct FactionRow {
    pub faction_id: u64,
    pub corporation_id: Option<u64>,
    pub militia_corporation_id: Option<u64>,
    pub name: String,
}

/// A static item-type category.
#[derive(Clone, PartialEq, Debug)]
pub struct EsiCategoryRow {
    pub category_id: u64,
    pub category_name: String,
}

/// A static item-type group.
#[derive(Clone, PartialEq, Debug)]
pub struct EsiGroupRow {
    pub group_id: u64,
    pub group_name: String,
    pub category_id: u64,
}

/// A static item type.
#[derive(Clone, PartialEq, Debug)]
pub struct EsiTypeRow {
    pub type_id: u64,
    pub description: String,
    pub group_id: u64,
    pub name_of_type: String,
    pub mass_bits: Option<u32>,
}

} // verus!
