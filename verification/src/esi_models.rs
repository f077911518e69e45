//! Payload types of the remote metadata API, and their conversions into
//! store rows.
//!
//! A payload mirrors the JSON body of one endpoint. Conversions that move
//! their input pin the produced row exactly; conversions from borrowed data
//! are described by `..._row_like` predicates that compare text fields by
//! view.

use vstd::prelude::*;

use crate::entity::{
    AllianceRow, AttackerRow, CharacterRow, CorporationRow, EsiCategoryRow, EsiGroupRow,
    EsiTypeRow, FactionRow, KillmailRow, PositionRow, VictimRow,
};

verus! {

/// A reference to one killmail in the historical index: its decimal id and
/// its verification hash.
#[derive(Clone, Debug)]
pub struct ESIKillmailRequest {
    pub id: String,
    pub hash: String,
}

/// Public information of a character as the remote API reports it.
#[derive(Clone, Debug)]
pub struct EsiCharacterPublicInfo {
    pub alliance_id: Option<u64>,
    pub birthday: Option<String>,
    pub corporation_id: u64,
    pub faction_id: Option<u64>,
    pub name: String,
    pub security_status_bits: u32,
}

/// A full killmail payload, as fetched by id and hash or as delivered by the
/// live feed.
#[derive(Clone, Debug)]
pub struct ESIKillmail {
    pub killmail_id: u64,
    pub killmail_time: i64,
    pub solar_system_id: u64,
    pub victim: ESIVictim,
    pub attackers: Vec<ESIAttacker>,
}

/// The victim part of a killmail payload.
#[derive(Clone, Copy, PartialEq, Eq, Structural, Debug)]
pub struct ESIVictim {
    pub alliance_id: Option<u64>,
    pub character_id: Option<u64>,
    pub faction_id: Option<u64>,
    pub corporation_id: Option<u64>,
    pub damage_taken: u64,
    pub ship_type_id: u64,
    pub position: Option<ESIKillPosition>,
}

/// One attacker of a killmail payload.
#[derive(Clone, Copy, PartialEq, Eq, Structural, Debug)]
pub struct ESIAttacker {
    pub alliance_id: Option<u64>,
    pub character_id: Option<u64>,
    pub corporation_id: Option<u64>,
    pub faction_id: Option<u64>,
    pub damage_done: u64,
    pub final_blow: bool,
    pub security_status_bits: u32,
    pub ship_type_id: Option<u64>,
    pub weapon_type_id: Option<u64>,
}

/// The optional kill location of a payload, as IEEE-754 bit patterns.
#[derive(Clone, Copy, PartialEq, Eq, Structural, Debug)]
pub struct ESIKillPosition {
    pub x_bits: u64,
    pub y_bits: u64,
    pub z_bits: u64,
}

/// A faction from the faction list endpoint.
#[derive(Clone, Debug)]
pub struct ESIFaction {
    pub faction_id: u64,
    pub corporation_id: Option<u64>,
    pub militia_corporation_id: Option<u64>,
    pub name: String,
}

/// An alliance body; its id comes from the request path, not the body.
#[derive(Clone, Debug)]
pub struct ESIAlliance {
    pub faction_id: Option<u64>,
    pub name: String,
    pub ticker: String,
}

/// A corporation body; its id comes from the request path, not the body.
#[derive(Clone, Debug)]
pub struct ESICorporation {
    pub alliance_id: Option<u64>,
    pub faction_id: Option<u64>,
    pub member_count: Option<u64>,
    pub name: String,
    pub ticker: String,
    pub war_eligible: Option<bool>,
}

/// An item-type category from the taxonomy endpoints.
#[derive(Clone, Debug)]
pub struct ESICategory {
    pub category_id: u64,
    pub groups: Vec<u64>,
    pub name: String,
}

/// An item-type group from the taxonomy endpoints.
#[derive(Clone, Debug)]
pub struct ESIGroup {
    pub category_id: u64,
    pub group_id: u64,
    pub name: String,
    pub types: Vec<u64>,
}

/// An item type from the taxonomy endpoints.
#[derive(Clone, Debug)]
pub struct ESIType {
    pub type_id: u64,
    pub description: String,
    pub group_id: u64,
    pub name: String,
    pub mass_bits: Option<u32>,
}

/// The view of an optional text field.
pub open spec fn opt_str_view(o: Option<String>) -> Option<Seq<char>> {
    match o {
        Some(s) => Some(s@),
        None => None,
    }
}

/// The victim row that a payload victim yields, before the store assigns the
/// surrogate key.
pub open spec fn victim_row_of(item: ESIVictim, vid: u64, km_id: u64) -> VictimRow {
    VictimRow {
        victim_id: vid,
        alliance_id: item.alliance_id,
        character_id: item.character_id,
        faction_id: item.faction_id,
        corporation_id: item.corporation_id,
        damage_taken: item.damage_taken,
        ship_type_id: item.ship_type_id,
        killmail_id: km_id,
    }
}

/// The attacker row that a payload attacker yields.
pub open spec fn attacker_row_of(item: ESIAttacker, aid: u64, km_id: u64) -> AttackerRow {
    AttackerRow {
        attacker_id: aid,
        character_id: item.character_id,
        alliance_id: item.alliance_id,
        corporation_id: item.corporation_id,
        faction_id: item.faction_id,
        damage_done: item.damage_done,
        final_blow: item.final_blow,
        security_status_bits: item.security_status_bits,
        ship_type_id: item.ship_type_id,
        weapon_type_id: item.weapon_type_id,
        killmail_id: km_id,
    }
}

/// The position row that a payload position yields.
pub open spec fn position_row_of(item: ESIKillPosition, pid: u64, km_id: u64) -> PositionRow {
    PositionRow {
        position_id: pid,
        x_bits: item.x_bits,
        y_bits: item.y_bits,
        z_bits: item.z_bits,
        killmail_id: km_id,
    }
}

/// The killmail row that a payload yields.
pub open spec fn killmail_row_of(item: ESIKillmail) -> KillmailRow {
    KillmailRow {
        killmail_id: item.killmail_id,
        killmail_time: item.killmail_time,
        solar_system_id: item.solar_system_id,
    }
}

/// Whether a character row carries the given id and public info.
pub open spec fn character_row_like(r: CharacterRow, id: u64, info: EsiCharacterPublicInfo) -> bool {
    &&& r.character_id == id
    &&& r.alliance_id == info.alliance_id
    &&& r.character_name@ == info.name@
    &&& opt_str_view(r.birthday) == opt_str_view(info.birthday)
    &&& r.corporation_id == info.corporation_id
    &&& r.faction_id == info.faction_id
    &&& r.last_updated is None
}

/// Whether an alliance row carries the given id and body.
pub open spec fn alliance_row_like(r: AllianceRow, id: u64, item: ESIAlliance) -> bool {
    &&& r.alliance_id == id
    &&& r.faction_id == item.faction_id
    &&& r.name@ == item.name@
    &&& r.ticker@ == item.ticker@
}

/// Whether a corporation row carries the given id and body.
pub open spec fn corporation_row_like(r: CorporationRow, id: u64, item: ESICorporation) -> bool {
    &&& r.corporation_id == id
    &&& r.alliance_id == item.alliance_id
    &&& r.faction_id == item.faction_id
    &&& r.member_count == item.member_count
    &&& r.name@ == item.name@
    &&& r.ticker@ == item.ticker@
    &&& r.war_eligible == item.war_eligible
}

/// Whether a faction row carries the given body.
pub open spec fn faction_row_like(r: FactionRow, item: ESIFaction) -> bool {
    &&& r.faction_id == item.faction_id
    &&& r.corporation_id == item.corporation_id
    &&& r.militia_corporation_id == item.militia_corporation_id
    &&& r.name@ == item.name@
}

/// Whether a category row carries the given body.
pub open spec fn category_row_like(r: EsiCategoryRow, item: ESICategory) -> bool {
    &&& r.category_id == item.category_id
    &&& r.category_name@ == item.name@
}

/// Whether a group row carries the given body.
pub open spec fn group_row_like(r: EsiGroupRow, item: ESIGroup) -> bool {
    &&& r.group_id == item.group_id
    &&& r.group_name@ == item.name@
    &&& r.category_id == item.category_id
}

/// Whether a type row carries the given body.
pub open spec fn type_row_like(r: EsiTypeRow, item: ESIType) -> bool {
    &&& r.type_id == item.type_id
    &&& r.description@ == item.description@
    &&& r.group_id == item.group_id
    &&& r.name_of_type@ == item.name@
    &&& r.mass_bits == item.mass_bits
}

/// Whether two faction bodies agree, comparing text by view.
pub open spec fn esi_faction_like(a: ESIFaction, b: ESIFaction) -> bool {
    &&& a.faction_id == b.faction_id
    &&& a.corporation_id == b.corporation_id
    &&& a.militia_corporation_id == b.militia_corporation_id
    &&& a.name@ == b.name@
}

/// Whether two killmail payloads agree, comparing the attacker list by view.
pub open spec fn esi_killmail_like(a: ESIKillmail, b: ESIKillmail) -> bool {
    &&& a.killmail_id == b.killmail_id
    &&& a.killmail_time == b.killmail_time
    &&& a.solar_system_id == b.solar_system_id
    &&& a.victim == b.victim
    &&& a.attackers@ == b.attackers@
}

/// Whether two category bodies agree.
pub open spec fn esi_category_like(a: ESICategory, b: ESICategory) -> bool {
    &&& a.category_id == b.category_id
    &&& a.groups@ == b.groups@
    &&& a.name@ == b.name@
}

/// Whether two group bodies agree.
pub open spec fn esi_group_like(a: ESIGroup, b: ESIGroup) -> bool {
    &&& a.category_id == b.category_id
    &&& a.group_id == b.group_id
    &&& a.name@ == b.name@
    &&& a.types@ == b.types@
}

/// Whether two type bodies agree.
pub open spec fn esi_type_like(a: ESIType, b: ESIType) -> bool {
    &&& a.type_id == b.type_id
    &&& a.description@ == b.description@
    &&& a.group_id == b.group_id
    &&& a.name@ == b.name@
    &&& a.mass_bits == b.mass_bits
}

impl ESIFaction {
    /// A copy of this faction body.
    pub fn duplicate(&self) -> (r: ESIFaction)
        ensures
            esi_faction_like(r, *self),
    {
        ESIFaction {
            faction_id: self.faction_id,
            corporation_id: self.corporation_id,
            militia_corporation_id: self.militia_corporation_id,
            name: self.name.clone(),
        }
    }
}

impl ESICategory {
    /// A copy of this category body.
    pub fn duplicate(&self) -> (r: ESICategory)
        ensures
            esi_category_like(r, *self),
    {
        let groups = self.groups.clone();
        proof {
            assert(groups@ =~= self.groups@);
        }
        ESICategory { category_id: self.category_id, groups, name: self.name.clone() }
    }
}

impl ESIGroup {
    /// A copy of this group body.
    pub fn duplicate(&self) -> (r: ESIGroup)
        ensures
            esi_group_like(r, *self),
    {
        let types = self.types.clone();
        proof {
            assert(types@ =~= self.types@);
        }
        ESIGroup {
            category_id: self.category_id,
            group_id: self.group_id,
            name: self.name.clone(),
            types,
        }
    }
}

impl ESIType {
    /// A copy of this type body.
    pub fn duplicate(&self) -> (r: ESIType)
        ensures
            esi_type_like(r, *self),
    {
        ESIType {
            type_id: self.type_id,
            description: self.description.clone(),
            group_id: self.group_id,
            name: self.name.clone(),
            mass_bits: self.mass_bits,
        }
    }
}

impl ESIKillmail {
    /// A copy of this killmail payload.
    pub fn duplicate(&self) -> (r: ESIKillmail)
        ensures
            esi_killmail_like(r, *self),
    {
        let attackers = self.attackers.clone();
        proof {
            assert(attackers@ =~= self.attackers@);
        }
        ESIKillmail {
            killmail_id: self.killmail_id,
            killmail_time: self.killmail_time,
            solar_system_id: self.solar_system_id,
            victim: self.victim,
            attackers,
        }
    }
}

impl VictimRow {
    /// Builds the victim row for a killmail; the surrogate key is assigned
    /// by the store at insert time.
    pub fn from_esi(item: ESIVictim, km_id: u64) -> (r: VictimRow)
        ensures
            r == victim_row_of(item, 0, km_id),
    {
        VictimRow {
            victim_id: 0,
            alliance_id: item.alliance_id,
            character_id: item.character_id,
            faction_id: item.faction_id,
            corporation_id: item.corporation_id,
            damage_taken: item.damage_taken,
            ship_type_id: item.ship_type_id,
            killmail_id: km_id,
        }
    }
}

impl AttackerRow {
    /// Builds an attacker row for a killmail; the surrogate key is assigned
    /// by the store at insert time.
    pub fn from_esi(item: ESIAttacker, km_id: u64) -> (r: AttackerRow)
        ensures
            r == attacker_row_of(item, 0, km_id),
    {
        AttackerRow {
            attacker_id: 0,
            character_id: item.character_id,
            alliance_id: item.alliance_id,
            corporation_id: item.corporation_id,
            faction_id: item.faction_id,
            damage_done: item.damage_done,
            final_blow: item.final_blow,
            security_status_bits: item.security_status_bits,
            ship_type_id: item.ship_type_id,
            weapon_type_id: item.weapon_type_id,
            killmail_id: km_id,
        }
    }
}

impl PositionRow {
    /// Builds the position row for a killmail; the surrogate key is assigned
    /// by the store at insert time.
    pub fn from_esi(item: ESIKillPosition, killmail_id: u64) -> (r: PositionRow)
        ensures
            r == position_row_of(item, 0, killmail_id),
    {
        PositionRow {
            position_id: 0,
            x_bits: item.x_bits,
            y_bits: item.y_bits,
            z_bits: item.z_bits,
            killmail_id,
        }
    }
}

impl KillmailRow {
    /// Builds the killmail row of a payload.
    pub fn from_esi(item: &ESIKillmail) -> (r: KillmailRow)
        ensures
            r == killmail_row_of(*item),
    {
        KillmailRow {
            killmail_id: item.killmail_id,
            killmail_time: item.killmail_time,
            solar_system_id: item.solar_system_id,
        }
    }
}

impl CharacterRow {
    /// Builds the character row for a fetched public-info body.
    pub fn from_esi(char_id: u64, info: &EsiCharacterPublicInfo) -> (r: CharacterRow)
        ensures
            character_row_like(r, char_id, *info),
    {
        let birthday: Option<String> = match &info.birthday {
            Some(bd) => Some(bd.clone()),
            None => None,
        };
        CharacterRow {
            character_id: char_id,
            alliance_id: info.alliance_id,
            character_name: info.name.clone(),
            birthday,
            corporation_id: info.corporation_id,
            faction_id: info.faction_id,
            last_updated: None,
        }
    }
}

impl AllianceRow {
    /// Builds the alliance row for a fetched alliance body.
    pub fn from_esi(alliance_id: u64, item: ESIAlliance) -> (r: AllianceRow)
        ensures
            alliance_row_like(r, alliance_id, item),
    {
        AllianceRow {
            alliance_id,
            faction_id: item.faction_id,
            name: item.name,
            ticker: item.ticker,
        }
    }
}

impl CorporationRow {
    /// Builds the corporation row for a fetched corporation body.
    pub fn from_esi(corporation_id: u64, item: ESICorporation) -> (r: CorporationRow)
        ensures
            corporation_row_like(r, corporation_id, item),
    {
        CorporationRow {
            corporation_id,
            alliance_id: item.alliance_id,
            faction_id: item.faction_id,
            member_count: item.member_count,
            name: item.name,
            ticker: item.ticker,
            war_eligible: item.war_eligible,
        }
    }
}

impl FactionRow {
    /// Builds the faction row for a faction-list entry.
    pub fn from_esi(item: ESIFaction) -> (r: FactionRow)
        ensures
            faction_row_like(r, item),
    {
        FactionRow {
            faction_id: item.faction_id,
            corporation_id: item.corporation_id,
            militia_corporation_id: item.militia_corporation_id,
            name: item.name,
        }
    }
}

impl EsiCategoryRow {
    /// Builds the category row for a taxonomy category body.
    pub fn from_esi(item: ESICategory) -> (r: EsiCategoryRow)
        ensures
            category_row_like(r, item),
    {
        EsiCategoryRow { category_id: item.category_id, category_name: item.name }
    }
}

impl EsiGroupRow {
    /// Builds the group row for a taxonomy group body.
    pub fn from_esi(item: ESIGroup) -> (r: EsiGroupRow)
        ensures
            group_row_like(r, item),
    {
        EsiGroupRow { group_id: item.group_id, group_name: item.name, category_id: item.category_id }
    }
}

impl EsiTypeRow {
    /// Builds the type row for a taxonomy type body.
    pub fn from_esi(item: ESIType) -> (r: EsiTypeRow)
        ensures
            type_row_like(r, item),
    {
        EsiTypeRow {
            type_id: item.type_id,
            description: item.description,
            group_id: item.group_id,
            name_of_type: item.name,
            mass_bits: item.mass_bits,
        }
    }
}

} // verus!
