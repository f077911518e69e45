//! Per-character kill/loss statistics over the stored rows.
//!
//! A character's kills are the complete killmails on which an attacker row
//! carries the character's id; the losses are those on which the victim row
//! does. A killmail is complete when its killmail, victim and position rows
//! are all present. A solo kill or loss is one whose attacker list counts
//! exactly one player character.

use vstd::prelude::*;

use crate::database::{alliance_rows_like, character_rows_like, corporation_rows_like, Store};
use crate::entity::{AllianceRow, AttackerRow, CharacterRow, CorporationRow, KillmailRow, PositionRow, VictimRow};
use crate::esi::{fetch_character_spec, Remote};
use crate::killmail_processing::ProcessingError;

verus! {

/// Kill and loss counts of one character.
#[derive(Clone, Copy, PartialEq, Eq, Structural, Debug)]
pub struct KillLossRatio {
    pub kills: usize,
    pub losses: usize,
}

/// Organizational context of one character, as names and tickers.
#[derive(Clone, Debug)]
pub struct CharInfo {
    pub alliance_name: Option<String>,
    pub alliance_ticker: Option<String>,
    pub corporation_name: Option<String>,
    pub corporation_ticker: Option<String>,
}

/// The aggregate statistics served for one character.
#[derive(Clone, Debug)]
pub struct CharacterStats {
    pub char_info: CharInfo,
    pub kill_loss_ratio: KillLossRatio,
    pub solo_kill_loss_ratio: KillLossRatio,
}

/// One complete killmail assembled from its rows.
#[derive(Clone, Debug)]
pub struct StatsKillmail {
    pub killmail_id: u64,
    pub killmail_time: i64,
    pub solar_system_id: u64,
    pub victim: VictimRow,
    pub attackers: Vec<AttackerRow>,
    pub position: PositionRow,
}

/// The first killmail row with this id.
pub open spec fn find_killmail(s: Seq<KillmailRow>, id: u64) -> Option<KillmailRow>
    decreases s.len(),
{
    if s.len() == 0 {
        None
    } else if s[0].killmail_id == id {
        Some(s[0])
    } else {
        find_killmail(s.drop_first(), id)
    }
}

/// The first victim row of this killmail.
pub open spec fn find_victim_by_km(s: Seq<VictimRow>, km: u64) -> Option<VictimRow>
    decreases s.len(),
{
    if s.len() == 0 {
        None
    } else if s[0].killmail_id == km {
        Some(s[0])
    } else {
        find_victim_by_km(s.drop_first(), km)
    }
}

/// The first position row of this killmail.
pub open spec fn find_position_by_km(s: Seq<PositionRow>, km: u64) -> Option<PositionRow>
    decreases s.len(),
{
    if s.len() == 0 {
        None
    } else if s[0].killmail_id == km {
        Some(s[0])
    } else {
        find_position_by_km(s.drop_first(), km)
    }
}

/// The attacker rows of this killmail, in table order.
pub open spec fn attackers_of(s: Seq<AttackerRow>, km: u64) -> Seq<AttackerRow>
    decreases s.len(),
{
    if s.len() == 0 {
        Seq::empty()
    } else {
        let init = attackers_of(s.drop_last(), km);
        if s.last().killmail_id == km {
            init.push(s.last())
        } else {
            init
        }
    }
}

/// The first character row with this name.
pub open spec fn find_character_by_name(s: Seq<CharacterRow>, name: Seq<char>) -> Option<
    CharacterRow,
>
    decreases s.len(),
{
    if s.len() == 0 {
        None
    } else if s[0].character_name@ == name {
        Some(s[0])
    } else {
        find_character_by_name(s.drop_first(), name)
    }
}

/// The first character row with this id.
pub open spec fn find_character_by_id(s: Seq<CharacterRow>, id: u64) -> Option<CharacterRow>
    decreases s.len(),
{
    if s.len() == 0 {
        None
    } else if s[0].character_id == id {
        Some(s[0])
    } else {
        find_character_by_id(s.drop_first(), id)
    }
}

/// The first alliance row with this id.
pub open spec fn find_alliance(s: Seq<AllianceRow>, id: u64) -> Option<AllianceRow>
    decreases s.len(),
{
    if s.len() == 0 {
        None
    } else if s[0].alliance_id == id {
        Some(s[0])
    } else {
        find_alliance(s.drop_first(), id)
    }
}

/// The first corporation row with this id.
pub open spec fn find_corporation(s: Seq<CorporationRow>, id: u64) -> Option<CorporationRow>
    decreases s.len(),
{
    if s.len() == 0 {
        None
    } else if s[0].corporation_id == id {
        Some(s[0])
    } else {
        find_corporation(s.drop_first(), id)
    }
}

/// The killmail ids on which this character appears as an attacker,
/// duplicates retained, in table order.
pub open spec fn kill_km_ids(s: Seq<AttackerRow>, char_id: u64) -> Seq<u64>
    decreases s.len(),
{
    if s.len() == 0 {
        Seq::empty()
    } else {
        let init = kill_km_ids(s.drop_last(), char_id);
        if s.last().character_id == Some(char_id) {
            init.push(s.last().killmail_id)
        } else {
            init
        }
    }
}

/// The killmail ids on which this character appears as the victim.
pub open spec fn loss_km_ids(s: Seq<VictimRow>, char_id: u64) -> Seq<u64>
    decreases s.len(),
{
    if s.len() == 0 {
        Seq::empty()
    } else {
        let init = loss_km_ids(s.drop_last(), char_id);
        if s.last().character_id == Some(char_id) {
            init.push(s.last().killmail_id)
        } else {
            init
        }
    }
}

/// Whether a killmail id names a complete killmail: killmail, victim and
/// position rows all present.
pub open spec fn km_complete(db: Store, id: u64) -> bool {
    &&& find_killmail(db.killmails@, id) is Some
    &&& find_victim_by_km(db.victims@, id) is Some
    &&& find_position_by_km(db.positions@, id) is Some
}

/// The ids of a list that name complete killmails, in order.
pub open spec fn complete_ids(db: Store, ids: Seq<u64>) -> Seq<u64>
    decreases ids.len(),
{
    if ids.len() == 0 {
        Seq::empty()
    } else {
        let init = complete_ids(db, ids.drop_last());
        if km_complete(db, ids.last()) {
            init.push(ids.last())
        } else {
            init
        }
    }
}

/// The number of player characters in an attacker list.
pub open spec fn player_count(s: Seq<AttackerRow>) -> nat
    decreases s.len(),
{
    if s.len() == 0 {
        0
    } else {
        player_count(s.drop_last()) + if s.last().character_id is Some {
            1nat
        } else {
            0nat
        }
    }
}

/// The number of complete killmails in an id list whose attacker list counts
/// exactly one player.
pub open spec fn solo_id_count(db: Store, ids: Seq<u64>) -> nat
    decreases ids.len(),
{
    if ids.len() == 0 {
        0
    } else {
        solo_id_count(db, ids.drop_last()) + if player_count(
            attackers_of(db.attackers@, ids.last()),
        ) == 1 {
            1nat
        } else {
            0nat
        }
    }
}

/// Whether an assembled killmail is built from the rows of this id.
pub open spec fn stats_km_matches(db: Store, skm: StatsKillmail, id: u64) -> bool {
    &&& skm.killmail_id == id
    &&& find_killmail(db.killmails@, id) matches Some(k) && skm.killmail_time == k.killmail_time
        && skm.solar_system_id == k.solar_system_id
    &&& find_victim_by_km(db.victims@, id) == Some(skm.victim)
    &&& skm.attackers@ == attackers_of(db.attackers@, id)
    &&& find_position_by_km(db.positions@, id) == Some(skm.position)
}

/// Counts the player characters in an attacker list.
pub fn get_attacker_player_count(attackers: &Vec<AttackerRow>) -> (r: usize)
    ensures
        r == player_count(attackers@),
{
    let n = attackers.len();
    let mut count: usize = 0;
    let mut i: usize = 0;
    proof {
        assert(attackers@.take(0) =~= Seq::<AttackerRow>::empty());
    }
    while i < n
        invariant
            0 <= i <= n == attackers@.len(),
            count == player_count(attackers@.take(i as int)),
            count <= i,
        decreases n - i,
    {
        proof {
            assert(attackers@.take(i as int + 1).drop_last() =~= attackers@.take(i as int));
        }
        if attackers[i].character_id.is_some() {
            count = count + 1;
        }
        i = i + 1;
    }
    proof {
        assert(attackers@.take(n as int) =~= attackers@);
    }
    count
}

/// The plain kill/loss counts of two assembled lists.
pub fn get_kill_loss_ratio(kills: &Vec<StatsKillmail>, losses: &Vec<StatsKillmail>) -> (r:
    KillLossRatio)
    ensures
        r.kills == kills@.len(),
        r.losses == losses@.len(),
{
    KillLossRatio { kills: kills.len(), losses: losses.len() }
}

/// The number of assembled killmails whose attacker list counts exactly one
/// player.
pub open spec fn solo_count(s: Seq<StatsKillmail>) -> nat
    decreases s.len(),
{
    if s.len() == 0 {
        0
    } else {
        solo_count(s.drop_last()) + if player_count(s.last().attackers@) == 1 {
            1nat
        } else {
            0nat
        }
    }
}

/// The solo kill/loss counts of two assembled lists.
pub fn get_solo_kill_loss_ratio(kills: &Vec<StatsKillmail>, losses: &Vec<StatsKillmail>) -> (r:
    KillLossRatio)
    ensures
        r.kills == solo_count(kills@),
        r.losses == solo_count(losses@),
{
    let solo_kills = count_solo(kills);
    let solo_losses = count_solo(losses);
    KillLossRatio { kills: solo_kills, losses: solo_losses }
}

/// Counts the solo entries of one assembled list.
fn count_solo(skms: &Vec<StatsKillmail>) -> (r: usize)
    ensures
        r == solo_count(skms@),
{
    let n = skms.len();
    let mut count: usize = 0;
    let mut i: usize = 0;
    proof {
        assert(skms@.take(0) =~= Seq::<StatsKillmail>::empty());
    }
    while i < n
        invariant
            0 <= i <= n == skms@.len(),
            count == solo_count(skms@.take(i as int)),
            count <= i,
        decreases n - i,
    {
        proof {
            assert(skms@.take(i as int + 1).drop_last() =~= skms@.take(i as int));
        }
        if get_attacker_player_count(&skms[i].attackers) == 1 {
            count = count + 1;
        }
        i = i + 1;
    }
    proof {
        assert(skms@.take(n as int) =~= skms@);
    }
    count
}

/// Finds the killmail row of an id.
fn find_killmail_row(db: &Store, id: u64) -> (r: Option<KillmailRow>)
    ensures
        r == find_killmail(db.killmails@, id),
{
    let n = db.killmails.len();
    let mut i: usize = 0;
    proof {
        assert(db.killmails@.skip(0) =~= db.killmails@);
    }
    while i < n
        invariant
            0 <= i <= n == db.killmails@.len(),
            find_killmail(db.killmails@.skip(i as int), id) == find_killmail(db.killmails@, id),
        decreases n - i,
    {
        proof {
            assert(db.killmails@.skip(i as int)[0] == db.killmails@[i as int]);
            assert(db.killmails@.skip(i as int).drop_first() =~= db.killmails@.skip(i as int + 1));
        }
        if db.killmails[i].killmail_id == id {
            return Some(db.killmails[i]);
        }
        i = i + 1;
    }
    proof {
        assert(db.killmails@.skip(n as int) =~= Seq::<KillmailRow>::empty());
    }
    None
}

/// Finds the victim row of a killmail.
fn find_victim_row(db: &Store, km: u64) -> (r: Option<VictimRow>)
    ensures
        r == find_victim_by_km(db.victims@, km),
{
    let n = db.victims.len();
    let mut i: usize = 0;
    proof {
        assert(db.victims@.skip(0) =~= db.victims@);
    }
    while i < n
        invariant
            0 <= i <= n == db.victims@.len(),
            find_victim_by_km(db.victims@.skip(i as int), km) == find_victim_by_km(
                db.victims@,
                km,
            ),
        decreases n - i,
    {
        proof {
            assert(db.victims@.skip(i as int)[0] == db.victims@[i as int]);
            assert(db.victims@.skip(i as int).drop_first() =~= db.victims@.skip(i as int + 1));
        }
        if db.victims[i].killmail_id == km {
            return Some(db.victims[i]);
        }
        i = i + 1;
    }
    proof {
        assert(db.victims@.skip(n as int) =~= Seq::<VictimRow>::empty());
    }
    None
}

/// Finds the position row of a killmail.
fn find_position_row(db: &Store, km: u64) -> (r: Option<PositionRow>)
    ensures
        r == find_position_by_km(db.positions@, km),
{
    let n = db.positions.len();
    let mut i: usize = 0;
    proof {
        assert(db.positions@.skip(0) =~= db.positions@);
    }
    while i < n
        invariant
            0 <= i <= n == db.positions@.len(),
            find_position_by_km(db.positions@.skip(i as int), km) == find_position_by_km(
                db.positions@,
                km,
            ),
        decreases n - i,
    {
        proof {
            assert(db.positions@.skip(i as int)[0] == db.positions@[i as int]);
            assert(db.positions@.skip(i as int).drop_first() =~= db.positions@.skip(i as int + 1));
        }
        if db.positions[i].killmail_id == km {
            return Some(db.positions[i]);
        }
        i = i + 1;
    }
    proof {
        assert(db.positions@.skip(n as int) =~= Seq::<PositionRow>::empty());
    }
    None
}

/// Collects the attacker rows of a killmail, in table order.
fn collect_attackers(db: &Store, km: u64) -> (r: Vec<AttackerRow>)
    ensures
        r@ == attackers_of(db.attackers@, km),
{
    let n = db.attackers.len();
    let mut out: Vec<AttackerRow> = Vec::new();
    let mut i: usize = 0;
    proof {
        assert(db.attackers@.take(0) =~= Seq::<AttackerRow>::empty());
    }
    while i < n
        invariant
            0 <= i <= n == db.attackers@.len(),
            out@ == attackers_of(db.attackers@.take(i as int), km),
        decreases n - i,
    {
        proof {
            assert(db.attackers@.take(i as int + 1).drop_last() =~= db.attackers@.take(i as int));
        }
        if db.attackers[i].killmail_id == km {
            out.push(db.attackers[i]);
        }
        i = i + 1;
    }
    proof {
        assert(db.attackers@.take(n as int) =~= db.attackers@);
    }
    out
}

/// Assembles one complete killmail from its rows, or reports that a part is
/// missing.
pub fn get_statskillmail_from_id(db: &Store, killmail_id: u64) -> (r: Option<StatsKillmail>)
    ensures
        r is Some <==> km_complete(*db, killmail_id),
        r matches Some(skm) ==> stats_km_matches(*db, skm, killmail_id),
{
    let killmail = match find_killmail_row(db, killmail_id) {
        Some(k) => k,
        None => {
            return None;
        },
    };
    let victim = match find_victim_row(db, killmail_id) {
        Some(v) => v,
        None => {
            return None;
        },
    };
    let position = match find_position_row(db, killmail_id) {
        Some(p) => p,
        None => {
            return None;
        },
    };
    let attackers = collect_attackers(db, killmail_id);
    Some(
        StatsKillmail {
            killmail_id,
            killmail_time: killmail.killmail_time,
            solar_system_id: killmail.solar_system_id,
            victim,
            attackers,
            position,
        },
    )
}

/// Assembles the complete killmails among a list of ids, skipping the ids
/// whose rows are incomplete.
pub fn get_kills_from_list(db: &Store, kills: &Vec<u64>) -> (r: Vec<StatsKillmail>)
    ensures
        r@.len() == complete_ids(*db, kills@).len(),
        forall|j: int|
            0 <= j < r@.len() ==> stats_km_matches(*db, #[trigger] r@[j], complete_ids(*db, kills@)[j]),
{
    let n = kills.len();
    let mut results: Vec<StatsKillmail> = Vec::new();
    let mut i: usize = 0;
    proof {
        assert(kills@.take(0) =~= Seq::<u64>::empty());
    }
    while i < n
        invariant
            0 <= i <= n == kills@.len(),
            results@.len() == complete_ids(*db, kills@.take(i as int)).len(),
            forall|j: int|
                0 <= j < results@.len() ==> stats_km_matches(
                    *db,
                    #[trigger] results@[j],
                    complete_ids(*db, kills@.take(i as int))[j],
                ),
        decreases n - i,
    {
        proof {
            assert(kills@.take(i as int + 1).drop_last() =~= kills@.take(i as int));
        }
        match get_statskillmail_from_id(db, kills[i]) {
            Some(skm) => results.push(skm),
            None => {},
        }
        i = i + 1;
    }
    proof {
        assert(kills@.take(n as int) =~= kills@);
    }
    results
}

/// Collects the killmail ids on which a character appears as an attacker and
/// assembles the complete ones.
pub fn get_character_kills(db: &Store, char_id: u64) -> (r: Vec<StatsKillmail>)
    ensures
        r@.len() == complete_ids(*db, kill_km_ids(db.attackers@, char_id)).len(),
        forall|j: int|
            0 <= j < r@.len() ==> stats_km_matches(
                *db,
                #[trigger] r@[j],
                complete_ids(*db, kill_km_ids(db.attackers@, char_id))[j],
            ),
{
    let n = db.attackers.len();
    let mut ids: Vec<u64> = Vec::new();
    let mut i: usize = 0;
    proof {
        assert(db.attackers@.take(0) =~= Seq::<AttackerRow>::empty());
    }
    while i < n
        invariant
            0 <= i <= n == db.attackers@.len(),
            ids@ == kill_km_ids(db.attackers@.take(i as int), char_id),
        decreases n - i,
    {
        proof {
            assert(db.attackers@.take(i as int + 1).drop_last() =~= db.attackers@.take(i as int));
        }
        match db.attackers[i].character_id {
            Some(cid) => {
                if cid == char_id {
                    ids.push(db.attackers[i].killmail_id);
                }
            },
            None => {},
        }
        i = i + 1;
    }
    proof {
        assert(db.attackers@.take(n as int) =~= db.attackers@);
    }
    get_kills_from_list(db, &ids)
}

/// Collects the killmail ids on which a character appears as the victim and
/// assembles the complete ones.
pub fn get_character_losses(db: &Store, char_id: u64) -> (r: Vec<StatsKillmail>)
    ensures
        r@.len() == complete_ids(*db, loss_km_ids(db.victims@, char_id)).len(),
        forall|j: int|
            0 <= j < r@.len() ==> stats_km_matches(
                *db,
                #[trigger] r@[j],
                complete_ids(*db, loss_km_ids(db.victims@, char_id))[j],
            ),
{
    let n = db.victims.len();
    let mut ids: Vec<u64> = Vec::new();
    let mut i: usize = 0;
    proof {
        assert(db.victims@.take(0) =~= Seq::<VictimRow>::empty());
    }
    while i < n
        invariant
            0 <= i <= n == db.victims@.len(),
            ids@ == loss_km_ids(db.victims@.take(i as int), char_id),
        decreases n - i,
    {
        proof {
            assert(db.victims@.take(i as int + 1).drop_last() =~= db.victims@.take(i as int));
        }
        match db.victims[i].character_id {
            Some(cid) => {
                if cid == char_id {
                    ids.push(db.victims[i].killmail_id);
                }
            },
            None => {},
        }
        i = i + 1;
    }
    proof {
        assert(db.victims@.take(n as int) =~= db.victims@);
    }
    get_kills_from_list(db, &ids)
}

/// A copy of a character row.
fn clone_character(c: &CharacterRow) -> (r: CharacterRow)
    ensures
        character_rows_like(r, *c),
{
    let birthday = match &c.birthday {
        Some(b) => Some(b.clone()),
        None => None,
    };
    CharacterRow {
        character_id: c.character_id,
        alliance_id: c.alliance_id,
        character_name: c.character_name.clone(),
        birthday,
        corporation_id: c.corporation_id,
        faction_id: c.faction_id,
        last_updated: c.last_updated,
    }
}

/// Finds the character row of a name.
fn find_character_named(db: &Store, name: &String) -> (r: Option<CharacterRow>)
    ensures
        r is Some <==> find_character_by_name(db.characters@, name@) is Some,
        r matches Some(c) ==> character_rows_like(
            c,
            find_character_by_name(db.characters@, name@)->0,
        ),
{
    let n = db.characters.len();
    let mut i: usize = 0;
    proof {
        assert(db.characters@.skip(0) =~= db.characters@);
    }
    while i < n
        invariant
            0 <= i <= n == db.characters@.len(),
            find_character_by_name(db.characters@.skip(i as int), name@) == find_character_by_name(
                db.characters@,
                name@,
            ),
        decreases n - i,
    {
        proof {
            assert(db.characters@.skip(i as int)[0] == db.characters@[i as int]);
            assert(db.characters@.skip(i as int).drop_first() =~= db.characters@.skip(
                i as int + 1,
            ));
        }
        if db.characters[i].character_name == *name {
            return Some(clone_character(&db.characters[i]));
        }
        i = i + 1;
    }
    proof {
        assert(db.characters@.skip(n as int) =~= Seq::<CharacterRow>::empty());
    }
    None
}

/// Finds the character row of an id.
fn find_character_row(db: &Store, id: u64) -> (r: Option<CharacterRow>)
    ensures
        r is Some <==> find_character_by_id(db.characters@, id) is Some,
        r matches Some(c) ==> character_rows_like(c, find_character_by_id(db.characters@, id)->0),
{
    let n = db.characters.len();
    let mut i: usize = 0;
    proof {
        assert(db.characters@.skip(0) =~= db.characters@);
    }
    while i < n
        invariant
            0 <= i <= n == db.characters@.len(),
            find_character_by_id(db.characters@.skip(i as int), id) == find_character_by_id(
                db.characters@,
                id,
            ),
        decreases n - i,
    {
        proof {
            assert(db.characters@.skip(i as int)[0] == db.characters@[i as int]);
            assert(db.characters@.skip(i as int).drop_first() =~= db.characters@.skip(
                i as int + 1,
            ));
        }
        if db.characters[i].character_id == id {
            return Some(clone_character(&db.characters[i]));
        }
        i = i + 1;
    }
    proof {
        assert(db.characters@.skip(n as int) =~= Seq::<CharacterRow>::empty());
    }
    None
}

/// Looks a character's alliance up, when it has one.
pub fn get_character_alliance(db: &Store, character_info: &CharacterRow) -> (r: Option<
    AllianceRow,
>)
    ensures
        match character_info.alliance_id {
            None => r is None,
            Some(aid) => {
                &&& (r is Some <==> find_alliance(db.alliances@, aid) is Some)
                &&& (r matches Some(a) ==> alliance_rows_like(a, find_alliance(db.alliances@, aid)->0))
            },
        },
{
    let aid = match character_info.alliance_id {
        Some(aid) => aid,
        None => {
            return None;
        },
    };
    let n = db.alliances.len();
    let mut i: usize = 0;
    proof {
        assert(db.alliances@.skip(0) =~= db.alliances@);
    }
    while i < n
        invariant
            0 <= i <= n == db.alliances@.len(),
            character_info.alliance_id == Some(aid),
            find_alliance(db.alliances@.skip(i as int), aid) == find_alliance(db.alliances@, aid),
        decreases n - i,
    {
        proof {
            assert(db.alliances@.skip(i as int)[0] == db.alliances@[i as int]);
            assert(db.alliances@.skip(i as int).drop_first() =~= db.alliances@.skip(i as int + 1));
        }
        if db.alliances[i].alliance_id == aid {
            let a = &db.alliances[i];
            return Some(
                AllianceRow {
                    alliance_id: a.alliance_id,
                    faction_id: a.faction_id,
                    name: a.name.clone(),
                    ticker: a.ticker.clone(),
                },
            );
        }
        i = i + 1;
    }
    proof {
        assert(db.alliances@.skip(n as int) =~= Seq::<AllianceRow>::empty());
    }
    None
}

/// Looks a character's corporation up.
pub fn get_character_corporation(db: &Store, character_info: &CharacterRow) -> (r: Option<
    CorporationRow,
>)
    ensures
        r is Some <==> find_corporation(db.corporations@, character_info.corporation_id) is Some,
        r matches Some(c) ==> corporation_rows_like(
            c,
            find_corporation(db.corporations@, character_info.corporation_id)->0,
        ),
{
    let cid = character_info.corporation_id;
    let n = db.corporations.len();
    let mut i: usize = 0;
    proof {
        assert(db.corporations@.skip(0) =~= db.corporations@);
    }
    while i < n
        invariant
            0 <= i <= n == db.corporations@.len(),
            cid == character_info.corporation_id,
            find_corporation(db.corporations@.skip(i as int), cid) == find_corporation(
                db.corporations@,
                cid,
            ),
        decreases n - i,
    {
        proof {
            assert(db.corporations@.skip(i as int)[0] == db.corporations@[i as int]);
            assert(db.corporations@.skip(i as int).drop_first() =~= db.corporations@.skip(
                i as int + 1,
            ));
        }
        if db.corporations[i].corporation_id == cid {
            let c = &db.corporations[i];
            return Some(
                CorporationRow {
                    corporation_id: c.corporation_id,
                    alliance_id: c.alliance_id,
                    faction_id: c.faction_id,
                    member_count: c.member_count,
                    name: c.name.clone(),
                    ticker: c.ticker.clone(),
                    war_eligible: c.war_eligible,
                },
            );
        }
        i = i + 1;
    }
    proof {
        assert(db.corporations@.skip(n as int) =~= Seq::<CorporationRow>::empty());
    }
    None
}

/// Whether an assembled character context carries the names and tickers of
/// the given organization rows.
pub open spec fn char_info_like(
    ci: CharInfo,
    alliance: Option<AllianceRow>,
    corporation: Option<CorporationRow>,
) -> bool {
    &&& (match alliance {
        Some(a) => {
            &&& ci.alliance_name matches Some(n) && n@ == a.name@
            &&& ci.alliance_ticker matches Some(t) && t@ == a.ticker@
        },
        None => ci.alliance_name is None && ci.alliance_ticker is None,
    })
    &&& (match corporation {
        Some(c) => {
            &&& ci.corporation_name matches Some(n) && n@ == c.name@
            &&& ci.corporation_ticker matches Some(t) && t@ == c.ticker@
        },
        None => ci.corporation_name is None && ci.corporation_ticker is None,
    })
}

/// Assembles the organizational context of a character from its alliance and
/// corporation rows.
pub fn get_char_info(alliance: &Option<AllianceRow>, corporation: &Option<CorporationRow>) -> (r:
    CharInfo)
    ensures
        char_info_like(r, *alliance, *corporation),
{
    let alliance_name: Option<String>;
    let alliance_ticker: Option<String>;
    let corporation_name: Option<String>;
    let corporation_ticker: Option<String>;
    match alliance {
        Some(a) => {
            alliance_name = Some(a.name.clone());
            alliance_ticker = Some(a.ticker.clone());
        },
        None => {
            alliance_name = None;
            alliance_ticker = None;
        },
    }
    match corporation {
        Some(c) => {
            corporation_name = Some(c.name.clone());
            corporation_ticker = Some(c.ticker.clone());
        },
        None => {
            corporation_name = None;
            corporation_ticker = None;
        },
    }
    CharInfo { alliance_name, alliance_ticker, corporation_name, corporation_ticker }
}

/// The staleness threshold for character public information, in seconds:
/// three days.
pub const UPDATE_INTERVAL_SECONDS: i64 = 259200;

/// Whether character public information is due for a refresh: it has never
/// been stamped, or the stamp is more than the threshold before `now`.
pub open spec fn stale(last_updated: Option<i64>, now: i64) -> bool {
    match last_updated {
        None => true,
        Some(t) => now - t > UPDATE_INTERVAL_SECONDS,
    }
}

/// Decides whether character public information is due for a refresh.
pub fn needs_update(last_updated: Option<i64>, now: i64) -> (r: bool)
    ensures
        r == stale(last_updated, now),
{
    match last_updated {
        None => true,
        Some(t) => (now as i128) - (t as i128) > UPDATE_INTERVAL_SECONDS as i128,
    }
}

/// Refreshes one character's public information from the remote API and
/// re-reads its stored row. The fetched body is validated but not written
/// back: refreshing the stored row belongs to a separate maintenance
/// process.
pub fn update_character_public_info(db: &Store, remote: &Remote, character: &CharacterRow) -> (r:
    Result<Option<CharacterRow>, ProcessingError>)
    ensures
        r is Ok <==> fetch_character_spec(*remote, character.character_id) is Ok,
        r matches Ok(inner) ==> {
            &&& (inner is Some <==> find_character_by_id(
                db.characters@,
                character.character_id,
            ) is Some)
            &&& (inner matches Some(c) ==> character_rows_like(
                c,
                find_character_by_id(db.characters@, character.character_id)->0,
            ))
        },
        r matches Err(e) ==> e == ProcessingError::ESIError(
            fetch_character_spec(*remote, character.character_id)->Err_0,
        ),
{
    match crate::esi::get_character(remote, character.character_id) {
        Ok(_fresh) => Ok(find_character_row(db, character.character_id)),
        Err(e) => Err(ProcessingError::ESIError(e)),
    }
}

/// Looks a character up by name and refreshes its public information when it
/// is stale: missing names yield no row, and a failed refresh fetch is
/// surfaced.
pub fn get_or_update_character_public_info(
    db: &Store,
    remote: &Remote,
    name: &String,
    now: i64,
) -> (r: Result<Option<CharacterRow>, ProcessingError>)
    requires
        db.wf(),
    ensures
        find_character_by_name(db.characters@, name@) is None ==> (r matches Ok(inner) && inner
            is None),
        find_character_by_name(db.characters@, name@) matches Some(c) ==> {
            &&& (r is Ok <==> (!stale(c.last_updated, now) || fetch_character_spec(
                *remote,
                c.character_id,
            ) is Ok))
            &&& (r matches Ok(inner) ==> inner matches Some(cr) && character_rows_like(cr, c))
            &&& (r matches Err(e) ==> e == ProcessingError::ESIError(
                fetch_character_spec(*remote, c.character_id)->Err_0,
            ))
        },
{
    let found = find_character_named(db, name);
    match found {
        None => Ok(None),
        Some(character) => {
            let ghost c = find_character_by_name(db.characters@, name@)->0;
            if needs_update(character.last_updated, now) {
                proof {
                    lemma_find_by_name_then_id(*db, name@);
                }
                match update_character_public_info(db, remote, &character) {
                    Ok(inner) => {
                        proof {
                            assert(find_character_by_id(db.characters@, c.character_id) == Some(c));
                        }
                        Ok(inner)
                    },
                    Err(e) => Err(e),
                }
            } else {
                Ok(Some(character))
            }
        },
    }
}

/// In a well-formed store, the row a name lookup finds is exactly the row
/// its id finds: character ids are unique.
proof fn lemma_find_by_name_then_id(db: Store, name: Seq<char>)
    requires
        db.wf(),
        find_character_by_name(db.characters@, name) is Some,
    ensures
        find_character_by_id(
            db.characters@,
            find_character_by_name(db.characters@, name)->0.character_id,
        ) == Some(find_character_by_name(db.characters@, name)->0),
{
    let c = find_character_by_name(db.characters@, name)->0;
    lemma_find_name_member(db.characters@, name);
    lemma_find_id_unique(db.characters@, c.character_id);
}

/// A name lookup returns a member of the table.
proof fn lemma_find_name_member(s: Seq<CharacterRow>, name: Seq<char>)
    requires
        find_character_by_name(s, name) is Some,
    ensures
        exists|i: int| 0 <= i < s.len() && s[i] == find_character_by_name(s, name)->0,
    decreases s.len(),
{
    if s.len() > 0 && s[0].character_name@ != name {
        lemma_find_name_member(s.drop_first(), name);
        let i = choose|i: int|
            0 <= i < s.drop_first().len() && s.drop_first()[i] == find_character_by_name(
                s.drop_first(),
                name,
            )->0;
        assert(s[i + 1] == find_character_by_name(s, name)->0);
    }
}

/// When ids are unique, an id lookup finds any member row with that id.
proof fn lemma_find_id_unique(s: Seq<CharacterRow>, id: u64)
    requires
        forall|i: int, j: int|
            0 <= i < j < s.len() ==> s[i].character_id != s[j].character_id,
        exists|i: int| 0 <= i < s.len() && (#[trigger] s[i]).character_id == id,
    ensures
        find_character_by_id(s, id) is Some,
        exists|i: int|
            0 <= i < s.len() && s[i] == find_character_by_id(s, id)->0 && (#[trigger] s[i]).character_id
                == id,
        forall|i: int|
            0 <= i < s.len() && (#[trigger] s[i]).character_id == id ==> s[i]
                == find_character_by_id(s, id)->0,
    decreases s.len(),
{
    if s.len() > 0 && s[0].character_id != id {
        assert forall|i: int, j: int|
            0 <= i < j < s.drop_first().len() implies s.drop_first()[i].character_id
            != s.drop_first()[j].character_id by {
            assert(s.drop_first()[i] == s[i + 1]);
            assert(s.drop_first()[j] == s[j + 1]);
        }
        let w = choose|i: int| 0 <= i < s.len() && (#[trigger] s[i]).character_id == id;
        assert(s.drop_first()[w - 1].character_id == id);
        lemma_find_id_unique(s.drop_first(), id);
        assert forall|i: int|
            0 <= i < s.len() && (#[trigger] s[i]).character_id == id implies s[i]
            == find_character_by_id(s, id)->0 by {
            assert(s.drop_first()[i - 1] == s[i]);
        }
        let w2 = choose|i: int|
            0 <= i < s.drop_first().len() && s.drop_first()[i] == find_character_by_id(
                s.drop_first(),
                id,
            )->0 && (#[trigger] s.drop_first()[i]).character_id == id;
        assert(s[w2 + 1] == find_character_by_id(s, id)->0);
    }
}

/// Whether an aggregate statistics value is the one the store yields for a
/// character row.
pub open spec fn stats_for(db: Store, c: CharacterRow, stats: CharacterStats) -> bool {
    &&& stats.kill_loss_ratio.kills == complete_ids(
        db,
        kill_km_ids(db.attackers@, c.character_id),
    ).len()
    &&& stats.kill_loss_ratio.losses == complete_ids(
        db,
        loss_km_ids(db.victims@, c.character_id),
    ).len()
    &&& stats.solo_kill_loss_ratio.kills == solo_id_count(
        db,
        complete_ids(db, kill_km_ids(db.attackers@, c.character_id)),
    )
    &&& stats.solo_kill_loss_ratio.losses == solo_id_count(
        db,
        complete_ids(db, loss_km_ids(db.victims@, c.character_id)),
    )
    &&& (match c.alliance_id {
        Some(aid) => char_info_like_alliance(stats.char_info, find_alliance(db.alliances@, aid)),
        None => char_info_like_alliance(stats.char_info, None),
    })
    &&& char_info_like_corporation(
        stats.char_info,
        find_corporation(db.corporations@, c.corporation_id),
    )
}

/// The alliance half of a character context comparison.
pub open spec fn char_info_like_alliance(ci: CharInfo, alliance: Option<AllianceRow>) -> bool {
    match alliance {
        Some(a) => {
            &&& ci.alliance_name matches Some(n) && n@ == a.name@
            &&& ci.alliance_ticker matches Some(t) && t@ == a.ticker@
        },
        None => ci.alliance_name is None && ci.alliance_ticker is None,
    }
}

/// The corporation half of a character context comparison.
pub open spec fn char_info_like_corporation(ci: CharInfo, corporation: Option<CorporationRow>) -> bool {
    match corporation {
        Some(c) => {
            &&& ci.corporation_name matches Some(n) && n@ == c.name@
            &&& ci.corporation_ticker matches Some(t) && t@ == c.ticker@
        },
        None => ci.corporation_name is None && ci.corporation_ticker is None,
    }
}

/// Counting solo entries of assembled killmails agrees with counting over
/// their ids.
proof fn lemma_solo_counts(db: Store, skms: Seq<StatsKillmail>, ids: Seq<u64>)
    requires
        skms.len() == ids.len(),
        forall|j: int| 0 <= j < skms.len() ==> stats_km_matches(db, #[trigger] skms[j], ids[j]),
    ensures
        solo_count(skms) == solo_id_count(db, ids),
    decreases skms.len(),
{
    if skms.len() > 0 {
        assert forall|j: int|
            0 <= j < skms.drop_last().len() implies stats_km_matches(
            db,
            #[trigger] skms.drop_last()[j],
            ids.drop_last()[j],
        ) by {
            assert(skms.drop_last()[j] == skms[j]);
            assert(ids.drop_last()[j] == ids[j]);
        }
        lemma_solo_counts(db, skms.drop_last(), ids.drop_last());
        assert(skms.last().attackers@ == attackers_of(db.attackers@, ids.last()));
    }
}

/// Serves the aggregate statistics of a character name: its organizational
/// context, its kill/loss counts and its solo kill/loss counts, or `None`
/// for a name that was never seen.
pub fn get_character_stats(db: &Store, remote: &Remote, name: &String, now: i64) -> (r: Result<
    Option<CharacterStats>,
    ProcessingError,
>)
    requires
        db.wf(),
    ensures
        find_character_by_name(db.characters@, name@) is None ==> (r matches Ok(inner) && inner
            is None),
        find_character_by_name(db.characters@, name@) matches Some(c) ==> {
            &&& (r is Ok <==> (!stale(c.last_updated, now) || fetch_character_spec(
                *remote,
                c.character_id,
            ) is Ok))
            &&& (r matches Ok(inner) ==> inner matches Some(stats) && stats_for(*db, c, stats))
            &&& (r matches Err(e) ==> e == ProcessingError::ESIError(
                fetch_character_spec(*remote, c.character_id)->Err_0,
            ))
        },
{
    let character_info_result = match get_or_update_character_public_info(db, remote, name, now) {
        Ok(inner) => inner,
        Err(e) => {
            return Err(e);
        },
    };
    match character_info_result {
        Some(char_info) => {
            let alliance = get_character_alliance(db, &char_info);
            let corporation = get_character_corporation(db, &char_info);
            let character_info = get_char_info(&alliance, &corporation);
            let kills = get_character_kills(db, char_info.character_id);
            let losses = get_character_losses(db, char_info.character_id);
            let kill_loss_ratio = get_kill_loss_ratio(&kills, &losses);
            let solo_kill_loss_ratio = get_solo_kill_loss_ratio(&kills, &losses);
            proof {
                lemma_solo_counts(
                    *db,
                    kills@,
                    complete_ids(*db, kill_km_ids(db.attackers@, char_info.character_id)),
                );
                lemma_solo_counts(
                    *db,
                    losses@,
                    complete_ids(*db, loss_km_ids(db.victims@, char_info.character_id)),
                );
            }
            Ok(Some(CharacterStats { char_info: character_info, kill_loss_ratio, solo_kill_loss_ratio }))
        },
        None => Ok(None),
    }
}

} // verus!
