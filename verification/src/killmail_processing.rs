//! Killmail normalization: decomposing one payload into its rows.
//!
//! A killmail is processed in a strict order: the killmail row first — its
//! presence is the sole guard against reprocessing — then the victim with its
//! resolved references, then the attackers with theirs, then the optional
//! position. A failure part-way leaves the killmail row in place (a known,
//! accepted limitation), but the store invariant that children only reference
//! present killmails is never at risk.

use vstd::prelude::*;

use crate::database::{
    attacker_with_id, attackers_with_ids, position_with_id, victim_with_id, CreateOrExist, DbError,
    Store,
};
use crate::entity::{AttackerRow, KillmailRow, PositionRow, VictimRow};
use crate::esi::{
    fetch_alliance_spec, fetch_character_spec, fetch_corporation_spec, fetch_killmail_spec,
    get_killmail, EsiError, Remote,
};
use crate::esi_models::{
    attacker_row_of, esi_killmail_like, killmail_row_of, position_row_of, victim_row_of,
    ESIAttacker, ESIKillmail, ESIKillmailRequest, ESIVictim, ESIKillPosition,
};
use crate::organization_processing::{
    alliance_ensured, alliances_resolved, character_ensured, characters_resolved,
    corporation_ensured, corporations_resolved, first_unensured_alliance,
    first_unensured_character, first_unensured_corporation,
    lemma_alliances_resolved_concat, lemma_alliances_resolved_monotone,
    lemma_alliances_resolved_provenance, lemma_characters_resolved_concat,
    lemma_characters_resolved_monotone, lemma_characters_resolved_provenance,
    lemma_corporations_resolved_concat, lemma_corporations_resolved_monotone,
    lemma_corporations_resolved_provenance, lemma_first_unensured_alliance_equiv,
    lemma_first_unensured_character_equiv, lemma_first_unensured_corporation_equiv, opt_id_seq,
    store_alliance_if_not_present, store_alliances_if_not_present,
    store_corporation_if_not_present, store_corporations_if_not_present,
    store_pubchar_info_if_not_present, store_pubchars_info_if_not_present,
};
use crate::strutil::{all_dec_digits, dec_val, parse_u64};

verus! {

/// A pipeline failure: a fetch failure from the remote API, or a store
/// failure.
#[derive(Clone, Copy, PartialEq, Eq, Structural, Debug)]
pub enum ProcessingError {
    ESIError(EsiError),
    DBError(DbError),
}

impl ProcessingError {
    /// Wraps a fetch failure.
    pub fn from_esi(err: EsiError) -> (r: ProcessingError)
        ensures
            r == ProcessingError::ESIError(err),
    {
        ProcessingError::ESIError(err)
    }

    /// Wraps a store failure.
    pub fn from_db(err: DbError) -> (r: ProcessingError)
        ensures
            r == ProcessingError::DBError(err),
    {
        ProcessingError::DBError(err)
    }
}

/// The alliance ids referenced by an attacker list, duplicates retained.
pub open spec fn attacker_alliance_ids(atts: Seq<ESIAttacker>) -> Seq<u64>
    decreases atts.len(),
{
    if atts.len() == 0 {
        Seq::empty()
    } else {
        attacker_alliance_ids(atts.drop_last()) + opt_id_seq(atts.last().alliance_id)
    }
}

/// The corporation ids referenced by an attacker list, duplicates retained.
pub open spec fn attacker_corporation_ids(atts: Seq<ESIAttacker>) -> Seq<u64>
    decreases atts.len(),
{
    if atts.len() == 0 {
        Seq::empty()
    } else {
        attacker_corporation_ids(atts.drop_last()) + opt_id_seq(atts.last().corporation_id)
    }
}

/// The character ids referenced by an attacker list, duplicates retained.
pub open spec fn attacker_character_ids(atts: Seq<ESIAttacker>) -> Seq<u64>
    decreases atts.len(),
{
    if atts.len() == 0 {
        Seq::empty()
    } else {
        attacker_character_ids(atts.drop_last()) + opt_id_seq(atts.last().character_id)
    }
}

/// The attacker rows of a payload's attacker list, keyed from `base` on.
pub open spec fn appended_attackers(atts: Seq<ESIAttacker>, km_id: u64, base: int) -> Seq<
    AttackerRow,
> {
    Seq::new(atts.len(), |j: int| attacker_row_of(atts[j], (base + j) as u64, km_id))
}

/// Whether every entity a victim references is stored or fetchable.
pub open spec fn victim_refs_ensured(db: Store, rem: Remote, v: ESIVictim) -> bool {
    &&& (v.alliance_id matches Some(id) ==> alliance_ensured(db.alliances@, rem, id))
    &&& (v.corporation_id matches Some(id) ==> corporation_ensured(db.corporations@, rem, id))
    &&& (v.character_id matches Some(id) ==> character_ensured(db.characters@, rem, id))
}

/// The failure that resolving a victim's references surfaces, staged in
/// order: alliance, then corporation, then character.
pub open spec fn victim_stage_error(db: Store, rem: Remote, v: ESIVictim) -> Option<
    ProcessingError,
> {
    if v.alliance_id is Some && !alliance_ensured(db.alliances@, rem, v.alliance_id->0) {
        Some(ProcessingError::ESIError(fetch_alliance_spec(rem, v.alliance_id->0)->Err_0))
    } else if v.corporation_id is Some && !corporation_ensured(
        db.corporations@,
        rem,
        v.corporation_id->0,
    ) {
        Some(ProcessingError::ESIError(fetch_corporation_spec(rem, v.corporation_id->0)->Err_0))
    } else if v.character_id is Some && !character_ensured(
        db.characters@,
        rem,
        v.character_id->0,
    ) {
        Some(ProcessingError::ESIError(fetch_character_spec(rem, v.character_id->0)->Err_0))
    } else {
        None
    }
}

/// Whether every entity an attacker list references is stored or fetchable.
pub open spec fn attacker_refs_ensured(db: Store, rem: Remote, atts: Seq<ESIAttacker>) -> bool {
    &&& first_unensured_alliance(
        db.alliances@,
        rem,
        attacker_alliance_ids(atts),
        attacker_alliance_ids(atts).len() as int,
    ) is None
    &&& first_unensured_corporation(
        db.corporations@,
        rem,
        attacker_corporation_ids(atts),
        attacker_corporation_ids(atts).len() as int,
    ) is None
    &&& first_unensured_character(
        db.characters@,
        rem,
        attacker_character_ids(atts),
        attacker_character_ids(atts).len() as int,
    ) is None
}

/// The failure that resolving an attacker list's references surfaces,
/// staged in order: alliances, then corporations, then characters.
pub open spec fn attackers_stage_error(db: Store, rem: Remote, atts: Seq<ESIAttacker>) -> Option<
    ProcessingError,
> {
    let a_ids = attacker_alliance_ids(atts);
    let c_ids = attacker_corporation_ids(atts);
    let ch_ids = attacker_character_ids(atts);
    if first_unensured_alliance(db.alliances@, rem, a_ids, a_ids.len() as int) is Some {
        let k = first_unensured_alliance(db.alliances@, rem, a_ids, a_ids.len() as int)->0;
        Some(ProcessingError::ESIError(fetch_alliance_spec(rem, a_ids[k])->Err_0))
    } else if first_unensured_corporation(
        db.corporations@,
        rem,
        c_ids,
        c_ids.len() as int,
    ) is Some {
        let k = first_unensured_corporation(db.corporations@, rem, c_ids, c_ids.len() as int)->0;
        Some(ProcessingError::ESIError(fetch_corporation_spec(rem, c_ids[k])->Err_0))
    } else if first_unensured_character(
        db.characters@,
        rem,
        ch_ids,
        ch_ids.len() as int,
    ) is Some {
        let k = first_unensured_character(db.characters@, rem, ch_ids, ch_ids.len() as int)->0;
        Some(ProcessingError::ESIError(fetch_character_spec(rem, ch_ids[k])->Err_0))
    } else {
        None
    }
}

/// Resolves the victim's optional alliance, corporation and character
/// references in that order, each fetched only if absent, then inserts the
/// victim row.
pub fn process_victim(
    db: &mut Store,
    remote: &Remote,
    victim: ESIVictim,
    killmail_id: u64,
) -> (r: Result<(), ProcessingError>)
    requires
        old(db).wf(),
        old(db).has_killmail(killmail_id),
    ensures
        final(db).wf(),
        final(db).killmails == old(db).killmails,
        final(db).attackers == old(db).attackers,
        final(db).positions == old(db).positions,
        final(db).factions == old(db).factions,
        final(db).esi_categories == old(db).esi_categories,
        final(db).esi_groups == old(db).esi_groups,
        final(db).esi_types == old(db).esi_types,
        r is Ok <==> victim_refs_ensured(*old(db), *remote, victim),
        r is Ok ==> {
            &&& alliances_resolved(
                old(db).alliances@,
                *remote,
                opt_id_seq(victim.alliance_id),
                final(db).alliances@,
            )
            &&& corporations_resolved(
                old(db).corporations@,
                *remote,
                opt_id_seq(victim.corporation_id),
                final(db).corporations@,
            )
            &&& characters_resolved(
                old(db).characters@,
                *remote,
                opt_id_seq(victim.character_id),
                final(db).characters@,
            )
            &&& final(db).victims@ == old(db).victims@.push(
                victim_with_id(
                    victim_row_of(victim, 0, killmail_id),
                    old(db).victims@.len() as u64,
                ),
            )
        },
        r is Err ==> final(db).victims == old(db).victims,
        r matches Err(e) ==> victim_stage_error(*old(db), *remote, victim) == Some(e),
        r is Err ==> ({
            if victim.alliance_id is Some && !alliance_ensured(
                old(db).alliances@,
                *remote,
                victim.alliance_id->0,
            ) {
                *final(db) == *old(db)
            } else if victim.corporation_id is Some && !corporation_ensured(
                old(db).corporations@,
                *remote,
                victim.corporation_id->0,
            ) {
                &&& alliances_resolved(
                    old(db).alliances@,
                    *remote,
                    opt_id_seq(victim.alliance_id),
                    final(db).alliances@,
                )
                &&& final(db).corporations == old(db).corporations
                &&& final(db).characters == old(db).characters
            } else {
                &&& alliances_resolved(
                    old(db).alliances@,
                    *remote,
                    opt_id_seq(victim.alliance_id),
                    final(db).alliances@,
                )
                &&& corporations_resolved(
                    old(db).corporations@,
                    *remote,
                    opt_id_seq(victim.corporation_id),
                    final(db).corporations@,
                )
                &&& final(db).characters == old(db).characters
            }
        }),
{
    let ghost pre = *old(db);
    if let Some(alliance_id) = victim.alliance_id {
        match store_alliance_if_not_present(db, remote, alliance_id) {
            Ok(()) => {
                proof {
                    assert(opt_id_seq(victim.alliance_id).drop_last() =~= Seq::<u64>::empty());
                    assert(opt_id_seq(victim.alliance_id).last() == alliance_id);
                    assert(alliances_resolved(
                        pre.alliances@,
                        *remote,
                        opt_id_seq(victim.alliance_id).drop_last(),
                        pre.alliances@,
                    ));
                    assert(alliances_resolved(
                        pre.alliances@,
                        *remote,
                        opt_id_seq(victim.alliance_id),
                        db.alliances@,
                    ));
                }
            },
            Err(e) => {
                return Err(e);
            },
        }
    }
    if let Some(corporation_id) = victim.corporation_id {
        match store_corporation_if_not_present(db, remote, corporation_id) {
            Ok(()) => {
                proof {
                    assert(opt_id_seq(victim.corporation_id).drop_last() =~= Seq::<u64>::empty());
                    assert(opt_id_seq(victim.corporation_id).last() == corporation_id);
                    assert(corporations_resolved(
                        pre.corporations@,
                        *remote,
                        opt_id_seq(victim.corporation_id).drop_last(),
                        pre.corporations@,
                    ));
                    assert(corporations_resolved(
                        pre.corporations@,
                        *remote,
                        opt_id_seq(victim.corporation_id),
                        db.corporations@,
                    ));
                }
            },
            Err(e) => {
                return Err(e);
            },
        }
    }
    if let Some(character_id) = victim.character_id {
        match store_pubchar_info_if_not_present(db, remote, character_id) {
            Ok(()) => {
                proof {
                    assert(opt_id_seq(victim.character_id).drop_last() =~= Seq::<u64>::empty());
                    assert(opt_id_seq(victim.character_id).last() == character_id);
                    assert(characters_resolved(
                        pre.characters@,
                        *remote,
                        opt_id_seq(victim.character_id).drop_last(),
                        pre.characters@,
                    ));
                    assert(characters_resolved(
                        pre.characters@,
                        *remote,
                        opt_id_seq(victim.character_id),
                        db.characters@,
                    ));
                }
            },
            Err(e) => {
                return Err(e);
            },
        }
    }
    let row = VictimRow::from_esi(victim, killmail_id);
    let _victim_id = db.insert_victim(row);
    Ok(())
}

/// Collects the attacker list's alliance, corporation and character id lists
/// (duplicates retained), resolves each through the fail-fast batched
/// resolver, then inserts all attacker rows in one batch.
pub fn process_attackers(
    db: &mut Store,
    remote: &Remote,
    attackers: Vec<ESIAttacker>,
    killmail_id: u64,
) -> (r: Result<(), ProcessingError>)
    requires
        old(db).wf(),
        old(db).has_killmail(killmail_id),
    ensures
        final(db).wf(),
        final(db).killmails == old(db).killmails,
        final(db).victims == old(db).victims,
        final(db).positions == old(db).positions,
        final(db).factions == old(db).factions,
        final(db).esi_categories == old(db).esi_categories,
        final(db).esi_groups == old(db).esi_groups,
        final(db).esi_types == old(db).esi_types,
        r is Ok <==> attacker_refs_ensured(*old(db), *remote, attackers@),
        r is Ok ==> {
            &&& alliances_resolved(
                old(db).alliances@,
                *remote,
                attacker_alliance_ids(attackers@),
                final(db).alliances@,
            )
            &&& corporations_resolved(
                old(db).corporations@,
                *remote,
                attacker_corporation_ids(attackers@),
                final(db).corporations@,
            )
            &&& characters_resolved(
                old(db).characters@,
                *remote,
                attacker_character_ids(attackers@),
                final(db).characters@,
            )
            &&& final(db).attackers@ == old(db).attackers@ + appended_attackers(
                attackers@,
                killmail_id,
                old(db).attackers@.len() as int,
            )
        },
        r is Err ==> final(db).attackers == old(db).attackers,
        r matches Err(e) ==> attackers_stage_error(*old(db), *remote, attackers@) == Some(e),
        r is Err ==> ({
            let a_ids = attacker_alliance_ids(attackers@);
            let c_ids = attacker_corporation_ids(attackers@);
            let ch_ids = attacker_character_ids(attackers@);
            if first_unensured_alliance(
                old(db).alliances@,
                *remote,
                a_ids,
                a_ids.len() as int,
            ) is Some {
                let k = first_unensured_alliance(
                    old(db).alliances@,
                    *remote,
                    a_ids,
                    a_ids.len() as int,
                )->0;
                &&& alliances_resolved(
                    old(db).alliances@,
                    *remote,
                    a_ids.take(k),
                    final(db).alliances@,
                )
                &&& final(db).corporations == old(db).corporations
                &&& final(db).characters == old(db).characters
            } else if first_unensured_corporation(
                old(db).corporations@,
                *remote,
                c_ids,
                c_ids.len() as int,
            ) is Some {
                let k = first_unensured_corporation(
                    old(db).corporations@,
                    *remote,
                    c_ids,
                    c_ids.len() as int,
                )->0;
                &&& alliances_resolved(old(db).alliances@, *remote, a_ids, final(db).alliances@)
                &&& corporations_resolved(
                    old(db).corporations@,
                    *remote,
                    c_ids.take(k),
                    final(db).corporations@,
                )
                &&& final(db).characters == old(db).characters
            } else if first_unensured_character(
                old(db).characters@,
                *remote,
                ch_ids,
                ch_ids.len() as int,
            ) is Some {
                let k = first_unensured_character(
                    old(db).characters@,
                    *remote,
                    ch_ids,
                    ch_ids.len() as int,
                )->0;
                &&& alliances_resolved(old(db).alliances@, *remote, a_ids, final(db).alliances@)
                &&& corporations_resolved(
                    old(db).corporations@,
                    *remote,
                    c_ids,
                    final(db).corporations@,
                )
                &&& characters_resolved(
                    old(db).characters@,
                    *remote,
                    ch_ids.take(k),
                    final(db).characters@,
                )
            } else {
                true
            }
        }),
{
    let ghost pre = *old(db);
    let n = attackers.len();

    let mut alliance_ids: Vec<u64> = Vec::new();
    let mut corporation_ids: Vec<u64> = Vec::new();
    let mut character_ids: Vec<u64> = Vec::new();
    let mut j: usize = 0;
    proof {
        assert(attackers@.take(0) =~= Seq::<ESIAttacker>::empty());
    }
    while j < n
        invariant
            0 <= j <= n == attackers@.len(),
            alliance_ids@ == attacker_alliance_ids(attackers@.take(j as int)),
            corporation_ids@ == attacker_corporation_ids(attackers@.take(j as int)),
            character_ids@ == attacker_character_ids(attackers@.take(j as int)),
        decreases n - j,
    {
        proof {
            assert(attackers@.take(j as int + 1).drop_last() =~= attackers@.take(j as int));
            assert(attackers@.take(j as int + 1).last() == attackers@[j as int]);
        }
        let ghost a_pre = alliance_ids@;
        let ghost c_pre = corporation_ids@;
        let ghost ch_pre = character_ids@;
        if let Some(id) = attackers[j].alliance_id {
            alliance_ids.push(id);
        }
        if let Some(id) = attackers[j].corporation_id {
            corporation_ids.push(id);
        }
        if let Some(id) = attackers[j].character_id {
            character_ids.push(id);
        }
        proof {
            assert(alliance_ids@ =~= a_pre + opt_id_seq(attackers@[j as int].alliance_id));
            assert(corporation_ids@ =~= c_pre + opt_id_seq(attackers@[j as int].corporation_id));
            assert(character_ids@ =~= ch_pre + opt_id_seq(attackers@[j as int].character_id));
        }
        j = j + 1;
    }
    proof {
        assert(attackers@.take(n as int) =~= attackers@);
    }

    match store_alliances_if_not_present(db, remote, &alliance_ids) {
        Ok(()) => {},
        Err(e) => {
            return Err(e);
        },
    }
    match store_corporations_if_not_present(db, remote, &corporation_ids) {
        Ok(()) => {},
        Err(e) => {
            return Err(e);
        },
    }
    match store_pubchars_info_if_not_present(db, remote, &character_ids) {
        Ok(()) => {},
        Err(e) => {
            return Err(e);
        },
    }
    let ghost s3 = *db;

    let mut rows: Vec<AttackerRow> = Vec::new();
    let mut k: usize = 0;
    while k < n
        invariant
            0 <= k <= n == attackers@.len(),
            rows@.len() == k,
            forall|m: int|
                0 <= m < k ==> rows@[m] == attacker_row_of(attackers@[m], 0, killmail_id),
        decreases n - k,
    {
        rows.push(AttackerRow::from_esi(attackers[k], killmail_id));
        k = k + 1;
    }
    proof {
        assert(forall|m: int|
            0 <= m < rows@.len() ==> s3.has_killmail((#[trigger] rows@[m]).killmail_id));
    }
    db.insert_multiple_attackers(rows);
    proof {
        assert(attackers_with_ids(
            Seq::new(attackers@.len(), |m: int| attacker_row_of(attackers@[m], 0, killmail_id)),
            s3.attackers@.len() as int,
        ) =~= appended_attackers(attackers@, killmail_id, pre.attackers@.len() as int));
        assert(db.attackers@ =~= pre.attackers@ + appended_attackers(
            attackers@,
            killmail_id,
            pre.attackers@.len() as int,
        ));
    }
    Ok(())
}

/// Inserts the position row of a killmail.
pub fn process_position(db: &mut Store, position: ESIKillPosition, killmail_id: u64) -> (r: Result<
    (),
    ProcessingError,
>)
    requires
        old(db).wf(),
        old(db).has_killmail(killmail_id),
    ensures
        final(db).wf(),
        final(db).positions@ == old(db).positions@.push(
            position_with_id(position_row_of(position, 0, killmail_id), old(db).positions@.len() as u64),
        ),
        final(db).same_except_positions(*old(db)),
        r is Ok,
{
    let row = PositionRow::from_esi(position, killmail_id);
    let _position_id = db.insert_position(row);
    Ok(())
}

/// Whether every entity a killmail payload references is stored or
/// fetchable, which is exactly when processing a fresh payload is owed
/// success.
pub open spec fn killmail_refs_ensured(db: Store, rem: Remote, km: ESIKillmail) -> bool {
    &&& victim_refs_ensured(db, rem, km.victim)
    &&& attacker_refs_ensured(db, rem, km.attackers@)
}

/// The failure that processing a fresh killmail surfaces: the victim's
/// references are resolved first, then the attacker lists'.
pub open spec fn killmail_stage_error(db: Store, rem: Remote, km: ESIKillmail) -> Option<
    ProcessingError,
> {
    if victim_stage_error(db, rem, km.victim) is Some {
        victim_stage_error(db, rem, km.victim)
    } else {
        attackers_stage_error(db, rem, km.attackers@)
    }
}

/// The all-id lists a killmail resolves per entity kind: the victim's
/// optional reference followed by the attacker list's references.
pub open spec fn killmail_alliance_ids(km: ESIKillmail) -> Seq<u64> {
    opt_id_seq(km.victim.alliance_id) + attacker_alliance_ids(km.attackers@)
}

/// The corporation ids a killmail resolves, victim first.
pub open spec fn killmail_corporation_ids(km: ESIKillmail) -> Seq<u64> {
    opt_id_seq(km.victim.corporation_id) + attacker_corporation_ids(km.attackers@)
}

/// The character ids a killmail resolves, victim first.
pub open spec fn killmail_character_ids(km: ESIKillmail) -> Seq<u64> {
    opt_id_seq(km.victim.character_id) + attacker_character_ids(km.attackers@)
}

/// The full effect of processing one killmail payload against a store.
///
/// A payload whose killmail id is already present is skipped and reported as
/// success, with the store untouched. A fresh payload has its killmail row
/// inserted first; success is owed exactly when every referenced entity is
/// stored or fetchable, and then the victim row, the attacker rows and the
/// optional position row are appended and the entity tables grow by the
/// resolved references. On failure the killmail row remains (the accepted
/// partial state) and the staged error is surfaced.
pub open spec fn process_effect(
    pre: Store,
    rem: Remote,
    km: ESIKillmail,
    post: Store,
    r: Result<(), ProcessingError>,
) -> bool {
    &&& post.factions == pre.factions
    &&& post.esi_categories == pre.esi_categories
    &&& post.esi_groups == pre.esi_groups
    &&& post.esi_types == pre.esi_types
    &&& (pre.has_killmail(km.killmail_id) ==> r is Ok && post == pre)
    &&& (!pre.has_killmail(km.killmail_id) ==> {
        &&& post.killmails@ == pre.killmails@.push(killmail_row_of(km))
        &&& (r is Ok <==> killmail_refs_ensured(pre, rem, km))
        &&& (r is Ok ==> {
            &&& post.victims@ == pre.victims@.push(
                victim_with_id(
                    victim_row_of(km.victim, 0, km.killmail_id),
                    pre.victims@.len() as u64,
                ),
            )
            &&& post.attackers@ == pre.attackers@ + appended_attackers(
                km.attackers@,
                km.killmail_id,
                pre.attackers@.len() as int,
            )
            &&& (match km.victim.position {
                Some(p) => post.positions@ == pre.positions@.push(
                    position_with_id(
                        position_row_of(p, 0, km.killmail_id),
                        pre.positions@.len() as u64,
                    ),
                ),
                None => post.positions == pre.positions,
            })
            &&& alliances_resolved(pre.alliances@, rem, killmail_alliance_ids(km), post.alliances@)
            &&& corporations_resolved(
                pre.corporations@,
                rem,
                killmail_corporation_ids(km),
                post.corporations@,
            )
            &&& characters_resolved(
                pre.characters@,
                rem,
                killmail_character_ids(km),
                post.characters@,
            )
        })
        &&& (r matches Err(e) ==> {
            &&& killmail_stage_error(pre, rem, km) == Some(e)
            &&& post.positions == pre.positions
            &&& post.attackers == pre.attackers
            &&& (if victim_stage_error(pre, rem, km.victim) is Some {
                post.victims == pre.victims
            } else {
                post.victims@ == pre.victims@.push(
                    victim_with_id(
                        victim_row_of(km.victim, 0, km.killmail_id),
                        pre.victims@.len() as u64,
                    ),
                )
            })
        })
    })
}

/// Normalizes one already-decoded killmail payload into the store.
pub fn process_killmail(db: &mut Store, remote: &Remote, killmail: ESIKillmail) -> (r: Result<
    (),
    ProcessingError,
>)
    requires
        old(db).wf(),
    ensures
        final(db).wf(),
        process_effect(*old(db), *remote, killmail, *final(db), r),
{
    let ghost pre = *old(db);
    let killmail_id = killmail.killmail_id;
    let ghost km_spec = killmail;
    let killmail_victim = killmail.victim;
    let killmail_position = killmail.victim.position;
    let killmail_insertable = KillmailRow::from_esi(&killmail);
    let killmail_attackers = killmail.attackers;
    proof {
        assert(killmail_attackers@ == km_spec.attackers@);
    }
    match db.insert_killmail_if_not_present(killmail_insertable) {
        CreateOrExist::Exists => Ok(()),
        CreateOrExist::Created => {
            let ghost s1 = *db;
            let victim_result = process_victim(db, remote, killmail_victim, killmail_id);
            proof {
                assert(s1.alliances@ == pre.alliances@);
                assert(s1.corporations@ == pre.corporations@);
                assert(s1.characters@ == pre.characters@);
            }
            match victim_result {
                Ok(()) => {},
                Err(e) => {
                    return Err(e);
                },
            }
            let ghost s2 = *db;
            proof {
                lemma_alliances_resolved_monotone(
                    pre.alliances@,
                    *remote,
                    opt_id_seq(km_spec.victim.alliance_id),
                    s2.alliances@,
                );
                lemma_alliances_resolved_provenance(
                    pre.alliances@,
                    *remote,
                    opt_id_seq(km_spec.victim.alliance_id),
                    s2.alliances@,
                );
                lemma_first_unensured_alliance_equiv(
                    pre.alliances@,
                    s2.alliances@,
                    *remote,
                    attacker_alliance_ids(km_spec.attackers@),
                    attacker_alliance_ids(km_spec.attackers@).len() as int,
                );
                lemma_corporations_resolved_monotone(
                    pre.corporations@,
                    *remote,
                    opt_id_seq(km_spec.victim.corporation_id),
                    s2.corporations@,
                );
                lemma_corporations_resolved_provenance(
                    pre.corporations@,
                    *remote,
                    opt_id_seq(km_spec.victim.corporation_id),
                    s2.corporations@,
                );
                lemma_first_unensured_corporation_equiv(
                    pre.corporations@,
                    s2.corporations@,
                    *remote,
                    attacker_corporation_ids(km_spec.attackers@),
                    attacker_corporation_ids(km_spec.attackers@).len() as int,
                );
                lemma_characters_resolved_monotone(
                    pre.characters@,
                    *remote,
                    opt_id_seq(km_spec.victim.character_id),
                    s2.characters@,
                );
                lemma_characters_resolved_provenance(
                    pre.characters@,
                    *remote,
                    opt_id_seq(km_spec.victim.character_id),
                    s2.characters@,
                );
                lemma_first_unensured_character_equiv(
                    pre.characters@,
                    s2.characters@,
                    *remote,
                    attacker_character_ids(km_spec.attackers@),
                    attacker_character_ids(km_spec.attackers@).len() as int,
                );
            }
            let attackers_result = process_attackers(db, remote, killmail_attackers, killmail_id);
            match attackers_result {
                Ok(()) => {},
                Err(e) => {
                    return Err(e);
                },
            }
            let ghost s3 = *db;
            proof {
                lemma_alliances_resolved_concat(
                    pre.alliances@,
                    *remote,
                    opt_id_seq(km_spec.victim.alliance_id),
                    s2.alliances@,
                    attacker_alliance_ids(km_spec.attackers@),
                    s3.alliances@,
                );
                lemma_corporations_resolved_concat(
                    pre.corporations@,
                    *remote,
                    opt_id_seq(km_spec.victim.corporation_id),
                    s2.corporations@,
                    attacker_corporation_ids(km_spec.attackers@),
                    s3.corporations@,
                );
                lemma_characters_resolved_concat(
                    pre.characters@,
                    *remote,
                    opt_id_seq(km_spec.victim.character_id),
                    s2.characters@,
                    attacker_character_ids(km_spec.attackers@),
                    s3.characters@,
                );
            }
            if let Some(position) = killmail_position {
                match process_position(db, position, killmail_id) {
                    Ok(()) => {},
                    Err(e) => {
                        return Err(e);
                    },
                }
            }
            Ok(())
        },
    }
}

/// Whether a historical reference names a killmail that the store already
/// holds: its decimal id parses and is present.
pub open spec fn request_known(db: Store, req: ESIKillmailRequest) -> bool {
    &&& req.id@.len() > 0
    &&& all_dec_digits(req.id@)
    &&& dec_val(req.id@) <= u64::MAX
    &&& db.has_killmail(dec_val(req.id@) as u64)
}

/// The full effect of processing one historical killmail reference: a
/// reference whose id is already stored is skipped without a fetch; an
/// unknown reference is fetched by id and hash and its payload processed.
pub open spec fn esi_request_effect(
    pre: Store,
    rem: Remote,
    req: ESIKillmailRequest,
    post: Store,
    ok: bool,
) -> bool {
    if request_known(pre, req) {
        post == pre && ok
    } else {
        match fetch_killmail_spec(rem, req.id@, req.hash@) {
            Err(_) => post == pre && !ok,
            Ok(km) => exists|r: Result<(), ProcessingError>|
                #![auto]
                process_effect(pre, rem, km, post, r) && (ok <==> r is Ok),
        }
    }
}

/// Processes one historical killmail reference: skips it when its id is
/// already stored, otherwise fetches the payload and normalizes it.
pub fn process_esi_killmail(db: &mut Store, remote: &Remote, request: &ESIKillmailRequest) -> (r:
    Result<(), ProcessingError>)
    requires
        old(db).wf(),
    ensures
        final(db).wf(),
        esi_request_effect(*old(db), *remote, *request, *final(db), r is Ok),
        (!request_known(*old(db), *request) && (fetch_killmail_spec(
            *remote,
            request.id@,
            request.hash@,
        ) matches Err(e) ==> r == Result::<(), ProcessingError>::Err(
            ProcessingError::ESIError(e),
        ))) || request_known(*old(db), *request),
{
    let known = match parse_u64(request.id.as_str()) {
        Some(id) => db.contains_killmail(id),
        None => false,
    };
    if known {
        return Ok(());
    }
    match get_killmail(remote, request) {
        Ok(killmail) => {
            let ghost fetched = killmail;
            let ghost spec_km = fetch_killmail_spec(*remote, request.id@, request.hash@)->Ok_0;
            let result = process_killmail(db, remote, killmail);
            proof {
                lemma_process_effect_like(
                    *old(db),
                    *remote,
                    fetched,
                    spec_km,
                    *db,
                    result,
                );
            }
            result
        },
        Err(e) => Err(ProcessingError::ESIError(e)),
    }
}

/// Two payloads that agree field-for-field have the same processing effect.
proof fn lemma_process_effect_like(
    pre: Store,
    rem: Remote,
    a: ESIKillmail,
    b: ESIKillmail,
    post: Store,
    r: Result<(), ProcessingError>,
)
    requires
        esi_killmail_like(a, b),
        process_effect(pre, rem, a, post, r),
    ensures
        process_effect(pre, rem, b, post, r),
{
    assert(killmail_row_of(a) == killmail_row_of(b));
    assert(appended_attackers(a.attackers@, a.killmail_id, pre.attackers@.len() as int)
        == appended_attackers(b.attackers@, b.killmail_id, pre.attackers@.len() as int));
    assert(killmail_alliance_ids(a) == killmail_alliance_ids(b));
    assert(killmail_corporation_ids(a) == killmail_corporation_ids(b));
    assert(killmail_character_ids(a) == killmail_character_ids(b));
}

/// Reprocessing a payload is a no-op: once one processing pass has run —
/// whatever its outcome, since the killmail row lands first — a second pass
/// over the same payload reports success and leaves the store exactly as it
/// was. This is the idempotence the existence check buys.
pub proof fn lemma_process_killmail_idempotent(
    pre: Store,
    rem: Remote,
    km: ESIKillmail,
    mid: Store,
    r1: Result<(), ProcessingError>,
    post: Store,
    r2: Result<(), ProcessingError>,
)
    requires
        process_effect(pre, rem, km, mid, r1),
        process_effect(mid, rem, km, post, r2),
    ensures
        r2 is Ok,
        post == mid,
{
    if !pre.has_killmail(km.killmail_id) {
        assert(mid.killmails@.last() == killmail_row_of(km));
        assert(mid.has_killmail(km.killmail_id));
    }
}

/// The effect of processing a batch of references in order, each one by
/// `esi_request_effect`, whatever became of its siblings.
pub open spec fn bulk_run(
    pre: Store,
    rem: Remote,
    requests: Seq<ESIKillmailRequest>,
    post: Store,
) -> bool
    decreases requests.len(),
{
    if requests.len() == 0 {
        post == pre
    } else {
        exists|mid: Store, ok: bool|
            #![auto]
            bulk_run(pre, rem, requests.drop_last(), mid) && esi_request_effect(
                mid,
                rem,
                requests.last(),
                post,
                ok,
            )
    }
}

/// Processes a batch of historical killmail references, fail-soft: every
/// reference is attempted in order whatever happened to its siblings, and
/// the counts of successes and failures account for every item.
pub fn process_killmails(db: &mut Store, remote: &Remote, requests: &Vec<ESIKillmailRequest>) -> (r:
    (usize, usize))
    requires
        old(db).wf(),
    ensures
        final(db).wf(),
        r.0 + r.1 == requests@.len(),
        bulk_run(*old(db), *remote, requests@, *final(db)),
        final(db).factions == old(db).factions,
        final(db).esi_categories == old(db).esi_categories,
        final(db).esi_groups == old(db).esi_groups,
        final(db).esi_types == old(db).esi_types,
{
    let ghost pre = *old(db);
    let n = requests.len();
    let mut processed: usize = 0;
    let mut failed: usize = 0;
    let mut i: usize = 0;
    proof {
        assert(requests@.take(0) =~= Seq::<ESIKillmailRequest>::empty());
    }
    while i < n
        invariant
            0 <= i <= n == requests@.len(),
            db.wf(),
            pre == *old(db),
            processed + failed == i,
            bulk_run(pre, *remote, requests@.take(i as int), *db),
            db.factions == old(db).factions,
            db.esi_categories == old(db).esi_categories,
            db.esi_groups == old(db).esi_groups,
            db.esi_types == old(db).esi_types,
        decreases n - i,
    {
        let ghost mid = *db;
        let result = process_esi_killmail(db, remote, &requests[i]);
        match result {
            Ok(()) => {
                processed = processed + 1;
            },
            Err(_) => {
                failed = failed + 1;
            },
        }
        proof {
            assert(requests@.take(i as int + 1).drop_last() =~= requests@.take(i as int));
            assert(requests@.take(i as int + 1).last() == requests@[i as int]);
            assert(esi_request_effect(mid, *remote, requests@[i as int], *db, result is Ok));
            assert(bulk_run(pre, *remote, requests@.take(i as int + 1), *db));
        }
        i = i + 1;
    }
    proof {
        assert(requests@.take(n as int) =~= requests@);
    }
    (processed, failed)
}

} // verus!
