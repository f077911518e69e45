use jager::database::{CreateOrExist, Store};
use jager::entity::KillmailRow;
use jager::esi::Remote;
use jager::esi_models::{
    ESIAlliance, ESIAttacker, ESICorporation, ESIKillPosition, ESIKillmail, ESIKillmailRequest,
    ESIVictim, EsiCharacterPublicInfo,
};
use jager::killmail_processing::{
    process_attackers, process_esi_killmail, process_killmail, process_killmails, process_victim,
};
use jager::organization_processing::{
    store_alliance_if_not_present, store_alliances_if_not_present,
};

fn character_info(name: &str) -> EsiCharacterPublicInfo {
    EsiCharacterPublicInfo {
        alliance_id: None,
        birthday: None,
        corporation_id: 2001,
        faction_id: None,
        name: name.to_string(),
        security_status_bits: 0.5f32.to_bits(),
    }
}

fn alliance_body(name: &str) -> ESIAlliance {
    ESIAlliance { faction_id: None, name: name.to_string(), ticker: "TICK".to_string() }
}

fn corporation_body(name: &str) -> ESICorporation {
    ESICorporation {
        alliance_id: None,
        faction_id: None,
        member_count: Some(10),
        name: name.to_string(),
        ticker: "CORP".to_string(),
        war_eligible: Some(false),
    }
}

fn victim(character_id: Option<u64>) -> ESIVictim {
    ESIVictim {
        alliance_id: None,
        character_id,
        faction_id: None,
        corporation_id: None,
        damage_taken: 500,
        ship_type_id: 33,
        position: Some(ESIKillPosition {
            x_bits: 1.0f64.to_bits(),
            y_bits: 2.0f64.to_bits(),
            z_bits: 3.0f64.to_bits(),
        }),
    }
}

fn attacker(character_id: Option<u64>, final_blow: bool) -> ESIAttacker {
    ESIAttacker {
        alliance_id: None,
        character_id,
        corporation_id: None,
        faction_id: None,
        damage_done: 250,
        final_blow,
        security_status_bits: 0.1f32.to_bits(),
        ship_type_id: Some(44),
        weapon_type_id: Some(55),
    }
}

fn payload(killmail_id: u64, victim_char: Option<u64>, attacker_chars: &[Option<u64>]) -> ESIKillmail {
    let mut attackers = Vec::new();
    let mut first = true;
    for c in attacker_chars {
        attackers.push(attacker(*c, first));
        first = false;
    }
    ESIKillmail {
        killmail_id,
        killmail_time: 1_600_000_000,
        solar_system_id: 30000142,
        victim: victim(victim_char),
        attackers,
    }
}

fn remote_with_characters(ids: &[u64]) -> Remote {
    let mut remote = Remote::new();
    for id in ids {
        remote.characters.push((*id, Some(character_info(&format!("pilot {}", id)))));
    }
    remote
}

#[test]
fn victim_resolution_fetches_missing_character() {
    // Resolving a victim whose character 12345 is not yet stored fetches it
    // once and inserts it once; the victim row references 12345.
    let mut db = Store::new();
    let remote = remote_with_characters(&[12345]);
    let km = KillmailRow { killmail_id: 7, killmail_time: 0, solar_system_id: 1 };
    assert!(matches!(db.insert_killmail_if_not_present(km), CreateOrExist::Created));
    let result = process_victim(&mut db, &remote, victim(Some(12345)), 7);
    assert!(result.is_ok());
    assert_eq!(db.characters.len(), 1);
    assert_eq!(db.characters[0].character_id, 12345);
    assert_eq!(db.victims.len(), 1);
    assert_eq!(db.victims[0].character_id, Some(12345));
    assert_eq!(db.victims[0].killmail_id, 7);
}

#[test]
fn existing_killmail_is_skipped_without_any_insert() {
    // Killmail id 99 already exists: the normalizer reports success and no
    // victim, attacker, position or entity row appears.
    let mut db = Store::new();
    let km = KillmailRow { killmail_id: 99, killmail_time: 5, solar_system_id: 2 };
    assert!(matches!(db.insert_killmail_if_not_present(km), CreateOrExist::Created));
    let remote = Remote::new();
    let result = process_killmail(&mut db, &remote, payload(99, Some(12345), &[Some(777)]));
    assert!(result.is_ok());
    assert_eq!(db.killmails.len(), 1);
    assert_eq!(db.victims.len(), 0);
    assert_eq!(db.attackers.len(), 0);
    assert_eq!(db.positions.len(), 0);
    assert_eq!(db.characters.len(), 0);
}

#[test]
fn processing_twice_inserts_one_row_set() {
    // Idempotence: the same payload processed twice yields exactly one
    // killmail, one victim, two attackers and one position, and the second
    // call reports success.
    let mut db = Store::new();
    let remote = remote_with_characters(&[12345, 777, 778]);
    let km = payload(41, Some(12345), &[Some(777), Some(778)]);
    assert!(process_killmail(&mut db, &remote, km.clone()).is_ok());
    assert!(process_killmail(&mut db, &remote, km).is_ok());
    assert_eq!(db.killmails.len(), 1);
    assert_eq!(db.victims.len(), 1);
    assert_eq!(db.attackers.len(), 2);
    assert_eq!(db.positions.len(), 1);
    assert_eq!(db.characters.len(), 3);
}

#[test]
fn full_processing_orders_parent_before_children() {
    let mut db = Store::new();
    let remote = remote_with_characters(&[12345, 777]);
    let result = process_killmail(&mut db, &remote, payload(41, Some(12345), &[Some(777)]));
    assert!(result.is_ok());
    assert_eq!(db.killmails.len(), 1);
    assert_eq!(db.killmails[0].killmail_id, 41);
    // Every child row references the stored killmail.
    for v in &db.victims {
        assert!(db.killmails.iter().any(|k| k.killmail_id == v.killmail_id));
    }
    for a in &db.attackers {
        assert!(db.killmails.iter().any(|k| k.killmail_id == a.killmail_id));
    }
    for p in &db.positions {
        assert!(db.killmails.iter().any(|k| k.killmail_id == p.killmail_id));
    }
    // Surrogate keys are assigned in insert order.
    assert_eq!(db.victims[0].victim_id, 0);
    assert_eq!(db.attackers[0].attacker_id, 0);
    assert_eq!(db.positions[0].position_id, 0);
}

#[test]
fn failed_payload_leaves_killmail_row_in_place() {
    // The known partial-failure state: the killmail row lands before a child
    // stage fails, and stays.
    let mut db = Store::new();
    let remote = Remote::new();
    let result = process_killmail(&mut db, &remote, payload(50, Some(12345), &[]));
    assert!(result.is_err());
    assert_eq!(db.killmails.len(), 1);
    assert_eq!(db.victims.len(), 0);
}

#[test]
fn batch_resolution_is_fail_fast() {
    // Five resolutions where the third fails: the first two land, the two
    // queued after the failure are never attempted.
    let mut db = Store::new();
    let mut remote = Remote::new();
    for id in [1u64, 2, 4, 5] {
        remote.alliances.push((id, Some(alliance_body(&format!("alliance {}", id)))));
    }
    let ids = vec![1u64, 2, 3, 4, 5];
    let result = store_alliances_if_not_present(&mut db, &remote, &ids);
    assert!(result.is_err());
    assert_eq!(db.alliances.len(), 2);
    assert!(db.contains_alliance(1));
    assert!(db.contains_alliance(2));
    assert!(!db.contains_alliance(4));
    assert!(!db.contains_alliance(5));
}

#[test]
fn bulk_processing_is_fail_soft() {
    // Five killmail references where one fails: all five are attempted and
    // accounted for, and the other four land.
    let mut db = Store::new();
    let mut remote = Remote::new();
    for id in [61u64, 62, 64, 65] {
        remote.killmails.push((
            ESIKillmailRequest { id: id.to_string(), hash: format!("h{}", id) },
            Some(payload(id, None, &[None])),
        ));
    }
    let requests: Vec<ESIKillmailRequest> = [61u64, 62, 63, 64, 65]
        .iter()
        .map(|id| ESIKillmailRequest { id: id.to_string(), hash: format!("h{}", id) })
        .collect();
    let (processed, failed) = process_killmails(&mut db, &remote, &requests);
    assert_eq!(processed, 4);
    assert_eq!(failed, 1);
    assert_eq!(processed + failed, 5);
    for id in [61u64, 62, 64, 65] {
        assert!(db.contains_killmail(id));
    }
    assert!(!db.contains_killmail(63));
}

#[test]
fn known_reference_is_skipped_without_fetch() {
    let mut db = Store::new();
    let remote = remote_with_characters(&[]);
    let km = KillmailRow { killmail_id: 99, killmail_time: 5, solar_system_id: 2 };
    db.insert_killmail_if_not_present(km);
    // The remote has no entry for the reference, so a fetch would fail; the
    // stored id short-circuits it.
    let request = ESIKillmailRequest { id: "99".to_string(), hash: "abc".to_string() };
    assert!(process_esi_killmail(&mut db, &remote, &request).is_ok());
    assert_eq!(db.killmails.len(), 1);
}

#[test]
fn attacker_references_are_resolved_before_rows() {
    let mut db = Store::new();
    let remote = remote_with_characters(&[777, 778]);
    let km = KillmailRow { killmail_id: 8, killmail_time: 0, solar_system_id: 1 };
    db.insert_killmail_if_not_present(km);
    let atts = vec![attacker(Some(777), true), attacker(Some(778), false), attacker(None, false)];
    assert!(process_attackers(&mut db, &remote, atts, 8).is_ok());
    assert_eq!(db.characters.len(), 2);
    assert_eq!(db.attackers.len(), 3);
    assert_eq!(db.attackers[0].character_id, Some(777));
    assert!(db.attackers[0].final_blow);
    assert_eq!(db.attackers[2].character_id, None);
}

#[test]
fn duplicate_reference_ids_are_processed_redundantly_but_stored_once() {
    let mut db = Store::new();
    let mut remote = Remote::new();
    remote.alliances.push((9, Some(alliance_body("solo alliance"))));
    let ids = vec![9u64, 9, 9];
    assert!(store_alliances_if_not_present(&mut db, &remote, &ids).is_ok());
    assert_eq!(db.alliances.len(), 1);
}

#[test]
fn resolution_prefers_stored_entity_over_fetch() {
    let mut db = Store::new();
    let mut remote = Remote::new();
    remote.alliances.push((3, Some(alliance_body("fetched"))));
    assert!(store_alliance_if_not_present(&mut db, &remote, 3).is_ok());
    assert_eq!(db.alliances[0].name, "fetched");
    // A second resolution of the same id is a no-op even though the remote
    // still has the entry.
    assert!(store_alliance_if_not_present(&mut db, &remote, 3).is_ok());
    assert_eq!(db.alliances.len(), 1);
}

#[test]
fn parse_failure_on_entity_body_is_surfaced() {
    let mut db = Store::new();
    let mut remote = Remote::new();
    remote.corporations.push((2001, None));
    let result = jager::organization_processing::store_corporation_if_not_present(
        &mut db, &remote, 2001,
    );
    assert!(result.is_err());
    assert!(matches!(
        result,
        Err(jager::killmail_processing::ProcessingError::ESIError(jager::esi::EsiError::Parse))
    ));
}

#[test]
fn corporation_body_fields_carry_into_row() {
    let mut db = Store::new();
    let mut remote = Remote::new();
    remote.corporations.push((2001, Some(corporation_body("Acme"))));
    assert!(jager::organization_processing::store_corporation_if_not_present(
        &mut db, &remote, 2001
    )
    .is_ok());
    assert_eq!(db.corporations.len(), 1);
    assert_eq!(db.corporations[0].corporation_id, 2001);
    assert_eq!(db.corporations[0].name, "Acme");
    assert_eq!(db.corporations[0].ticker, "CORP");
    assert_eq!(db.corporations[0].member_count, Some(10));
}
