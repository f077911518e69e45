use jager::database::Store;
use jager::esi::Remote;
use jager::esi_models::{
    ESIAttacker, ESIKillPosition, ESIKillmail, ESIVictim, EsiCharacterPublicInfo,
};
use jager::killmail_processing::process_killmail;
use jager::stats_processing::{
    get_attacker_player_count, get_character_stats, get_statskillmail_from_id, needs_update,
    UPDATE_INTERVAL_SECONDS,
};

fn character_info(name: &str, alliance_id: Option<u64>) -> EsiCharacterPublicInfo {
    EsiCharacterPublicInfo {
        alliance_id,
        birthday: Some("2010-01-01T00:00:00Z".to_string()),
        corporation_id: 2001,
        faction_id: None,
        name: name.to_string(),
        security_status_bits: 0.5f32.to_bits(),
    }
}

fn victim(character_id: Option<u64>) -> ESIVictim {
    ESIVictim {
        alliance_id: None,
        character_id,
        faction_id: None,
        corporation_id: Some(2001),
        damage_taken: 500,
        ship_type_id: 33,
        position: Some(ESIKillPosition {
            x_bits: 1.5f64.to_bits(),
            y_bits: 2.5f64.to_bits(),
            z_bits: 3.5f64.to_bits(),
        }),
    }
}

fn attacker(character_id: Option<u64>) -> ESIAttacker {
    ESIAttacker {
        alliance_id: None,
        character_id,
        corporation_id: Some(2001),
        faction_id: None,
        damage_done: 250,
        final_blow: true,
        security_status_bits: 0.1f32.to_bits(),
        ship_type_id: Some(44),
        weapon_type_id: None,
    }
}

fn payload(killmail_id: u64, victim_char: Option<u64>, attacker_chars: &[Option<u64>]) -> ESIKillmail {
    ESIKillmail {
        killmail_id,
        killmail_time: 1_600_000_000,
        solar_system_id: 30000142,
        victim: victim(victim_char),
        attackers: attacker_chars.iter().map(|c| attacker(*c)).collect(),
    }
}

fn world() -> (Store, Remote) {
    let mut remote = Remote::new();
    remote.characters.push((100, Some(character_info("Hunter", None))));
    remote.characters.push((200, Some(character_info("Prey", None))));
    remote.characters.push((300, Some(character_info("Wingman", None))));
    remote.corporations.push((
        2001,
        Some(jager::esi_models::ESICorporation {
            alliance_id: None,
            faction_id: None,
            member_count: Some(5),
            name: "Acme Mining".to_string(),
            ticker: "ACME".to_string(),
            war_eligible: None,
        }),
    ));
    let mut db = Store::new();
    // Hunter kills Prey alone, then kills Prey again with Wingman, then dies
    // to Prey.
    assert!(process_killmail(&mut db, &remote, payload(1, Some(200), &[Some(100)])).is_ok());
    assert!(process_killmail(&mut db, &remote, payload(2, Some(200), &[Some(100), Some(300)]))
        .is_ok());
    assert!(process_killmail(&mut db, &remote, payload(3, Some(100), &[Some(200)])).is_ok());
    (db, remote)
}

#[test]
fn character_stats_counts_kills_losses_and_solo() {
    let (db, remote) = world();
    let name = "Hunter".to_string();
    let stats = get_character_stats(&db, &remote, &name, 0).unwrap().unwrap();
    assert_eq!(stats.kill_loss_ratio.kills, 2);
    assert_eq!(stats.kill_loss_ratio.losses, 1);
    assert_eq!(stats.solo_kill_loss_ratio.kills, 1);
    assert_eq!(stats.solo_kill_loss_ratio.losses, 1);
    assert_eq!(stats.char_info.corporation_name.as_deref(), Some("Acme Mining"));
    assert_eq!(stats.char_info.corporation_ticker.as_deref(), Some("ACME"));
    assert_eq!(stats.char_info.alliance_name, None);
}

#[test]
fn unknown_name_yields_empty_result() {
    let (db, remote) = world();
    let name = "Nobody".to_string();
    let result = get_character_stats(&db, &remote, &name, 0).unwrap();
    assert!(result.is_none());
}

#[test]
fn stale_character_with_unfetchable_info_fails() {
    // The stored rows carry no update stamp, so the refresh path runs; with
    // the character gone from the remote, the refresh fetch fails.
    let (db, _) = world();
    let empty_remote = Remote::new();
    let name = "Hunter".to_string();
    let result = get_character_stats(&db, &empty_remote, &name, 0);
    assert!(result.is_err());
}

#[test]
fn assembled_killmail_carries_all_parts() {
    let (db, _) = world();
    let skm = get_statskillmail_from_id(&db, 2).unwrap();
    assert_eq!(skm.killmail_id, 2);
    assert_eq!(skm.killmail_time, 1_600_000_000);
    assert_eq!(skm.solar_system_id, 30000142);
    assert_eq!(skm.victim.character_id, Some(200));
    assert_eq!(skm.attackers.len(), 2);
    assert_eq!(f64::from_bits(skm.position.x_bits), 1.5);
    assert!(get_statskillmail_from_id(&db, 9).is_none());
}

#[test]
fn player_count_ignores_structure_attackers() {
    let (db, _) = world();
    let skm = get_statskillmail_from_id(&db, 1).unwrap();
    assert_eq!(get_attacker_player_count(&skm.attackers), 1);
}

#[test]
fn staleness_threshold_is_three_days() {
    assert!(needs_update(None, 0));
    assert!(!needs_update(Some(0), UPDATE_INTERVAL_SECONDS));
    assert!(needs_update(Some(0), UPDATE_INTERVAL_SECONDS + 1));
    assert!(!needs_update(Some(100), 50));
}
