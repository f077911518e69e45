use jager::client::{
    apply_command, deserialize_stats_result, get_character_stats, get_character_stats_url,
    get_characters_from_clipboard, kill_loss_label, solo_kill_loss_label, Character,
    ClientCommand, StatsReply,
};
use jager::database::Store;
use jager::esi::Remote;
use jager::esi_models::{ESIKillmail, ESIVictim, EsiCharacterPublicInfo};
use jager::feed::{handle_feed_event, run_feed, FeedAction, FeedEvent};
use jager::jager_redis::{check_cache_character_stats, CacheReply, EXPIRE_INTERVAL};
use jager::stats_processing::{CharInfo, CharacterStats, KillLossRatio};

fn pending(name: &str) -> Character {
    Character {
        name: name.to_string(),
        valid: true,
        in_progress: true,
        is_found: true,
        stats: None,
    }
}

fn some_stats() -> CharacterStats {
    CharacterStats {
        char_info: CharInfo {
            alliance_name: None,
            alliance_ticker: None,
            corporation_name: Some("Acme".to_string()),
            corporation_ticker: Some("ACME".to_string()),
        },
        kill_loss_ratio: KillLossRatio { kills: 3, losses: 1 },
        solo_kill_loss_ratio: KillLossRatio { kills: 1, losses: 0 },
    }
}

fn feed_payload(killmail_id: u64) -> ESIKillmail {
    ESIKillmail {
        killmail_id,
        killmail_time: 1_700_000_000,
        solar_system_id: 31000001,
        victim: ESIVictim {
            alliance_id: None,
            character_id: Some(500),
            faction_id: None,
            corporation_id: None,
            damage_taken: 90,
            ship_type_id: 3,
            position: None,
        },
        attackers: vec![],
    }
}

fn feed_remote() -> Remote {
    let mut remote = Remote::new();
    remote.characters.push((
        500,
        Some(EsiCharacterPublicInfo {
            alliance_id: None,
            birthday: None,
            corporation_id: 9,
            faction_id: None,
            name: "Feed Victim".to_string(),
            security_status_bits: 0f32.to_bits(),
        }),
    ));
    remote
}

#[test]
fn clipboard_lines_become_pending_characters() {
    let clipboard = "Alice\nBob Builder\r\nCarol".to_string();
    let characters = get_characters_from_clipboard(&clipboard);
    assert_eq!(characters.len(), 3);
    assert_eq!(characters[0].name, "Alice");
    assert_eq!(characters[1].name, "Bob Builder");
    assert_eq!(characters[2].name, "Carol");
    assert!(characters.iter().all(|c| c.valid && c.in_progress && c.is_found && c.stats.is_none()));
    assert_eq!(get_characters_from_clipboard(&"".to_string()).len(), 0);
}

#[test]
fn stats_url_carries_the_name() {
    assert_eq!(
        get_character_stats_url("Alice"),
        "http://localhost:8000/character_stats/Alice"
    );
}

#[test]
fn reply_mapping_settles_characters() {
    let settled = get_character_stats(pending("Alice"), StatsReply::Stats(some_stats()));
    assert!(settled.valid && !settled.in_progress && settled.is_found);
    assert_eq!(settled.stats.as_ref().unwrap().kill_loss_ratio.kills, 3);

    let missing = get_character_stats(pending("Bob"), StatsReply::NotFound);
    assert!(missing.valid && !missing.is_found && missing.stats.is_none());

    let broken = get_character_stats(pending("Carol"), StatsReply::ServerError);
    assert!(!broken.valid && broken.is_found && broken.stats.is_none());

    let offline = get_character_stats(pending("Dan"), StatsReply::NetworkError);
    assert!(!offline.valid && offline.stats.is_none());

    let undecodable = deserialize_stats_result(pending("Eve"), None);
    assert!(!undecodable.valid && undecodable.stats.is_none());
}

#[test]
fn commands_update_the_character_list() {
    let mut list = vec![pending("Alice"), pending("Bob")];
    let mut update = get_character_stats(pending("Bob"), StatsReply::Stats(some_stats()));
    update.name = "Bob".to_string();
    assert!(apply_command(&mut list, ClientCommand::CharacterUpdate(update)));
    assert_eq!(list.len(), 2);
    assert!(list[0].in_progress);
    assert!(!list[1].in_progress);
    assert!(list[1].stats.is_some());

    assert!(apply_command(
        &mut list,
        ClientCommand::CharacterUpdate(pending("Nobody"))
    ));
    assert_eq!(list.len(), 2);

    assert!(apply_command(&mut list, ClientCommand::NewCharacters(vec![pending("Carol")])));
    assert_eq!(list.len(), 1);
    assert_eq!(list[0].name, "Carol");

    assert!(apply_command(&mut list, ClientCommand::Clear));
    assert!(list.is_empty());
}

#[test]
fn malformed_frame_is_skipped_and_the_next_is_processed() {
    // An unparseable text frame is logged and skipped; the following valid
    // frame is still processed.
    let mut db = Store::new();
    let remote = feed_remote();
    let events = vec![
        FeedEvent::Payload(feed_payload(70)),
        FeedEvent::Malformed,
        FeedEvent::Payload(feed_payload(71)),
        FeedEvent::Ping,
        FeedEvent::Other,
    ];
    let summary = run_feed(&mut db, &remote, events);
    assert_eq!(summary.processed, 2);
    assert_eq!(summary.failed, 0);
    assert_eq!(summary.skipped, 1);
    assert_eq!(summary.pongs, 1);
    assert!(db.contains_killmail(70));
    assert!(db.contains_killmail(71));
}

#[test]
fn ping_frames_are_answered() {
    let mut db = Store::new();
    let remote = Remote::new();
    assert!(matches!(handle_feed_event(&mut db, &remote, FeedEvent::Ping), FeedAction::Pong));
    assert!(matches!(
        handle_feed_event(&mut db, &remote, FeedEvent::Malformed),
        FeedAction::Skipped
    ));
    assert_eq!(db.killmails.len(), 0);
}

#[test]
fn failed_payload_does_not_stop_the_feed() {
    let mut db = Store::new();
    let remote = Remote::new();
    let events = vec![FeedEvent::Payload(feed_payload(80)), FeedEvent::Malformed];
    let summary = run_feed(&mut db, &remote, events);
    assert_eq!(summary.processed, 0);
    assert_eq!(summary.failed, 1);
    assert_eq!(summary.skipped, 1);
}

#[test]
fn cache_reply_interpretation() {
    assert!(check_cache_character_stats(CacheReply::Value(Some(some_stats()))).is_some());
    assert!(check_cache_character_stats(CacheReply::Value(None)).is_none());
    assert!(check_cache_character_stats(CacheReply::TypeError).is_none());
    assert!(check_cache_character_stats(CacheReply::OtherError).is_none());
    assert_eq!(EXPIRE_INTERVAL, 14400);
}

#[test]
fn list_row_labels_render_the_counts() {
    let stats = Some(some_stats());
    assert_eq!(kill_loss_label(&stats), "3:1");
    assert_eq!(solo_kill_loss_label(&stats), "1:0");
    assert_eq!(kill_loss_label(&None), "");
    assert_eq!(solo_kill_loss_label(&None), "");
}
