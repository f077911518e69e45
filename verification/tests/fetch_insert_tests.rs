use jager::client::Character;
use jager::database::{DbError, Store};
use jager::entity::{AllianceRow, CharacterRow, CorporationRow, EsiCategoryRow, EsiGroupRow, EsiTypeRow, FactionRow};
use jager::esi::{
    get_alliances, get_characters, get_corporations, get_esi_groups, get_esi_types, get_factions,
    get_killmail, EsiError, Remote,
};
use jager::esi_models::{
    ESIAlliance, ESICorporation, ESIFaction, ESIGroup, ESIKillmailRequest, ESIType,
    EsiCharacterPublicInfo,
};
use jager::database::JagerDatabaseError;
use jager::killmail_processing::ProcessingError;

fn remote_with_orgs() -> Remote {
    let mut remote = Remote::new();
    for id in [1u64, 2] {
        remote.alliances.push((
            id,
            Some(ESIAlliance {
                faction_id: None,
                name: format!("alliance {}", id),
                ticker: "AT".to_string(),
            }),
        ));
        remote.corporations.push((
            id,
            Some(ESICorporation {
                alliance_id: Some(id),
                faction_id: None,
                member_count: None,
                name: format!("corp {}", id),
                ticker: "CT".to_string(),
                war_eligible: None,
            }),
        ));
        remote.characters.push((
            id,
            Some(EsiCharacterPublicInfo {
                alliance_id: None,
                birthday: None,
                corporation_id: id,
                faction_id: None,
                name: format!("pilot {}", id),
                security_status_bits: 0f32.to_bits(),
            }),
        ));
    }
    remote
}

#[test]
fn plural_fetchers_return_rows_in_order() {
    let remote = remote_with_orgs();
    let alliances = get_alliances(&remote, &vec![2, 1]).unwrap();
    assert_eq!(alliances.len(), 2);
    assert_eq!(alliances[0].alliance_id, 2);
    assert_eq!(alliances[0].name, "alliance 2");
    assert_eq!(alliances[1].alliance_id, 1);

    let corporations = get_corporations(&remote, &vec![1, 2]).unwrap();
    assert_eq!(corporations[1].name, "corp 2");

    let characters = get_characters(&remote, &vec![1]).unwrap();
    assert_eq!(characters[0].character_name, "pilot 1");
}

#[test]
fn plural_fetchers_stop_at_the_first_failure() {
    let remote = remote_with_orgs();
    assert_eq!(get_alliances(&remote, &vec![1, 3, 2]), Err(EsiError::ApiError));
    assert_eq!(get_characters(&remote, &vec![9]), Err(EsiError::ApiError));
}

#[test]
fn killmail_fetch_requires_matching_id_and_hash() {
    let mut remote = Remote::new();
    remote.killmails.push((
        ESIKillmailRequest { id: "5".to_string(), hash: "right".to_string() },
        None,
    ));
    let wrong = ESIKillmailRequest { id: "5".to_string(), hash: "wrong".to_string() };
    assert!(matches!(get_killmail(&remote, &wrong), Err(EsiError::ApiError)));
    let right = ESIKillmailRequest { id: "5".to_string(), hash: "right".to_string() };
    assert!(matches!(get_killmail(&remote, &right), Err(EsiError::Parse)));
}

#[test]
fn faction_list_fetch_returns_every_faction() {
    let mut remote = Remote::new();
    remote.factions.push(ESIFaction {
        faction_id: 500,
        corporation_id: Some(1),
        militia_corporation_id: None,
        name: "Federation".to_string(),
    });
    let factions = get_factions(&remote).unwrap();
    assert_eq!(factions.len(), 1);
    assert_eq!(factions[0].name, "Federation");
}

#[test]
fn taxonomy_group_and_type_fetches_skip_failures() {
    let mut remote = Remote::new();
    remote.groups.push((
        10,
        Some(ESIGroup {
            category_id: 1,
            group_id: 10,
            name: "Frigates".to_string(),
            types: vec![100, 101],
        }),
    ));
    remote.item_types.push((
        100,
        Some(ESIType {
            type_id: 100,
            description: "small".to_string(),
            group_id: 10,
            name: "Rifter".to_string(),
            mass_bits: Some(1.5f32.to_bits()),
        }),
    ));
    let groups = get_esi_groups(&remote, vec![10, 11]);
    assert_eq!(groups.len(), 1);
    assert_eq!(groups[0].types, vec![100, 101]);
    let types = get_esi_types(&remote, vec![99, 100]);
    assert_eq!(types.len(), 1);
    assert_eq!(types[0].name, "Rifter");
}

#[test]
fn plural_inserters_collapse_duplicate_keys() {
    let mut db = Store::new();
    let alliance = AllianceRow {
        alliance_id: 1,
        faction_id: None,
        name: "A".to_string(),
        ticker: "T".to_string(),
    };
    db.insert_alliances_if_not_present(&vec![alliance.clone(), alliance.clone()]);
    assert_eq!(db.alliances.len(), 1);

    let character = CharacterRow {
        character_id: 7,
        alliance_id: None,
        character_name: "Pilot".to_string(),
        birthday: None,
        corporation_id: 1,
        faction_id: None,
        last_updated: None,
    };
    db.insert_pubchars_if_not_present(&vec![character.clone(), character.clone()]);
    assert_eq!(db.characters.len(), 1);

    let corporation = CorporationRow {
        corporation_id: 1,
        alliance_id: None,
        faction_id: None,
        member_count: None,
        name: "C".to_string(),
        ticker: "CT".to_string(),
        war_eligible: None,
    };
    db.insert_corporations_if_not_present(&vec![corporation.clone(), corporation]);
    assert_eq!(db.corporations.len(), 1);

    let faction = FactionRow {
        faction_id: 3,
        corporation_id: None,
        militia_corporation_id: None,
        name: "F".to_string(),
    };
    db.insert_if_not_present_factions(&vec![faction.clone(), faction]);
    assert_eq!(db.factions.len(), 1);

    let category = EsiCategoryRow { category_id: 4, category_name: "Cat".to_string() };
    db.insert_if_not_present_categories(&vec![category.clone(), category]);
    assert_eq!(db.esi_categories.len(), 1);

    let group = EsiGroupRow { group_id: 5, group_name: "G".to_string(), category_id: 4 };
    db.insert_if_not_present_groups(&vec![group.clone(), group]);
    assert_eq!(db.esi_groups.len(), 1);

    let esi_type = EsiTypeRow {
        type_id: 6,
        description: "d".to_string(),
        group_id: 5,
        name_of_type: "N".to_string(),
        mass_bits: None,
    };
    db.insert_if_not_present_types(&vec![esi_type.clone(), esi_type]);
    assert_eq!(db.esi_types.len(), 1);
}

#[test]
fn processing_error_wrappers() {
    assert!(matches!(
        ProcessingError::from_esi(EsiError::Parse),
        ProcessingError::ESIError(EsiError::Parse)
    ));
    assert!(matches!(
        ProcessingError::from_db(DbError::Transient),
        ProcessingError::DBError(DbError::Transient)
    ));
}

#[test]
fn character_name_accessor() {
    let c = Character {
        name: "Alice".to_string(),
        valid: true,
        in_progress: false,
        is_found: true,
        stats: None,
    };
    assert_eq!(c.get_name(), "Alice");
}

#[test]
fn value_unwrap_error_carries_its_message() {
    let e = jager::database::ValueUnwrapError::new("bad key".to_string());
    assert_eq!(e.message, "bad key");
}

#[test]
fn database_error_union_wraps_both_kinds() {
    assert!(matches!(
        JagerDatabaseError::from_db(DbError::DuplicateEntry),
        JagerDatabaseError::DBError(DbError::DuplicateEntry)
    ));
    let wrapped = JagerDatabaseError::from_unwrap(jager::database::ValueUnwrapError::new(
        "no key".to_string(),
    ));
    assert!(matches!(wrapped, JagerDatabaseError::ValueUnwrapError(e) if e.message == "no key"));
}
