use chrono::Datelike;
use jager::api::{index, not_found};
use jager::esi::{
    get_esi_categories, get_paginated_esi_list_results, get_uri, page_urls, parse_page_count,
    EsiError, Remote,
};
use jager::esi_models::ESICategory;
use jager::strutil::{parse_u64, u64_to_string};
use jager::zkill::{get_dates, get_history_records, get_killmail_requests_from_date, get_url, history_url, ZKillError};
use jager::esi_models::ESIKillmailRequest;

#[test]
fn decimal_rendering_is_exact() {
    assert_eq!(u64_to_string(0), "0");
    assert_eq!(u64_to_string(7), "7");
    assert_eq!(u64_to_string(90123), "90123");
    assert_eq!(u64_to_string(u64::MAX), "18446744073709551615");
}

#[test]
fn decimal_parsing_is_exact() {
    assert_eq!(parse_u64("0"), Some(0));
    assert_eq!(parse_u64("90123"), Some(90123));
    assert_eq!(parse_u64("18446744073709551615"), Some(u64::MAX));
    assert_eq!(parse_u64("18446744073709551616"), None);
    assert_eq!(parse_u64(""), None);
    assert_eq!(parse_u64("12a"), None);
    assert_eq!(parse_u64("-3"), None);
}

#[test]
fn esi_uri_is_templated() {
    assert_eq!(
        get_uri("characters/12345".to_string()),
        "https://esi.evetech.net/latest/characters/12345/?datasource=tranquility"
    );
}

#[test]
fn page_urls_cover_pages_after_the_first() {
    let urls = page_urls("universe/types", 3);
    assert_eq!(urls.len(), 2);
    assert_eq!(
        urls[0],
        "https://esi.evetech.net/latest/universe/types/?datasource=tranquility&page=2"
    );
    assert_eq!(
        urls[1],
        "https://esi.evetech.net/latest/universe/types/?datasource=tranquility&page=3"
    );
    assert_eq!(page_urls("universe/types", 1).len(), 0);
}

#[test]
fn page_count_header_is_parsed() {
    assert_eq!(parse_page_count(None), Ok(1));
    assert_eq!(parse_page_count(Some("3")), Ok(3));
    assert_eq!(parse_page_count(Some("not-a-number")), Err(EsiError::Parse));
}

#[test]
fn paginated_results_concatenate_in_arrival_order() {
    let first = vec![1u64, 2];
    let rest = vec![vec![3u64, 4], vec![], vec![5u64]];
    assert_eq!(get_paginated_esi_list_results(first, &rest), vec![1, 2, 3, 4, 5]);
}

#[test]
fn zkill_url_is_templated() {
    assert_eq!(get_url("history/20240101.json".to_string()), "https://zkillboard.com/api/history/20240101.json");
}

#[test]
fn history_url_renders_the_date() {
    let day = chrono::NaiveDate::from_ymd_opt(2024, 1, 1).unwrap().num_days_from_ce();
    assert_eq!(
        history_url(day).unwrap(),
        "https://zkillboard.com/api/history/20240101.json"
    );
    let other = chrono::NaiveDate::from_ymd_opt(1999, 12, 31).unwrap().num_days_from_ce();
    assert_eq!(
        history_url(other).unwrap(),
        "https://zkillboard.com/api/history/19991231.json"
    );
}

#[test]
fn harvest_dates_count_back_from_the_start() {
    let day = chrono::NaiveDate::from_ymd_opt(2024, 3, 10).unwrap().num_days_from_ce();
    let dates = get_dates(day, 3);
    assert_eq!(dates.len(), 3);
    assert_eq!(dates[0], day);
    assert_eq!(dates[1], day - 1);
    assert_eq!(dates[2], day - 2);
    assert_eq!(get_dates(day, 0), vec![day]);
}

#[test]
fn history_body_decodes_into_references() {
    let body = "{\"100\":\"hash-a\",\"99\":\"hash-b\"}";
    let requests = get_killmail_requests_from_date(body).unwrap();
    assert_eq!(requests.len(), 2);
    // The decoded object is key-ordered.
    assert_eq!(requests[0].id, "100");
    assert_eq!(requests[0].hash, "hash-a");
    assert_eq!(requests[1].id, "99");
    assert_eq!(requests[1].hash, "hash-b");
}

#[test]
fn malformed_history_body_is_a_parse_error() {
    assert_eq!(
        get_killmail_requests_from_date("[1, 2, 3]").map(|v| v.len()),
        Err(ZKillError::Parse)
    );
    assert_eq!(
        get_killmail_requests_from_date("{\"99\": 5}").map(|v| v.len()),
        Err(ZKillError::Parse)
    );
}

#[test]
fn history_records_skip_failed_days() {
    let day_a = vec![ESIKillmailRequest { id: "1".to_string(), hash: "a".to_string() }];
    let day_c = vec![ESIKillmailRequest { id: "2".to_string(), hash: "c".to_string() }];
    let daily = vec![Ok(day_a), Err(ZKillError::APIError), Ok(day_c)];
    let records = get_history_records(&daily);
    assert_eq!(records.len(), 2);
    assert_eq!(records[0].id, "1");
    assert_eq!(records[1].id, "2");
}

#[test]
fn taxonomy_fetch_is_fail_soft() {
    let mut remote = Remote::new();
    remote.categories.push((
        1,
        Some(ESICategory { category_id: 1, groups: vec![10, 11], name: "Ships".to_string() }),
    ));
    remote.categories.push((2, None));
    let categories = get_esi_categories(&remote, vec![1, 2, 3, 1]);
    assert_eq!(categories.len(), 2);
    assert_eq!(categories[0].name, "Ships");
    assert_eq!(categories[0].groups, vec![10, 11]);
    assert_eq!(categories[1].category_id, 1);
}

#[test]
fn fixed_responses_have_their_text() {
    assert_eq!(index(), "Hello, world!");
    assert_eq!(not_found().message, "The resource you were looking for doesn't exist");
}
