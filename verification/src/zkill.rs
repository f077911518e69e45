//! The historical killmail index.
//!
//! The index serves, for each calendar day, a JSON object mapping killmail
//! ids (as decimal text) to their verification hashes. This module builds the
//! per-day request URLs over a date range, decodes an index body into
//! killmail references, and concatenates the days of a harvest, skipping the
//! days whose fetch failed.

use vstd::prelude::*;

use crate::esi_models::ESIKillmailRequest;

verus! {

/// An index failure: a transport failure, or a body that is not an index
/// object.
#[derive(Clone, Copy, PartialEq, Eq, Structural, Debug)]
pub enum ZKillError {
    APIError,
    Parse,
}

/// The view of an optional text value.
pub open spec fn opt_string_view(o: Option<String>) -> Option<Seq<char>> {
    match o {
        Some(s) => Some(s@),
        None => None,
    }
}

/// The eight-digit (year, month, day) text of a day number counted from the
/// first day of the common era, or `None` for a day outside the calendar's
/// range. Named here; the calendar arithmetic itself is the date library's.
pub uninterp spec fn yyyymmdd_of(days_from_ce: int) -> Option<Seq<char>>;

/// Relies on chrono's `NaiveDate::from_num_days_from_ce_opt` and
/// `NaiveDate::format` with `"%Y%m%d"`: the date text of a day number, which
/// depends on the day number alone; `None` exactly when the day number lies
/// outside chrono's date range.
#[verifier::external_body]
fn format_history_date(days_from_ce: i32) -> (r: Option<String>)
    ensures
        opt_string_view(r) == yyyymmdd_of(days_from_ce as int),
{
    match chrono::NaiveDate::from_num_days_from_ce_opt(days_from_ce) {
        Some(d) => Some(d.format("%Y%m%d").to_string()),
        None => None,
    }
}

/// The request URL of an index path.
pub open spec fn zkill_url_of(path: Seq<char>) -> Seq<char> {
    "https://zkillboard.com/api/"@ + path
}

/// Builds the request URL of an index path.
pub fn get_url(path: String) -> (r: String)
    ensures
        r@ == zkill_url_of(path@),
{
    let mut s = String::from_str("https://zkillboard.com/api/");
    s.append(path.as_str());
    proof {
        assert(s@ =~= zkill_url_of(path@));
    }
    s
}

/// Builds the history URL of one day: the date text between the history
/// prefix and the JSON suffix.
pub fn history_url(days_from_ce: i32) -> (r: Option<String>)
    ensures
        r is Some <==> yyyymmdd_of(days_from_ce as int) is Some,
        r matches Some(u) ==> u@ == zkill_url_of(
            "history/"@ + yyyymmdd_of(days_from_ce as int)->0 + ".json"@,
        ),
{
    match format_history_date(days_from_ce) {
        Some(stamp) => {
            let mut path = String::from_str("history/");
            path.append(stamp.as_str());
            path.append(".json");
            proof {
                assert(path@ =~= "history/"@ + yyyymmdd_of(days_from_ce as int)->0 + ".json"@);
            }
            Some(get_url(path))
        },
        None => None,
    }
}

/// The days of a harvest range: the start day followed by the days before
/// it, one per day to fetch.
pub fn get_dates(start_date: i32, days_to_fetch: u64) -> (r: Vec<i32>)
    requires
        days_to_fetch < 0x8000_0000,
        days_to_fetch >= 1 ==> start_date as int - (days_to_fetch as int - 1) >= i32::MIN,
    ensures
        days_to_fetch == 0 ==> r@ =~= seq![start_date],
        days_to_fetch >= 1 ==> r@.len() == days_to_fetch && (forall|k: int|
            0 <= k < days_to_fetch ==> r@[k] == start_date - k),
{
    let mut dates: Vec<i32> = Vec::new();
    dates.push(start_date);
    let mut days: u64 = 1;
    while days < days_to_fetch
        invariant
            1 <= days,
            days_to_fetch >= 1 ==> days <= days_to_fetch,
            days_to_fetch == 0 ==> days == 1,
            days_to_fetch < 0x8000_0000,
            days_to_fetch >= 1 ==> start_date as int - (days_to_fetch as int - 1) >= i32::MIN,
            dates@.len() == days,
            forall|k: int| 0 <= k < days ==> dates@[k] == start_date - k,
        decreases days_to_fetch - days,
    {
        let new_date = start_date - (days as i32);
        dates.push(new_date);
        days = days + 1;
    }
    dates
}

/// The id-to-hash pairs of a history index body, in the decoded object's key
/// order, or `None` when the body is not a JSON object whose values are all
/// strings. Named here; the JSON grammar is the decoder's.
pub uninterp spec fn history_pairs_of(body: Seq<char>) -> Option<Seq<(Seq<char>, Seq<char>)>>;

/// The view of a decoded pair list.
pub open spec fn history_pairs_view(r: Option<Vec<(String, String)>>) -> Option<
    Seq<(Seq<char>, Seq<char>)>,
> {
    match r {
        Some(v) => Some(v@.map_values(|p: (String, String)| (p.0@, p.1@))),
        None => None,
    }
}

/// Relies on serde_json's `from_str` for `Map<String, Value>` (an ordered
/// map) and `Value::as_str`: the id-to-hash pairs of an index body, which
/// depend on the body text alone; `None` when the body is not an object of
/// string values.
#[verifier::external_body]
fn parse_history_pairs(body: &str) -> (r: Option<Vec<(String, String)>>)
    ensures
        history_pairs_view(r) == history_pairs_of(body@),
{
    let map: serde_json::Map<String, serde_json::Value> = match serde_json::from_str(body) {
        Ok(m) => m,
        Err(_) => return None,
    };
    let mut pairs: Vec<(String, String)> = Vec::new();
    for (k, v) in map {
        match v.as_str() {
            Some(h) => pairs.push((k, h.to_string())),
            None => return None,
        }
    }
    Some(pairs)
}

/// Decodes one day's index body into killmail references, id and hash each.
pub fn get_killmail_requests_from_date(body: &str) -> (r: Result<Vec<ESIKillmailRequest>, ZKillError>)
    ensures
        r is Ok <==> history_pairs_of(body@) is Some,
        r matches Ok(v) ==> {
            let ps = history_pairs_of(body@)->0;
            &&& v@.len() == ps.len()
            &&& forall|j: int|
                0 <= j < ps.len() ==> (#[trigger] v@[j]).id@ == ps[j].0 && v@[j].hash@ == ps[j].1
        },
        r matches Err(e) ==> e == ZKillError::Parse,
{
    let pairs = match parse_history_pairs(body) {
        Some(p) => p,
        None => {
            return Err(ZKillError::Parse);
        },
    };
    let ghost ps = history_pairs_of(body@)->0;
    proof {
        assert(ps == pairs@.map_values(|p: (String, String)| (p.0@, p.1@)));
    }
    let n = pairs.len();
    let mut requests: Vec<ESIKillmailRequest> = Vec::new();
    let mut i: usize = 0;
    while i < n
        invariant
            0 <= i <= n == pairs@.len(),
            ps == pairs@.map_values(|p: (String, String)| (p.0@, p.1@)),
            requests@.len() == i,
            forall|j: int|
                0 <= j < i ==> (#[trigger] requests@[j]).id@ == ps[j].0 && requests@[j].hash@
                    == ps[j].1,
        decreases n - i,
    {
        let entry = &pairs[i];
        requests.push(ESIKillmailRequest { id: entry.0.clone(), hash: entry.1.clone() });
        i = i + 1;
    }
    Ok(requests)
}

/// Whether two killmail references agree, comparing text by view.
pub open spec fn request_like(a: ESIKillmailRequest, b: ESIKillmailRequest) -> bool {
    a.id@ == b.id@ && a.hash@ == b.hash@
}

/// The references of the days whose fetch and decode succeeded, concatenated
/// in day order.
pub open spec fn ok_records(s: Seq<Result<Vec<ESIKillmailRequest>, ZKillError>>) -> Seq<
    ESIKillmailRequest,
>
    decreases s.len(),
{
    if s.len() == 0 {
        Seq::empty()
    } else {
        let init = ok_records(s.drop_last());
        match s.last() {
            Ok(recs) => init + recs@,
            Err(_) => init,
        }
    }
}

/// Concatenates the days of a harvest, skipping the days whose fetch or
/// decode failed: the bulk backlog is fail-soft.
pub fn get_history_records(daily: &Vec<Result<Vec<ESIKillmailRequest>, ZKillError>>) -> (r: Vec<
    ESIKillmailRequest,
>)
    ensures
        r@.len() == ok_records(daily@).len(),
        forall|j: int|
            0 <= j < r@.len() ==> request_like(#[trigger] r@[j], ok_records(daily@)[j]),
{
    let n = daily.len();
    let mut records: Vec<ESIKillmailRequest> = Vec::new();
    let mut i: usize = 0;
    proof {
        assert(daily@.take(0) =~= Seq::<Result<Vec<ESIKillmailRequest>, ZKillError>>::empty());
    }
    while i < n
        invariant
            0 <= i <= n == daily@.len(),
            records@.len() == ok_records(daily@.take(i as int)).len(),
            forall|j: int|
                0 <= j < records@.len() ==> request_like(
                    #[trigger] records@[j],
                    ok_records(daily@.take(i as int))[j],
                ),
        decreases n - i,
    {
        proof {
            assert(daily@.take(i as int + 1).drop_last() =~= daily@.take(i as int));
        }
        match &daily[i] {
            Ok(recs) => {
                let m = recs.len();
                let ghost base = records@.len();
                let mut k: usize = 0;
                while k < m
                    invariant
                        0 <= k <= m == recs@.len(),
                        base == ok_records(daily@.take(i as int)).len(),
                        records@.len() == base + k,
                        daily@.len() == n,
                        0 <= i < n,
                        daily@[i as int] matches Ok(rr) && rr@ == recs@,
                        forall|j: int|
                            0 <= j < base ==> request_like(
                                #[trigger] records@[j],
                                ok_records(daily@.take(i as int))[j],
                            ),
                        forall|j: int|
                            0 <= j < k ==> request_like(
                                #[trigger] records@[base + j],
                                recs@[j],
                            ),
                    decreases m - k,
                {
                    let entry = &recs[k];
                    records.push(
                        ESIKillmailRequest { id: entry.id.clone(), hash: entry.hash.clone() },
                    );
                    k = k + 1;
                }
                proof {
                    assert(ok_records(daily@.take(i as int + 1)) =~= ok_records(
                        daily@.take(i as int),
                    ) + recs@);
                    assert forall|j: int|
                        0 <= j < records@.len() implies request_like(
                        #[trigger] records@[j],
                        ok_records(daily@.take(i as int + 1))[j],
                    ) by {
                        if j >= base {
                            assert(request_like(records@[base + (j - base)], recs@[j - base]));
                            assert(ok_records(daily@.take(i as int + 1))[j] == recs@[j - base]);
                        }
                    }
                }
            },
            Err(_) => {},
        }
        i = i + 1;
    }
    proof {
        assert(daily@.take(n as int) =~= daily@);
    }
    records
}

} // verus!
