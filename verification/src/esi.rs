//! The remote metadata API model and the entity fetchers.
//!
//! The remote service is modelled as tables of responses keyed by id: an
//! entry with a body is a well-formed response, an entry whose body is `None`
//! is a response that does not match the entity's schema (a parse failure,
//! which is never retried), and a missing entry is a transport failure.
//! Fetchers look an id up and convert the body into a store row; batched
//! fetchers stop at the first failure.

use vstd::prelude::*;

use crate::entity::{AllianceRow, CharacterRow, CorporationRow};
use crate::esi_models::{
    alliance_row_like, character_row_like, corporation_row_like, esi_category_like,
    esi_faction_like, esi_group_like, esi_killmail_like, esi_type_like, ESIAlliance, ESICategory,
    ESICorporation, ESIFaction, ESIGroup, ESIKillmail, ESIKillmailRequest, ESIType,
    EsiCharacterPublicInfo,
};
use crate::retry::RETRY_COUNT;
use crate::strutil::{dec_str, dec_val, all_dec_digits};

verus! {

/// A fetch failure: a transport or status failure (`ApiError`), which is
/// retryable, or a response that does not match the expected schema
/// (`Parse`), which signals schema drift and is not retried.
#[derive(Clone, Copy, PartialEq, Eq, Structural, Debug)]
pub enum EsiError {
    ApiError,
    Parse,
}

/// One scripted outcome of a raw text fetch attempt.
pub enum FetchAttempt {
    Body(String),
    ApiFail,
}

/// The first index below `n` at which a scripted run of fetch attempts
/// returns a body, or `None` when the first `n` attempts all fail.
pub open spec fn first_body(s: Seq<FetchAttempt>, n: int) -> Option<int>
    decreases n,
{
    if n <= 0 {
        None
    } else if first_body(s, n - 1) is Some {
        first_body(s, n - 1)
    } else if s[n - 1] is Body {
        Some(n - 1)
    } else {
        None
    }
}

/// Runs one text fetch against a script of attempt outcomes under the retry
/// policy: the first body is returned after exactly as many attempts as
/// precede it, and a script of nothing but failures is abandoned after
/// exactly `RETRY_COUNT` attempts.
pub fn get_text_retry(outcomes: &Vec<FetchAttempt>) -> (r: (Result<String, EsiError>, usize))
    requires
        outcomes@.len() >= RETRY_COUNT,
    ensures
        match first_body(outcomes@, RETRY_COUNT as int) {
            Some(k) => {
                &&& r.0 matches Ok(body) && body@ == outcomes@[k]->Body_0@
                &&& r.1 == k + 1
            },
            None => r.0 == Result::<String, EsiError>::Err(EsiError::ApiError) && r.1
                == RETRY_COUNT,
        },
{
    let mut i: usize = 0;
    while i < RETRY_COUNT as usize
        invariant
            0 <= i <= RETRY_COUNT,
            outcomes@.len() >= RETRY_COUNT,
            first_body(outcomes@, i as int) is None,
        decreases RETRY_COUNT - i,
    {
        match &outcomes[i] {
            FetchAttempt::Body(body) => {
                proof {
                    assert(first_body(outcomes@, i as int + 1) == Some(i as int));
                    lemma_first_body_frozen(outcomes@, i as int + 1, RETRY_COUNT as int);
                }
                return (Ok(body.clone()), i + 1);
            },
            FetchAttempt::ApiFail => {},
        }
        i = i + 1;
    }
    (Err(EsiError::ApiError), RETRY_COUNT as usize)
}

/// Once a body index is found, scanning further does not change it.
proof fn lemma_first_body_frozen(s: Seq<FetchAttempt>, m: int, n: int)
    requires
        0 < m <= n,
        first_body(s, m) is Some,
    ensures
        first_body(s, n) == first_body(s, m),
    decreases n - m,
{
    if m < n {
        lemma_first_body_frozen(s, m, n - 1);
    }
}

/// The remote metadata API: per-kind response tables keyed by id. A `None`
/// body models a response that fails to deserialize.
pub struct Remote {
    pub characters: Vec<(u64, Option<EsiCharacterPublicInfo>)>,
    pub alliances: Vec<(u64, Option<ESIAlliance>)>,
    pub corporations: Vec<(u64, Option<ESICorporation>)>,
    pub factions: Vec<ESIFaction>,
    pub killmails: Vec<(ESIKillmailRequest, Option<ESIKillmail>)>,
    pub categories: Vec<(u64, Option<ESICategory>)>,
    pub groups: Vec<(u64, Option<ESIGroup>)>,
    pub item_types: Vec<(u64, Option<ESIType>)>,
}

impl Remote {
    /// A remote with no known entities: every fetch fails.
    pub fn new() -> (r: Remote)
        ensures
            r.characters@.len() == 0,
            r.alliances@.len() == 0,
            r.corporations@.len() == 0,
            r.factions@.len() == 0,
            r.killmails@.len() == 0,
            r.categories@.len() == 0,
            r.groups@.len() == 0,
            r.item_types@.len() == 0,
    {
        Remote {
            characters: Vec::new(),
            alliances: Vec::new(),
            corporations: Vec::new(),
            factions: Vec::new(),
            killmails: Vec::new(),
            categories: Vec::new(),
            groups: Vec::new(),
            item_types: Vec::new(),
        }
    }
}

/// The first entry of an id-keyed response table with the given id.
pub open spec fn assoc<T>(s: Seq<(u64, T)>, id: u64) -> Option<T>
    decreases s.len(),
{
    if s.len() == 0 {
        None
    } else if s[0].0 == id {
        Some(s[0].1)
    } else {
        assoc(s.drop_first(), id)
    }
}

/// What a response-table lookup yields as a fetch result.
pub open spec fn fetch_result<T>(l: Option<Option<T>>) -> Result<T, EsiError> {
    match l {
        Some(Some(body)) => Ok(body),
        Some(None) => Err(EsiError::Parse),
        None => Err(EsiError::ApiError),
    }
}

/// The result of fetching a character by id.
pub open spec fn fetch_character_spec(rem: Remote, id: u64) -> Result<
    EsiCharacterPublicInfo,
    EsiError,
> {
    fetch_result(assoc(rem.characters@, id))
}

/// The result of fetching an alliance by id.
pub open spec fn fetch_alliance_spec(rem: Remote, id: u64) -> Result<ESIAlliance, EsiError> {
    fetch_result(assoc(rem.alliances@, id))
}

/// The result of fetching a corporation by id.
pub open spec fn fetch_corporation_spec(rem: Remote, id: u64) -> Result<ESICorporation, EsiError> {
    fetch_result(assoc(rem.corporations@, id))
}

/// The result of fetching a category by id.
pub open spec fn fetch_category_spec(rem: Remote, id: u64) -> Result<ESICategory, EsiError> {
    fetch_result(assoc(rem.categories@, id))
}

/// The result of fetching a group by id.
pub open spec fn fetch_group_spec(rem: Remote, id: u64) -> Result<ESIGroup, EsiError> {
    fetch_result(assoc(rem.groups@, id))
}

/// The result of fetching an item type by id.
pub open spec fn fetch_type_spec(rem: Remote, id: u64) -> Result<ESIType, EsiError> {
    fetch_result(assoc(rem.item_types@, id))
}

/// The first killmail response entry matching an id and hash.
pub open spec fn lookup_killmail(
    s: Seq<(ESIKillmailRequest, Option<ESIKillmail>)>,
    id: Seq<char>,
    hash: Seq<char>,
) -> Option<Option<ESIKillmail>>
    decreases s.len(),
{
    if s.len() == 0 {
        None
    } else if s[0].0.id@ == id && s[0].0.hash@ == hash {
        Some(s[0].1)
    } else {
        lookup_killmail(s.drop_first(), id, hash)
    }
}

/// The result of fetching a killmail by id and hash.
pub open spec fn fetch_killmail_spec(rem: Remote, id: Seq<char>, hash: Seq<char>) -> Result<
    ESIKillmail,
    EsiError,
> {
    fetch_result(lookup_killmail(rem.killmails@, id, hash))
}

/// Fetches a character's public information and converts it into its row.
pub fn get_character(remote: &Remote, character_id: u64) -> (r: Result<CharacterRow, EsiError>)
    ensures
        r is Ok <==> fetch_character_spec(*remote, character_id) is Ok,
        r matches Ok(row) ==> character_row_like(
            row,
            character_id,
            fetch_character_spec(*remote, character_id)->Ok_0,
        ),
        r matches Err(e) ==> e == fetch_character_spec(*remote, character_id)->Err_0,
{
    let n = remote.characters.len();
    let mut i: usize = 0;
    proof {
        assert(remote.characters@.skip(0) =~= remote.characters@);
    }
    while i < n
        invariant
            0 <= i <= n == remote.characters@.len(),
            assoc(remote.characters@.skip(i as int), character_id) == assoc(
                remote.characters@,
                character_id,
            ),
        decreases n - i,
    {
        proof {
            assert(remote.characters@.skip(i as int)[0] == remote.characters@[i as int]);
            assert(remote.characters@.skip(i as int).drop_first() =~= remote.characters@.skip(
                i as int + 1,
            ));
        }
        let entry = &remote.characters[i];
        if entry.0 == character_id {
            return match &entry.1 {
                Some(info) => Ok(CharacterRow::from_esi(character_id, info)),
                None => Err(EsiError::Parse),
            };
        }
        i = i + 1;
    }
    proof {
        assert(remote.characters@.skip(n as int) =~= Seq::<(u64, Option<EsiCharacterPublicInfo>)>::empty());
    }
    Err(EsiError::ApiError)
}

/// Fetches an alliance and converts it into its row.
pub fn get_alliance(remote: &Remote, alliance_id: u64) -> (r: Result<AllianceRow, EsiError>)
    ensures
        r is Ok <==> fetch_alliance_spec(*remote, alliance_id) is Ok,
        r matches Ok(row) ==> alliance_row_like(
            row,
            alliance_id,
            fetch_alliance_spec(*remote, alliance_id)->Ok_0,
        ),
        r matches Err(e) ==> e == fetch_alliance_spec(*remote, alliance_id)->Err_0,
{
    let n = remote.alliances.len();
    let mut i: usize = 0;
    proof {
        assert(remote.alliances@.skip(0) =~= remote.alliances@);
    }
    while i < n
        invariant
            0 <= i <= n == remote.alliances@.len(),
            assoc(remote.alliances@.skip(i as int), alliance_id) == assoc(
                remote.alliances@,
                alliance_id,
            ),
        decreases n - i,
    {
        proof {
            assert(remote.alliances@.skip(i as int)[0] == remote.alliances@[i as int]);
            assert(remote.alliances@.skip(i as int).drop_first() =~= remote.alliances@.skip(
                i as int + 1,
            ));
        }
        let entry = &remote.alliances[i];
        if entry.0 == alliance_id {
            return match &entry.1 {
                Some(body) => Ok(
                    AllianceRow {
                        alliance_id,
                        faction_id: body.faction_id,
                        name: body.name.clone(),
                        ticker: body.ticker.clone(),
                    },
                ),
                None => Err(EsiError::Parse),
            };
        }
        i = i + 1;
    }
    proof {
        assert(remote.alliances@.skip(n as int) =~= Seq::<(u64, Option<ESIAlliance>)>::empty());
    }
    Err(EsiError::ApiError)
}

/// Fetches a corporation and converts it into its row.
pub fn get_corporation(remote: &Remote, corporation_id: u64) -> (r: Result<
    CorporationRow,
    EsiError,
>)
    ensures
        r is Ok <==> fetch_corporation_spec(*remote, corporation_id) is Ok,
        r matches Ok(row) ==> corporation_row_like(
            row,
            corporation_id,
            fetch_corporation_spec(*remote, corporation_id)->Ok_0,
        ),
        r matches Err(e) ==> e == fetch_corporation_spec(*remote, corporation_id)->Err_0,
{
    let n = remote.corporations.len();
    let mut i: usize = 0;
    proof {
        assert(remote.corporations@.skip(0) =~= remote.corporations@);
    }
    while i < n
        invariant
            0 <= i <= n == remote.corporations@.len(),
            assoc(remote.corporations@.skip(i as int), corporation_id) == assoc(
                remote.corporations@,
                corporation_id,
            ),
        decreases n - i,
    {
        proof {
            assert(remote.corporations@.skip(i as int)[0] == remote.corporations@[i as int]);
            assert(remote.corporations@.skip(i as int).drop_first() =~= remote.corporations@.skip(
                i as int + 1,
            ));
        }
        let entry = &remote.corporations[i];
        if entry.0 == corporation_id {
            return match &entry.1 {
                Some(body) => Ok(
                    CorporationRow {
                        corporation_id,
                        alliance_id: body.alliance_id,
                        faction_id: body.faction_id,
                        member_count: body.member_count,
                        name: body.name.clone(),
                        ticker: body.ticker.clone(),
                        war_eligible: body.war_eligible,
                    },
                ),
                None => Err(EsiError::Parse),
            };
        }
        i = i + 1;
    }
    proof {
        assert(remote.corporations@.skip(n as int) =~= Seq::<(u64, Option<ESICorporation>)>::empty());
    }
    Err(EsiError::ApiError)
}

/// Fetches many characters, stopping at the first failure.
pub fn get_characters(remote: &Remote, character_ids: &Vec<u64>) -> (r: Result<
    Vec<CharacterRow>,
    EsiError,
>)
    ensures
        r is Ok <==> (forall|j: int|
            0 <= j < character_ids@.len() ==> fetch_character_spec(
                *remote,
                #[trigger] character_ids@[j],
            ) is Ok),
        r matches Ok(v) ==> v@.len() == character_ids@.len() && (forall|j: int|
            0 <= j < character_ids@.len() ==> character_row_like(
                #[trigger] v@[j],
                character_ids@[j],
                fetch_character_spec(*remote, character_ids@[j])->Ok_0,
            )),
        r matches Err(e) ==> exists|j: int|
            0 <= j < character_ids@.len() && fetch_character_spec(
                *remote,
                #[trigger] character_ids@[j],
            ) == Result::<EsiCharacterPublicInfo, EsiError>::Err(e),
{
    let n = character_ids.len();
    let mut results: Vec<CharacterRow> = Vec::new();
    let mut j: usize = 0;
    while j < n
        invariant
            0 <= j <= n == character_ids@.len(),
            results@.len() == j,
            forall|k: int|
                0 <= k < j ==> fetch_character_spec(*remote, #[trigger] character_ids@[k]) is Ok,
            forall|k: int|
                0 <= k < j ==> character_row_like(
                    #[trigger] results@[k],
                    character_ids@[k],
                    fetch_character_spec(*remote, character_ids@[k])->Ok_0,
                ),
        decreases n - j,
    {
        match get_character(remote, character_ids[j]) {
            Ok(row) => results.push(row),
            Err(e) => {
                return Err(e);
            },
        }
        j = j + 1;
    }
    Ok(results)
}

/// Fetches many alliances, stopping at the first failure.
pub fn get_alliances(remote: &Remote, alliance_ids: &Vec<u64>) -> (r: Result<
    Vec<AllianceRow>,
    EsiError,
>)
    ensures
        r is Ok <==> (forall|j: int|
            0 <= j < alliance_ids@.len() ==> fetch_alliance_spec(
                *remote,
                #[trigger] alliance_ids@[j],
            ) is Ok),
        r matches Ok(v) ==> v@.len() == alliance_ids@.len() && (forall|j: int|
            0 <= j < alliance_ids@.len() ==> alliance_row_like(
                #[trigger] v@[j],
                alliance_ids@[j],
                fetch_alliance_spec(*remote, alliance_ids@[j])->Ok_0,
            )),
        r matches Err(e) ==> exists|j: int|
            0 <= j < alliance_ids@.len() && fetch_alliance_spec(
                *remote,
                #[trigger] alliance_ids@[j],
            ) == Result::<ESIAlliance, EsiError>::Err(e),
{
    let n = alliance_ids.len();
    let mut results: Vec<AllianceRow> = Vec::new();
    let mut j: usize = 0;
    while j < n
        invariant
            0 <= j <= n == alliance_ids@.len(),
            results@.len() == j,
            forall|k: int|
                0 <= k < j ==> fetch_alliance_spec(*remote, #[trigger] alliance_ids@[k]) is Ok,
            forall|k: int|
                0 <= k < j ==> alliance_row_like(
                    #[trigger] results@[k],
                    alliance_ids@[k],
                    fetch_alliance_spec(*remote, alliance_ids@[k])->Ok_0,
                ),
        decreases n - j,
    {
        match get_alliance(remote, alliance_ids[j]) {
            Ok(row) => results.push(row),
            Err(e) => {
                return Err(e);
            },
        }
        j = j + 1;
    }
    Ok(results)
}

/// Fetches many corporations, stopping at the first failure.
pub fn get_corporations(remote: &Remote, corporation_ids: &Vec<u64>) -> (r: Result<
    Vec<CorporationRow>,
    EsiError,
>)
    ensures
        r is Ok <==> (forall|j: int|
            0 <= j < corporation_ids@.len() ==> fetch_corporation_spec(
                *remote,
                #[trigger] corporation_ids@[j],
            ) is Ok),
        r matches Ok(v) ==> v@.len() == corporation_ids@.len() && (forall|j: int|
            0 <= j < corporation_ids@.len() ==> corporation_row_like(
                #[trigger] v@[j],
                corporation_ids@[j],
                fetch_corporation_spec(*remote, corporation_ids@[j])->Ok_0,
            )),
        r matches Err(e) ==> exists|j: int|
            0 <= j < corporation_ids@.len() && fetch_corporation_spec(
                *remote,
                #[trigger] corporation_ids@[j],
            ) == Result::<ESICorporation, EsiError>::Err(e),
{
    let n = corporation_ids.len();
    let mut results: Vec<CorporationRow> = Vec::new();
    let mut j: usize = 0;
    while j < n
        invariant
            0 <= j <= n == corporation_ids@.len(),
            results@.len() == j,
            forall|k: int|
                0 <= k < j ==> fetch_corporation_spec(
                    *remote,
                    #[trigger] corporation_ids@[k],
                ) is Ok,
            forall|k: int|
                0 <= k < j ==> corporation_row_like(
                    #[trigger] results@[k],
                    corporation_ids@[k],
                    fetch_corporation_spec(*remote, corporation_ids@[k])->Ok_0,
                ),
        decreases n - j,
    {
        match get_corporation(remote, corporation_ids[j]) {
            Ok(row) => results.push(row),
            Err(e) => {
                return Err(e);
            },
        }
        j = j + 1;
    }
    Ok(results)
}

/// Fetches a full killmail payload by its id and verification hash.
pub fn get_killmail(remote: &Remote, req: &ESIKillmailRequest) -> (r: Result<ESIKillmail, EsiError>)
    ensures
        r is Ok <==> fetch_killmail_spec(*remote, req.id@, req.hash@) is Ok,
        r matches Ok(km) ==> esi_killmail_like(
            km,
            fetch_killmail_spec(*remote, req.id@, req.hash@)->Ok_0,
        ),
        r matches Err(e) ==> e == fetch_killmail_spec(*remote, req.id@, req.hash@)->Err_0,
{
    let n = remote.killmails.len();
    let mut i: usize = 0;
    proof {
        assert(remote.killmails@.skip(0) =~= remote.killmails@);
    }
    while i < n
        invariant
            0 <= i <= n == remote.killmails@.len(),
            lookup_killmail(remote.killmails@.skip(i as int), req.id@, req.hash@)
                == lookup_killmail(remote.killmails@, req.id@, req.hash@),
        decreases n - i,
    {
        proof {
            assert(remote.killmails@.skip(i as int)[0] == remote.killmails@[i as int]);
            assert(remote.killmails@.skip(i as int).drop_first() =~= remote.killmails@.skip(
                i as int + 1,
            ));
        }
        let entry = &remote.killmails[i];
        if entry.0.id == req.id && entry.0.hash == req.hash {
            return match &entry.1 {
                Some(km) => Ok(km.duplicate()),
                None => Err(EsiError::Parse),
            };
        }
        i = i + 1;
    }
    proof {
        assert(remote.killmails@.skip(n as int) =~= Seq::<
            (ESIKillmailRequest, Option<ESIKillmail>),
        >::empty());
    }
    Err(EsiError::ApiError)
}

/// Fetches the full faction list.
pub fn get_factions(remote: &Remote) -> (r: Result<Vec<ESIFaction>, EsiError>)
    ensures
        r matches Ok(v) ==> v@.len() == remote.factions@.len() && (forall|j: int|
            0 <= j < v@.len() ==> esi_faction_like(#[trigger] v@[j], remote.factions@[j])),
        r is Ok,
{
    let n = remote.factions.len();
    let mut results: Vec<ESIFaction> = Vec::new();
    let mut i: usize = 0;
    while i < n
        invariant
            0 <= i <= n == remote.factions@.len(),
            results@.len() == i,
            forall|j: int|
                0 <= j < i ==> esi_faction_like(#[trigger] results@[j], remote.factions@[j]),
        decreases n - i,
    {
        results.push(remote.factions[i].duplicate());
        i = i + 1;
    }
    Ok(results)
}

/// Fetches one category body.
fn fetch_category(remote: &Remote, id: u64) -> (r: Result<ESICategory, EsiError>)
    ensures
        r is Ok <==> fetch_category_spec(*remote, id) is Ok,
        r matches Ok(c) ==> esi_category_like(c, fetch_category_spec(*remote, id)->Ok_0),
{
    let n = remote.categories.len();
    let mut i: usize = 0;
    proof {
        assert(remote.categories@.skip(0) =~= remote.categories@);
    }
    while i < n
        invariant
            0 <= i <= n == remote.categories@.len(),
            assoc(remote.categories@.skip(i as int), id) == assoc(remote.categories@, id),
        decreases n - i,
    {
        proof {
            assert(remote.categories@.skip(i as int)[0] == remote.categories@[i as int]);
            assert(remote.categories@.skip(i as int).drop_first() =~= remote.categories@.skip(
                i as int + 1,
            ));
        }
        let entry = &remote.categories[i];
        if entry.0 == id {
            return match &entry.1 {
                Some(body) => Ok(body.duplicate()),
                None => Err(EsiError::Parse),
            };
        }
        i = i + 1;
    }
    proof {
        assert(remote.categories@.skip(n as int) =~= Seq::<(u64, Option<ESICategory>)>::empty());
    }
    Err(EsiError::ApiError)
}

/// Fetches one group body.
fn fetch_group(remote: &Remote, id: u64) -> (r: Result<ESIGroup, EsiError>)
    ensures
        r is Ok <==> fetch_group_spec(*remote, id) is Ok,
        r matches Ok(c) ==> esi_group_like(c, fetch_group_spec(*remote, id)->Ok_0),
{
    let n = remote.groups.len();
    let mut i: usize = 0;
    proof {
        assert(remote.groups@.skip(0) =~= remote.groups@);
    }
    while i < n
        invariant
            0 <= i <= n == remote.groups@.len(),
            assoc(remote.groups@.skip(i as int), id) == assoc(remote.groups@, id),
        decreases n - i,
    {
        proof {
            assert(remote.groups@.skip(i as int)[0] == remote.groups@[i as int]);
            assert(remote.groups@.skip(i as int).drop_first() =~= remote.groups@.skip(
                i as int + 1,
            ));
        }
        let entry = &remote.groups[i];
        if entry.0 == id {
            return match &entry.1 {
                Some(body) => Ok(body.duplicate()),
                None => Err(EsiError::Parse),
            };
        }
        i = i + 1;
    }
    proof {
        assert(remote.groups@.skip(n as int) =~= Seq::<(u64, Option<ESIGroup>)>::empty());
    }
    Err(EsiError::ApiError)
}

/// Fetches one item-type body.
fn fetch_type(remote: &Remote, id: u64) -> (r: Result<ESIType, EsiError>)
    ensures
        r is Ok <==> fetch_type_spec(*remote, id) is Ok,
        r matches Ok(c) ==> esi_type_like(c, fetch_type_spec(*remote, id)->Ok_0),
{
    let n = remote.item_types.len();
    let mut i: usize = 0;
    proof {
        assert(remote.item_types@.skip(0) =~= remote.item_types@);
    }
    while i < n
        invariant
            0 <= i <= n == remote.item_types@.len(),
            assoc(remote.item_types@.skip(i as int), id) == assoc(remote.item_types@, id),
        decreases n - i,
    {
        proof {
            assert(remote.item_types@.skip(i as int)[0] == remote.item_types@[i as int]);
            assert(remote.item_types@.skip(i as int).drop_first() =~= remote.item_types@.skip(
                i as int + 1,
            ));
        }
        let entry = &remote.item_types[i];
        if entry.0 == id {
            return match &entry.1 {
                Some(body) => Ok(body.duplicate()),
                None => Err(EsiError::Parse),
            };
        }
        i = i + 1;
    }
    proof {
        assert(remote.item_types@.skip(n as int) =~= Seq::<(u64, Option<ESIType>)>::empty());
    }
    Err(EsiError::ApiError)
}

/// The category bodies among the given ids that fetch successfully, in id
/// order.
pub open spec fn ok_categories(rem: Remote, ids: Seq<u64>) -> Seq<ESICategory>
    decreases ids.len(),
{
    if ids.len() == 0 {
        Seq::empty()
    } else {
        let init = ok_categories(rem, ids.drop_last());
        match fetch_category_spec(rem, ids.last()) {
            Ok(c) => init.push(c),
            Err(_) => init,
        }
    }
}

/// The group bodies among the given ids that fetch successfully, in id order.
pub open spec fn ok_groups(rem: Remote, ids: Seq<u64>) -> Seq<ESIGroup>
    decreases ids.len(),
{
    if ids.len() == 0 {
        Seq::empty()
    } else {
        let init = ok_groups(rem, ids.drop_last());
        match fetch_group_spec(rem, ids.last()) {
            Ok(c) => init.push(c),
            Err(_) => init,
        }
    }
}

/// The type bodies among the given ids that fetch successfully, in id order.
pub open spec fn ok_types(rem: Remote, ids: Seq<u64>) -> Seq<ESIType>
    decreases ids.len(),
{
    if ids.len() == 0 {
        Seq::empty()
    } else {
        let init = ok_types(rem, ids.drop_last());
        match fetch_type_spec(rem, ids.last()) {
            Ok(c) => init.push(c),
            Err(_) => init,
        }
    }
}

/// Fetches many categories, skipping the ids whose fetch fails: the taxonomy
/// import is fail-soft.
pub fn get_esi_categories(remote: &Remote, category_ids: Vec<u64>) -> (r: Vec<ESICategory>)
    ensures
        r@.len() == ok_categories(*remote, category_ids@).len(),
        forall|j: int|
            0 <= j < r@.len() ==> esi_category_like(
                #[trigger] r@[j],
                ok_categories(*remote, category_ids@)[j],
            ),
{
    let n = category_ids.len();
    let mut results: Vec<ESICategory> = Vec::new();
    let mut i: usize = 0;
    while i < n
        invariant
            0 <= i <= n == category_ids@.len(),
            results@.len() == ok_categories(*remote, category_ids@.take(i as int)).len(),
            forall|j: int|
                0 <= j < results@.len() ==> esi_category_like(
                    #[trigger] results@[j],
                    ok_categories(*remote, category_ids@.take(i as int))[j],
                ),
        decreases n - i,
    {
        proof {
            assert(category_ids@.take(i as int + 1).drop_last() =~= category_ids@.take(i as int));
        }
        match fetch_category(remote, category_ids[i]) {
            Ok(body) => results.push(body),
            Err(_) => {},
        }
        i = i + 1;
    }
    proof {
        assert(category_ids@.take(n as int) =~= category_ids@);
    }
    results
}

/// Fetches many groups, skipping the ids whose fetch fails.
pub fn get_esi_groups(remote: &Remote, group_ids: Vec<u64>) -> (r: Vec<ESIGroup>)
    ensures
        r@.len() == ok_groups(*remote, group_ids@).len(),
        forall|j: int|
            0 <= j < r@.len() ==> esi_group_like(
                #[trigger] r@[j],
                ok_groups(*remote, group_ids@)[j],
            ),
{
    let n = group_ids.len();
    let mut results: Vec<ESIGroup> = Vec::new();
    let mut i: usize = 0;
    while i < n
        invariant
            0 <= i <= n == group_ids@.len(),
            results@.len() == ok_groups(*remote, group_ids@.take(i as int)).len(),
            forall|j: int|
                0 <= j < results@.len() ==> esi_group_like(
                    #[trigger] results@[j],
                    ok_groups(*remote, group_ids@.take(i as int))[j],
                ),
        decreases n - i,
    {
        proof {
            assert(group_ids@.take(i as int + 1).drop_last() =~= group_ids@.take(i as int));
        }
        match fetch_group(remote, group_ids[i]) {
            Ok(body) => results.push(body),
            Err(_) => {},
        }
        i = i + 1;
    }
    proof {
        assert(group_ids@.take(n as int) =~= group_ids@);
    }
    results
}

/// Fetches many item types, skipping the ids whose fetch fails.
pub fn get_esi_types(remote: &Remote, type_ids: Vec<u64>) -> (r: Vec<ESIType>)
    ensures
        r@.len() == ok_types(*remote, type_ids@).len(),
        forall|j: int|
            0 <= j < r@.len() ==> esi_type_like(#[trigger] r@[j], ok_types(*remote, type_ids@)[j]),
{
    let n = type_ids.len();
    let mut results: Vec<ESIType> = Vec::new();
    let mut i: usize = 0;
    while i < n
        invariant
            0 <= i <= n == type_ids@.len(),
            results@.len() == ok_types(*remote, type_ids@.take(i as int)).len(),
            forall|j: int|
                0 <= j < results@.len() ==> esi_type_like(
                    #[trigger] results@[j],
                    ok_types(*remote, type_ids@.take(i as int))[j],
                ),
        decreases n - i,
    {
        proof {
            assert(type_ids@.take(i as int + 1).drop_last() =~= type_ids@.take(i as int));
        }
        match fetch_type(remote, type_ids[i]) {
            Ok(body) => results.push(body),
            Err(_) => {},
        }
        i = i + 1;
    }
    proof {
        assert(type_ids@.take(n as int) =~= type_ids@);
    }
    results
}

/// The request URI of an endpoint path: the templated base, version and
/// datasource around it.
pub open spec fn esi_uri_of(path: Seq<char>) -> Seq<char> {
    "https://esi.evetech.net/latest/"@ + path + "/?datasource=tranquility"@
}

/// Builds the request URI of an endpoint path.
pub fn get_uri(path: String) -> (r: String)
    ensures
        r@ == esi_uri_of(path@),
{
    let mut s = String::from_str("https://esi.evetech.net/latest/");
    s.append(path.as_str());
    s.append("/?datasource=tranquility");
    proof {
        assert(s@ =~= esi_uri_of(path@));
    }
    s
}

/// The request URI of one page of a paginated list endpoint.
pub open spec fn page_url_of(path: Seq<char>, page: nat) -> Seq<char> {
    esi_uri_of(path) + "&page="@ + dec_str(page)
}

/// Builds the request URIs of the pages after the first, pages 2 up to and
/// including the reported last page.
pub fn page_urls(uri_path: &str, last_page: u64) -> (r: Vec<String>)
    requires
        1 <= last_page < u64::MAX,
    ensures
        r@.len() == last_page - 1,
        forall|k: int|
            0 <= k < r@.len() ==> (#[trigger] r@[k])@ == page_url_of(uri_path@, (k + 2) as nat),
{
    let mut urls: Vec<String> = Vec::new();
    let mut page: u64 = 2;
    while page <= last_page
        invariant
            last_page < u64::MAX,
            2 <= page <= last_page + 1,
            urls@.len() == page - 2,
            forall|k: int|
                0 <= k < urls@.len() ==> (#[trigger] urls@[k])@ == page_url_of(
                    uri_path@,
                    (k + 2) as nat,
                ),
        decreases last_page + 1 - page,
    {
        let mut u = get_uri(String::from_str(uri_path));
        u.append("&page=");
        let num = crate::strutil::u64_to_string(page);
        u.append(num.as_str());
        proof {
            assert(u@ =~= page_url_of(uri_path@, page as nat));
        }
        urls.push(u);
        page = page + 1;
    }
    urls
}

/// Reads the total page count from the page-count response header: a missing
/// header means a single page, and a header that is not a decimal number is
/// a schema mismatch.
pub fn parse_page_count(pages_header: Option<&str>) -> (r: Result<u64, EsiError>)
    ensures
        pages_header is None ==> r == Result::<u64, EsiError>::Ok(1u64),
        pages_header matches Some(h) ==> {
            if h@.len() > 0 && all_dec_digits(h@) && dec_val(h@) <= u64::MAX {
                r matches Ok(v) && v as nat == dec_val(h@)
            } else {
                r == Result::<u64, EsiError>::Err(EsiError::Parse)
            }
        },
{
    match pages_header {
        None => Ok(1),
        Some(h) => match crate::strutil::parse_u64(h) {
            Some(v) => Ok(v),
            None => Err(EsiError::Parse),
        },
    }
}

/// The concatenation of the result pages after the first.
pub open spec fn concat_bodies(pages: Seq<Vec<u64>>) -> Seq<u64>
    decreases pages.len(),
{
    if pages.len() == 0 {
        Seq::empty()
    } else {
        concat_bodies(pages.drop_last()) + pages.last()@
    }
}

/// Concatenates a paginated list endpoint's pages in arrival order: the
/// first page's ids followed by the ids of every later page.
pub fn get_paginated_esi_list_results(first_page: Vec<u64>, more_pages: &Vec<Vec<u64>>) -> (r: Vec<
    u64,
>)
    ensures
        r@ == first_page@ + concat_bodies(more_pages@),
{
    let mut results = first_page;
    let ghost first = results@;
    let n = more_pages.len();
    let mut j: usize = 0;
    proof {
        assert(results@ =~= first + concat_bodies(more_pages@.take(0)));
    }
    while j < n
        invariant
            0 <= j <= n == more_pages@.len(),
            results@ == first + concat_bodies(more_pages@.take(j as int)),
        decreases n - j,
    {
        let mut item = more_pages[j].clone();
        proof {
            assert(item@ =~= more_pages@[j as int]@);
            assert(more_pages@.take(j as int + 1).drop_last() =~= more_pages@.take(j as int));
        }
        results.append(&mut item);
        proof {
            assert(results@ =~= first + concat_bodies(more_pages@.take(j as int + 1)));
        }
        j = j + 1;
    }
    proof {
        assert(more_pages@.take(n as int) =~= more_pages@);
    }
    results
}

} // verus!
