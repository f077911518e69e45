//! The entity resolution layer.
//!
//! Given a reference id appearing inside a killmail, resolution checks local
//! existence in the store and, only when absent, fetches the entity from the
//! remote API and writes it through the deduplicating writer. The batched
//! variants process a list of ids (duplicates retained and processed
//! redundantly) and are fail-fast: the first id that can be neither found nor
//! fetched aborts the batch, leaving the already-resolved prefix in place.
//!
//! The resolution predicates speak of one table at a time, so that the
//! normalizer can compose them: every resolution step leaves all other
//! tables untouched.

use vstd::prelude::*;

use crate::database::Store;
use crate::entity::{AllianceRow, CharacterRow, CorporationRow};
use crate::esi::{
    fetch_alliance_spec, fetch_character_spec, fetch_corporation_spec, get_alliance,
    get_character, get_corporation, Remote,
};
use crate::esi_models::{alliance_row_like, character_row_like, corporation_row_like};
use crate::killmail_processing::ProcessingError;

verus! {

/// The id list of one optional entity reference.
pub open spec fn opt_id_seq(o: Option<u64>) -> Seq<u64> {
    match o {
        Some(id) => seq![id],
        None => Seq::empty(),
    }
}

/// Whether an alliance table holds a row with this id.
pub open spec fn alliance_in(s: Seq<AllianceRow>, id: u64) -> bool {
    exists|i: int| 0 <= i < s.len() && s[i].alliance_id == id
}

/// Whether resolution of an alliance id is owed success: it is already stored,
/// or the remote API has a well-formed body for it.
pub open spec fn alliance_ensured(s: Seq<AllianceRow>, rem: Remote, id: u64) -> bool {
    alliance_in(s, id) || fetch_alliance_spec(rem, id) is Ok
}

/// The effect of resolving one alliance id on the alliances table: a stored id
/// leaves it unchanged; an absent one appends the fetched row.
pub open spec fn alliance_resolved_one(
    pre: Seq<AllianceRow>,
    rem: Remote,
    id: u64,
    post: Seq<AllianceRow>,
) -> bool {
    if alliance_in(pre, id) {
        post == pre
    } else {
        &&& fetch_alliance_spec(rem, id) is Ok
        &&& post.len() == pre.len() + 1
        &&& post.drop_last() == pre
        &&& alliance_row_like(post.last(), id, fetch_alliance_spec(rem, id)->Ok_0)
    }
}

/// The effect of resolving a list of alliance ids in order.
pub open spec fn alliances_resolved(
    pre: Seq<AllianceRow>,
    rem: Remote,
    ids: Seq<u64>,
    post: Seq<AllianceRow>,
) -> bool
    decreases ids.len(),
{
    if ids.len() == 0 {
        post == pre
    } else {
        exists|mid: Seq<AllianceRow>|
            alliances_resolved(pre, rem, ids.drop_last(), mid) && alliance_resolved_one(
                mid,
                rem,
                ids.last(),
                post,
            )
    }
}

/// The first index below `n` of an alliance id whose resolution is not owed
/// success, or `None` when the first `n` ids all are.
pub open spec fn first_unensured_alliance(
    pre: Seq<AllianceRow>,
    rem: Remote,
    ids: Seq<u64>,
    n: int,
) -> Option<int>
    decreases n,
{
    if n <= 0 {
        None
    } else if first_unensured_alliance(pre, rem, ids, n - 1) is Some {
        first_unensured_alliance(pre, rem, ids, n - 1)
    } else if !alliance_ensured(pre, rem, ids[n - 1]) {
        Some(n - 1)
    } else {
        None
    }
}

/// Once an unensured index is found, scanning further does not change it.
pub proof fn lemma_first_unensured_alliance_frozen(
    pre: Seq<AllianceRow>,
    rem: Remote,
    ids: Seq<u64>,
    m: int,
    n: int,
)
    requires
        0 < m <= n,
        first_unensured_alliance(pre, rem, ids, m) is Some,
    ensures
        first_unensured_alliance(pre, rem, ids, n) == first_unensured_alliance(pre, rem, ids, m),
    decreases n - m,
{
    if m < n {
        lemma_first_unensured_alliance_frozen(pre, rem, ids, m, n - 1);
    }
}

/// Resolution only adds rows: every alliance present before a resolved batch is
/// still present after it.
pub proof fn lemma_alliances_resolved_monotone(
    pre: Seq<AllianceRow>,
    rem: Remote,
    ids: Seq<u64>,
    post: Seq<AllianceRow>,
)
    requires
        alliances_resolved(pre, rem, ids, post),
    ensures
        forall|id: u64| #[trigger] alliance_in(pre, id) ==> alliance_in(post, id),
    decreases ids.len(),
{
    if ids.len() > 0 {
        let mid = choose|mid: Seq<AllianceRow>|
            alliances_resolved(pre, rem, ids.drop_last(), mid) && alliance_resolved_one(
                mid,
                rem,
                ids.last(),
                post,
            );
        lemma_alliances_resolved_monotone(pre, rem, ids.drop_last(), mid);
        assert forall|id: u64| #[trigger] alliance_in(pre, id) implies alliance_in(post, id) by {
            if !alliance_in(mid, ids.last()) {
                let w = choose|w: int| 0 <= w < mid.len() && mid[w].alliance_id == id;
                assert(post.drop_last()[w] == mid[w]);
                assert(post[w].alliance_id == id);
            }
        }
    }
}

/// Every alliance present after a resolved batch was either present before it
/// or fetchable from the remote API.
pub proof fn lemma_alliances_resolved_provenance(
    pre: Seq<AllianceRow>,
    rem: Remote,
    ids: Seq<u64>,
    post: Seq<AllianceRow>,
)
    requires
        alliances_resolved(pre, rem, ids, post),
    ensures
        forall|id: u64| #[trigger] alliance_in(post, id) ==> alliance_in(pre, id) || fetch_alliance_spec(
            rem,
            id,
        ) is Ok,
    decreases ids.len(),
{
    if ids.len() > 0 {
        let mid = choose|mid: Seq<AllianceRow>|
            alliances_resolved(pre, rem, ids.drop_last(), mid) && alliance_resolved_one(
                mid,
                rem,
                ids.last(),
                post,
            );
        lemma_alliances_resolved_provenance(pre, rem, ids.drop_last(), mid);
        assert forall|id: u64| #[trigger] alliance_in(post, id) implies alliance_in(pre, id)
            || fetch_alliance_spec(rem, id) is Ok by {
            if !alliance_in(mid, ids.last()) {
                let w = choose|w: int| 0 <= w < post.len() && post[w].alliance_id == id;
                if w < mid.len() {
                    assert(post.drop_last()[w] == mid[w]);
                    assert(mid[w].alliance_id == id);
                    assert(alliance_in(mid, id));
                } else {
                    assert(post[w] == post.last());
                    assert(id == ids.last());
                }
            }
        }
    }
}

/// Two tables that hold the same ids, up to rows fetchable anyway, owe
/// success to exactly the same prefix of a batch.
pub proof fn lemma_first_unensured_alliance_equiv(
    a: Seq<AllianceRow>,
    b: Seq<AllianceRow>,
    rem: Remote,
    ids: Seq<u64>,
    n: int,
)
    requires
        forall|id: u64| #[trigger] alliance_in(a, id) ==> alliance_in(b, id),
        forall|id: u64| #[trigger] alliance_in(b, id) ==> alliance_in(a, id) || fetch_alliance_spec(
            rem,
            id,
        ) is Ok,
    ensures
        first_unensured_alliance(a, rem, ids, n) == first_unensured_alliance(b, rem, ids, n),
    decreases n,
{
    if n > 0 {
        lemma_first_unensured_alliance_equiv(a, b, rem, ids, n - 1);
    }
}

/// Resolved batches compose: resolving one id list and then another is
/// resolving their concatenation.
pub proof fn lemma_alliances_resolved_concat(
    pre: Seq<AllianceRow>,
    rem: Remote,
    ids1: Seq<u64>,
    mid: Seq<AllianceRow>,
    ids2: Seq<u64>,
    post: Seq<AllianceRow>,
)
    requires
        alliances_resolved(pre, rem, ids1, mid),
        alliances_resolved(mid, rem, ids2, post),
    ensures
        alliances_resolved(pre, rem, ids1 + ids2, post),
    decreases ids2.len(),
{
    if ids2.len() == 0 {
        assert(ids1 + ids2 =~= ids1);
    } else {
        let m2 = choose|m2: Seq<AllianceRow>|
            alliances_resolved(mid, rem, ids2.drop_last(), m2) && alliance_resolved_one(
                m2,
                rem,
                ids2.last(),
                post,
            );
        lemma_alliances_resolved_concat(pre, rem, ids1, mid, ids2.drop_last(), m2);
        assert((ids1 + ids2).drop_last() =~= ids1 + ids2.drop_last());
        assert((ids1 + ids2).last() == ids2.last());
        assert(alliances_resolved(pre, rem, (ids1 + ids2).drop_last(), m2));
    }
}

/// Ensures one alliance is present: a no-op when it is stored, otherwise a fetch
/// from the remote API written through the deduplicating writer.
pub fn store_alliance_if_not_present(db: &mut Store, remote: &Remote, alliance_id: u64) -> (r: Result<
    (),
    ProcessingError,
>)
    requires
        old(db).wf(),
    ensures
        final(db).wf(),
        final(db).same_except_alliances(*old(db)),
        r is Ok <==> alliance_ensured(old(db).alliances@, *remote, alliance_id),
        r is Ok ==> alliance_resolved_one(old(db).alliances@, *remote, alliance_id, final(db).alliances@)
            && alliance_in(final(db).alliances@, alliance_id),
        r matches Err(e) ==> *final(db) == *old(db) && e == ProcessingError::ESIError(
            fetch_alliance_spec(*remote, alliance_id)->Err_0,
        ),
{
    if db.contains_alliance(alliance_id) {
        Ok(())
    } else {
        match get_alliance(remote, alliance_id) {
            Ok(row) => {
                let outcome = db.insert_alliance_if_not_present(row);
                proof {
                    assert(outcome is Created);
                    assert(db.alliances@.drop_last() =~= old(db).alliances@);
                }
                Ok(())
            },
            Err(e) => Err(ProcessingError::ESIError(e)),
        }
    }
}

/// Ensures a list of alliance ids is present, fail-fast: the first id that can
/// be neither found nor fetched aborts the batch and is surfaced, the ids
/// after it are not attempted, and the already-resolved prefix stays.
pub fn store_alliances_if_not_present(db: &mut Store, remote: &Remote, alliance_ids: &Vec<u64>) -> (r: Result<
    (),
    ProcessingError,
>)
    requires
        old(db).wf(),
    ensures
        final(db).wf(),
        final(db).same_except_alliances(*old(db)),
        r is Ok <==> first_unensured_alliance(
            old(db).alliances@,
            *remote,
            alliance_ids@,
            alliance_ids@.len() as int,
        ) is None,
        r is Ok ==> alliances_resolved(old(db).alliances@, *remote, alliance_ids@, final(db).alliances@),
        r matches Err(e) ==> ({
            let k = first_unensured_alliance(
                old(db).alliances@,
                *remote,
                alliance_ids@,
                alliance_ids@.len() as int,
            )->Some_0;
            &&& first_unensured_alliance(
                old(db).alliances@,
                *remote,
                alliance_ids@,
                alliance_ids@.len() as int,
            ) is Some
            &&& alliances_resolved(old(db).alliances@, *remote, alliance_ids@.take(k), final(db).alliances@)
            &&& e == ProcessingError::ESIError(fetch_alliance_spec(*remote, alliance_ids@[k])->Err_0)
        }),
{
    let ghost pre = *old(db);
    let n = alliance_ids.len();
    let mut i: usize = 0;
    proof {
        assert(alliance_ids@.take(0) =~= Seq::<u64>::empty());
    }
    while i < n
        invariant
            0 <= i <= n == alliance_ids@.len(),
            db.wf(),
            pre.wf(),
            pre == *old(db),
            db.same_except_alliances(pre),
            first_unensured_alliance(pre.alliances@, *remote, alliance_ids@, i as int) is None,
            alliances_resolved(pre.alliances@, *remote, alliance_ids@.take(i as int), db.alliances@),
        decreases n - i,
    {
        let ghost mid = *db;
        match store_alliance_if_not_present(db, remote, alliance_ids[i]) {
            Ok(()) => {
                proof {
                    assert(alliance_ids@.take(i as int + 1).drop_last() =~= alliance_ids@.take(i as int));
                    assert(alliance_ids@.take(i as int + 1).last() == alliance_ids@[i as int]);
                    assert(alliances_resolved(pre.alliances@, *remote, alliance_ids@.take(i as int + 1), db.alliances@));
                    if alliance_in(mid.alliances@, alliance_ids@[i as int]) && !alliance_in(
                        pre.alliances@,
                        alliance_ids@[i as int],
                    ) {
                        lemma_alliances_resolved_provenance(
                            pre.alliances@,
                            *remote,
                            alliance_ids@.take(i as int),
                            mid.alliances@,
                        );
                    }
                    assert(alliance_ensured(pre.alliances@, *remote, alliance_ids@[i as int]));
                }
            },
            Err(e) => {
                proof {
                    lemma_alliances_resolved_monotone(
                        pre.alliances@,
                        *remote,
                        alliance_ids@.take(i as int),
                        mid.alliances@,
                    );
                    assert(!alliance_ensured(pre.alliances@, *remote, alliance_ids@[i as int]));
                    assert(first_unensured_alliance(pre.alliances@, *remote, alliance_ids@, i as int + 1)
                        == Some(i as int));
                    lemma_first_unensured_alliance_frozen(
                        pre.alliances@,
                        *remote,
                        alliance_ids@,
                        i as int + 1,
                        n as int,
                    );
                }
                return Err(e);
            },
        }
        i = i + 1;
    }
    proof {
        assert(alliance_ids@.take(n as int) =~= alliance_ids@);
    }
    Ok(())
}

/// Whether a corporation table holds a row with this id.
pub open spec fn corporation_in(s: Seq<CorporationRow>, id: u64) -> bool {
    exists|i: int| 0 <= i < s.len() && s[i].corporation_id == id
}

/// Whether resolution of a corporation id is owed success: it is already stored,
/// or the remote API has a well-formed body for it.
pub open spec fn corporation_ensured(s: Seq<CorporationRow>, rem: Remote, id: u64) -> bool {
    corporation_in(s, id) || fetch_corporation_spec(rem, id) is Ok
}

/// The effect of resolving one corporation id on the corporation table: a stored id
/// leaves it unchanged; an absent one appends the fetched row.
pub open spec fn corporation_resolved_one(
    pre: Seq<CorporationRow>,
    rem: Remote,
    id: u64,
    post: Seq<CorporationRow>,
) -> bool {
    if corporation_in(pre, id) {
        post == pre
    } else {
        &&& fetch_corporation_spec(rem, id) is Ok
        &&& post.len() == pre.len() + 1
        &&& post.drop_last() == pre
        &&& corporation_row_like(post.last(), id, fetch_corporation_spec(rem, id)->Ok_0)
    }
}

/// The effect of resolving a list of corporation ids in order.
pub open spec fn corporations_resolved(
    pre: Seq<CorporationRow>,
    rem: Remote,
    ids: Seq<u64>,
    post: Seq<CorporationRow>,
) -> bool
    decreases ids.len(),
{
    if ids.len() == 0 {
        post == pre
    } else {
        exists|mid: Seq<CorporationRow>|
            corporations_resolved(pre, rem, ids.drop_last(), mid) && corporation_resolved_one(
                mid,
                rem,
                ids.last(),
                post,
            )
    }
}

/// The first index below `n` of a corporation id whose resolution is not owed
/// success, or `None` when the first `n` ids all are.
pub open spec fn first_unensured_corporation(
    pre: Seq<CorporationRow>,
    rem: Remote,
    ids: Seq<u64>,
    n: int,
) -> Option<int>
    decreases n,
{
    if n <= 0 {
        None
    } else if first_unensured_corporation(pre, rem, ids, n - 1) is Some {
        first_unensured_corporation(pre, rem, ids, n - 1)
    } else if !corporation_ensured(pre, rem, ids[n - 1]) {
        Some(n - 1)
    } else {
        None
    }
}

/// Once an unensured index is found, scanning further does not change it.
pub proof fn lemma_first_unensured_corporation_frozen(
    pre: Seq<CorporationRow>,
    rem: Remote,
    ids: Seq<u64>,
    m: int,
    n: int,
)
    requires
        0 < m <= n,
        first_unensured_corporation(pre, rem, ids, m) is Some,
    ensures
        first_unensured_corporation(pre, rem, ids, n) == first_unensured_corporation(pre, rem, ids, m),
    decreases n - m,
{
    if m < n {
        lemma_first_unensured_corporation_frozen(pre, rem, ids, m, n - 1);
    }
}

/// Resolution only adds rows: every corporation present before a resolved batch is
/// still present after it.
pub proof fn lemma_corporations_resolved_monotone(
    pre: Seq<CorporationRow>,
    rem: Remote,
    ids: Seq<u64>,
    post: Seq<CorporationRow>,
)
    requires
        corporations_resolved(pre, rem, ids, post),
    ensures
        forall|id: u64| #[trigger] corporation_in(pre, id) ==> corporation_in(post, id),
    decreases ids.len(),
{
    if ids.len() > 0 {
        let mid = choose|mid: Seq<CorporationRow>|
            corporations_resolved(pre, rem, ids.drop_last(), mid) && corporation_resolved_one(
                mid,
                rem,
                ids.last(),
                post,
            );
        lemma_corporations_resolved_monotone(pre, rem, ids.drop_last(), mid);
        assert forall|id: u64| #[trigger] corporation_in(pre, id) implies corporation_in(post, id) by {
            if !corporation_in(mid, ids.last()) {
                let w = choose|w: int| 0 <= w < mid.len() && mid[w].corporation_id == id;
                assert(post.drop_last()[w] == mid[w]);
                assert(post[w].corporation_id == id);
            }
        }
    }
}

/// Every corporation present after a resolved batch was either present before it
/// or fetchable from the remote API.
pub proof fn lemma_corporations_resolved_provenance(
    pre: Seq<CorporationRow>,
    rem: Remote,
    ids: Seq<u64>,
    post: Seq<CorporationRow>,
)
    requires
        corporations_resolved(pre, rem, ids, post),
    ensures
        forall|id: u64| #[trigger] corporation_in(post, id) ==> corporation_in(pre, id) || fetch_corporation_spec(
            rem,
            id,
        ) is Ok,
    decreases ids.len(),
{
    if ids.len() > 0 {
        let mid = choose|mid: Seq<CorporationRow>|
            corporations_resolved(pre, rem, ids.drop_last(), mid) && corporation_resolved_one(
                mid,
                rem,
                ids.last(),
                post,
            );
        lemma_corporations_resolved_provenance(pre, rem, ids.drop_last(), mid);
        assert forall|id: u64| #[trigger] corporation_in(post, id) implies corporation_in(pre, id)
            || fetch_corporation_spec(rem, id) is Ok by {
            if !corporation_in(mid, ids.last()) {
                let w = choose|w: int| 0 <= w < post.len() && post[w].corporation_id == id;
                if w < mid.len() {
                    assert(post.drop_last()[w] == mid[w]);
                    assert(mid[w].corporation_id == id);
                    assert(corporation_in(mid, id));
                } else {
                    assert(post[w] == post.last());
                    assert(id == ids.last());
                }
            }
        }
    }
}

/// Two tables that hold the same ids, up to rows fetchable anyway, owe
/// success to exactly the same prefix of a batch.
pub proof fn lemma_first_unensured_corporation_equiv(
    a: Seq<CorporationRow>,
    b: Seq<CorporationRow>,
    rem: Remote,
    ids: Seq<u64>,
    n: int,
)
    requires
        forall|id: u64| #[trigger] corporation_in(a, id) ==> corporation_in(b, id),
        forall|id: u64| #[trigger] corporation_in(b, id) ==> corporation_in(a, id) || fetch_corporation_spec(
            rem,
            id,
        ) is Ok,
    ensures
        first_unensured_corporation(a, rem, ids, n) == first_unensured_corporation(b, rem, ids, n),
    decreases n,
{
    if n > 0 {
        lemma_first_unensured_corporation_equiv(a, b, rem, ids, n - 1);
    }
}

/// Resolved batches compose: resolving one id list and then another is
/// resolving their concatenation.
pub proof fn lemma_corporations_resolved_concat(
    pre: Seq<CorporationRow>,
    rem: Remote,
    ids1: Seq<u64>,
    mid: Seq<CorporationRow>,
    ids2: Seq<u64>,
    post: Seq<CorporationRow>,
)
    requires
        corporations_resolved(pre, rem, ids1, mid),
        corporations_resolved(mid, rem, ids2, post),
    ensures
        corporations_resolved(pre, rem, ids1 + ids2, post),
    decreases ids2.len(),
{
    if ids2.len() == 0 {
        assert(ids1 + ids2 =~= ids1);
    } else {
        let m2 = choose|m2: Seq<CorporationRow>|
            corporations_resolved(mid, rem, ids2.drop_last(), m2) && corporation_resolved_one(
                m2,
                rem,
                ids2.last(),
                post,
            );
        lemma_corporations_resolved_concat(pre, rem, ids1, mid, ids2.drop_last(), m2);
        assert((ids1 + ids2).drop_last() =~= ids1 + ids2.drop_last());
        assert((ids1 + ids2).last() == ids2.last());
        assert(corporations_resolved(pre, rem, (ids1 + ids2).drop_last(), m2));
    }
}

/// Ensures one corporation is present: a no-op when it is stored, otherwise a fetch
/// from the remote API written through the deduplicating writer.
pub fn store_corporation_if_not_present(db: &mut Store, remote: &Remote, corporation_id: u64) -> (r: Result<
    (),
    ProcessingError,
>)
    requires
        old(db).wf(),
    ensures
        final(db).wf(),
        final(db).same_except_corporations(*old(db)),
        r is Ok <==> corporation_ensured(old(db).corporations@, *remote, corporation_id),
        r is Ok ==> corporation_resolved_one(old(db).corporations@, *remote, corporation_id, final(db).corporations@)
            && corporation_in(final(db).corporations@, corporation_id),
        r matches Err(e) ==> *final(db) == *old(db) && e == ProcessingError::ESIError(
            fetch_corporation_spec(*remote, corporation_id)->Err_0,
        ),
{
    if db.contains_corporation(corporation_id) {
        Ok(())
    } else {
        match get_corporation(remote, corporation_id) {
            Ok(row) => {
                let outcome = db.insert_corporation_if_not_present(row);
                proof {
                    assert(outcome is Created);
                    assert(db.corporations@.drop_last() =~= old(db).corporations@);
                }
                Ok(())
            },
            Err(e) => Err(ProcessingError::ESIError(e)),
        }
    }
}

/// Ensures a list of corporation ids is present, fail-fast: the first id that can
/// be neither found nor fetched aborts the batch and is surfaced, the ids
/// after it are not attempted, and the already-resolved prefix stays.
pub fn store_corporations_if_not_present(db: &mut Store, remote: &Remote, corporation_ids: &Vec<u64>) -> (r: Result<
    (),
    ProcessingError,
>)
    requires
        old(db).wf(),
    ensures
        final(db).wf(),
        final(db).same_except_corporations(*old(db)),
        r is Ok <==> first_unensured_corporation(
            old(db).corporations@,
            *remote,
            corporation_ids@,
            corporation_ids@.len() as int,
        ) is None,
        r is Ok ==> corporations_resolved(old(db).corporations@, *remote, corporation_ids@, final(db).corporations@),
        r matches Err(e) ==> ({
            let k = first_unensured_corporation(
                old(db).corporations@,
                *remote,
                corporation_ids@,
                corporation_ids@.len() as int,
            )->Some_0;
            &&& first_unensured_corporation(
                old(db).corporations@,
                *remote,
                corporation_ids@,
                corporation_ids@.len() as int,
            ) is Some
            &&& corporations_resolved(old(db).corporations@, *remote, corporation_ids@.take(k), final(db).corporations@)
            &&& e == ProcessingError::ESIError(fetch_corporation_spec(*remote, corporation_ids@[k])->Err_0)
        }),
{
    let ghost pre = *old(db);
    let n = corporation_ids.len();
    let mut i: usize = 0;
    proof {
        assert(corporation_ids@.take(0) =~= Seq::<u64>::empty());
    }
    while i < n
        invariant
            0 <= i <= n == corporation_ids@.len(),
            db.wf(),
            pre.wf(),
            pre == *old(db),
            db.same_except_corporations(pre),
            first_unensured_corporation(pre.corporations@, *remote, corporation_ids@, i as int) is None,
            corporations_resolved(pre.corporations@, *remote, corporation_ids@.take(i as int), db.corporations@),
        decreases n - i,
    {
        let ghost mid = *db;
        match store_corporation_if_not_present(db, remote, corporation_ids[i]) {
            Ok(()) => {
                proof {
                    assert(corporation_ids@.take(i as int + 1).drop_last() =~= corporation_ids@.take(i as int));
                    assert(corporation_ids@.take(i as int + 1).last() == corporation_ids@[i as int]);
                    assert(corporations_resolved(pre.corporations@, *remote, corporation_ids@.take(i as int + 1), db.corporations@));
                    if corporation_in(mid.corporations@, corporation_ids@[i as int]) && !corporation_in(
                        pre.corporations@,
                        corporation_ids@[i as int],
                    ) {
                        lemma_corporations_resolved_provenance(
                            pre.corporations@,
                            *remote,
                            corporation_ids@.take(i as int),
                            mid.corporations@,
                        );
                    }
                    assert(corporation_ensured(pre.corporations@, *remote, corporation_ids@[i as int]));
                }
            },
            Err(e) => {
                proof {
                    lemma_corporations_resolved_monotone(
                        pre.corporations@,
                        *remote,
                        corporation_ids@.take(i as int),
                        mid.corporations@,
                    );
                    assert(!corporation_ensured(pre.corporations@, *remote, corporation_ids@[i as int]));
                    assert(first_unensured_corporation(pre.corporations@, *remote, corporation_ids@, i as int + 1)
                        == Some(i as int));
                    lemma_first_unensured_corporation_frozen(
                        pre.corporations@,
                        *remote,
                        corporation_ids@,
                        i as int + 1,
                        n as int,
                    );
                }
                return Err(e);
            },
        }
        i = i + 1;
    }
    proof {
        assert(corporation_ids@.take(n as int) =~= corporation_ids@);
    }
    Ok(())
}

/// Whether a character table holds a row with this id.
pub open spec fn character_in(s: Seq<CharacterRow>, id: u64) -> bool {
    exists|i: int| 0 <= i < s.len() && s[i].character_id == id
}

/// Whether resolution of a character id is owed success: it is already stored,
/// or the remote API has a well-formed body for it.
pub open spec fn character_ensured(s: Seq<CharacterRow>, rem: Remote, id: u64) -> bool {
    character_in(s, id) || fetch_character_spec(rem, id) is Ok
}

/// The effect of resolving one character id on the character table: a stored id
/// leaves it unchanged; an absent one appends the fetched row.
pub open spec fn character_resolved_one(
    pre: Seq<CharacterRow>,
    rem: Remote,
    id: u64,
    post: Seq<CharacterRow>,
) -> bool {
    if character_in(pre, id) {
        post == pre
    } else {
        &&& fetch_character_spec(rem, id) is Ok
        &&& post.len() == pre.len() + 1
        &&& post.drop_last() == pre
        &&& character_row_like(post.last(), id, fetch_character_spec(rem, id)->Ok_0)
    }
}

/// The effect of resolving a list of character ids in order.
pub open spec fn characters_resolved(
    pre: Seq<CharacterRow>,
    rem: Remote,
    ids: Seq<u64>,
    post: Seq<CharacterRow>,
) -> bool
    decreases ids.len(),
{
    if ids.len() == 0 {
        post == pre
    } else {
        exists|mid: Seq<CharacterRow>|
            characters_resolved(pre, rem, ids.drop_last(), mid) && character_resolved_one(
                mid,
                rem,
                ids.last(),
                post,
            )
    }
}

/// The first index below `n` of a character id whose resolution is not owed
/// success, or `None` when the first `n` ids all are.
pub open spec fn first_unensured_character(
    pre: Seq<CharacterRow>,
    rem: Remote,
    ids: Seq<u64>,
    n: int,
) -> Option<int>
    decreases n,
{
    if n <= 0 {
        None
    } else if first_unensured_character(pre, rem, ids, n - 1) is Some {
        first_unensured_character(pre, rem, ids, n - 1)
    } else if !character_ensured(pre, rem, ids[n - 1]) {
        Some(n - 1)
    } else {
        None
    }
}

/// Once an unensured index is found, scanning further does not change it.
pub proof fn lemma_first_unensured_character_frozen(
    pre: Seq<CharacterRow>,
    rem: Remote,
    ids: Seq<u64>,
    m: int,
    n: int,
)
    requires
        0 < m <= n,
        first_unensured_character(pre, rem, ids, m) is Some,
    ensures
        first_unensured_character(pre, rem, ids, n) == first_unensured_character(pre, rem, ids, m),
    decreases n - m,
{
    if m < n {
        lemma_first_unensured_character_frozen(pre, rem, ids, m, n - 1);
    }
}

/// Resolution only adds rows: every character present before a resolved batch is
/// still present after it.
pub proof fn lemma_characters_resolved_monotone(
    pre: Seq<CharacterRow>,
    rem: Remote,
    ids: Seq<u64>,
    post: Seq<CharacterRow>,
)
    requires
        characters_resolved(pre, rem, ids, post),
    ensures
        forall|id: u64| #[trigger] character_in(pre, id) ==> character_in(post, id),
    decreases ids.len(),
{
    if ids.len() > 0 {
        let mid = choose|mid: Seq<CharacterRow>|
            characters_resolved(pre, rem, ids.drop_last(), mid) && character_resolved_one(
                mid,
                rem,
                ids.last(),
                post,
            );
        lemma_characters_resolved_monotone(pre, rem, ids.drop_last(), mid);
        assert forall|id: u64| #[trigger] character_in(pre, id) implies character_in(post, id) by {
            if !character_in(mid, ids.last()) {
                let w = choose|w: int| 0 <= w < mid.len() && mid[w].character_id == id;
                assert(post.drop_last()[w] == mid[w]);
                assert(post[w].character_id == id);
            }
        }
    }
}

/// Every character present after a resolved batch was either present before it
/// or fetchable from the remote API.
pub proof fn lemma_characters_resolved_provenance(
    pre: Seq<CharacterRow>,
    rem: Remote,
    ids: Seq<u64>,
    post: Seq<CharacterRow>,
)
    requires
        characters_resolved(pre, rem, ids, post),
    ensures
        forall|id: u64| #[trigger] character_in(post, id) ==> character_in(pre, id) || fetch_character_spec(
            rem,
            id,
        ) is Ok,
    decreases ids.len(),
{
    if ids.len() > 0 {
        let mid = choose|mid: Seq<CharacterRow>|
            characters_resolved(pre, rem, ids.drop_last(), mid) && character_resolved_one(
                mid,
                rem,
                ids.last(),
                post,
            );
        lemma_characters_resolved_provenance(pre, rem, ids.drop_last(), mid);
        assert forall|id: u64| #[trigger] character_in(post, id) implies character_in(pre, id)
            || fetch_character_spec(rem, id) is Ok by {
            if !character_in(mid, ids.last()) {
                let w = choose|w: int| 0 <= w < post.len() && post[w].character_id == id;
                if w < mid.len() {
                    assert(post.drop_last()[w] == mid[w]);
                    assert(mid[w].character_id == id);
                    assert(character_in(mid, id));
                } else {
                    assert(post[w] == post.last());
                    assert(id == ids.last());
                }
            }
        }
    }
}

/// Two tables that hold the same ids, up to rows fetchable anyway, owe
/// success to exactly the same prefix of a batch.
pub proof fn lemma_first_unensured_character_equiv(
    a: Seq<CharacterRow>,
    b: Seq<CharacterRow>,
    rem: Remote,
    ids: Seq<u64>,
    n: int,
)
    requires
        forall|id: u64| #[trigger] character_in(a, id) ==> character_in(b, id),
        forall|id: u64| #[trigger] character_in(b, id) ==> character_in(a, id) || fetch_character_spec(
            rem,
            id,
        ) is Ok,
    ensures
        first_unensured_character(a, rem, ids, n) == first_unensured_character(b, rem, ids, n),
    decreases n,
{
    if n > 0 {
        lemma_first_unensured_character_equiv(a, b, rem, ids, n - 1);
    }
}

/// Resolved batches compose: resolving one id list and then another is
/// resolving their concatenation.
pub proof fn lemma_characters_resolved_concat(
    pre: Seq<CharacterRow>,
    rem: Remote,
    ids1: Seq<u64>,
    mid: Seq<CharacterRow>,
    ids2: Seq<u64>,
    post: Seq<CharacterRow>,
)
    requires
        characters_resolved(pre, rem, ids1, mid),
        characters_resolved(mid, rem, ids2, post),
    ensures
        characters_resolved(pre, rem, ids1 + ids2, post),
    decreases ids2.len(),
{
    if ids2.len() == 0 {
        assert(ids1 + ids2 =~= ids1);
    } else {
        let m2 = choose|m2: Seq<CharacterRow>|
            characters_resolved(mid, rem, ids2.drop_last(), m2) && character_resolved_one(
                m2,
                rem,
                ids2.last(),
                post,
            );
        lemma_characters_resolved_concat(pre, rem, ids1, mid, ids2.drop_last(), m2);
        assert((ids1 + ids2).drop_last() =~= ids1 + ids2.drop_last());
        assert((ids1 + ids2).last() == ids2.last());
        assert(characters_resolved(pre, rem, (ids1 + ids2).drop_last(), m2));
    }
}

/// Ensures one character is present: a no-op when it is stored, otherwise a fetch
/// from the remote API written through the deduplicating writer.
pub fn store_pubchar_info_if_not_present(db: &mut Store, remote: &Remote, character_id: u64) -> (r: Result<
    (),
    ProcessingError,
>)
    requires
        old(db).wf(),
    ensures
        final(db).wf(),
        final(db).same_except_characters(*old(db)),
        r is Ok <==> character_ensured(old(db).characters@, *remote, character_id),
        r is Ok ==> character_resolved_one(old(db).characters@, *remote, character_id, final(db).characters@)
            && character_in(final(db).characters@, character_id),
        r matches Err(e) ==> *final(db) == *old(db) && e == ProcessingError::ESIError(
            fetch_character_spec(*remote, character_id)->Err_0,
        ),
{
    if db.contains_character(character_id) {
        Ok(())
    } else {
        match get_character(remote, character_id) {
            Ok(row) => {
                let outcome = db.insert_pubchar_info_if_not_present(row);
                proof {
                    assert(outcome is Created);
                    assert(db.characters@.drop_last() =~= old(db).characters@);
                }
                Ok(())
            },
            Err(e) => Err(ProcessingError::ESIError(e)),
        }
    }
}

/// Ensures a list of character ids is present, fail-fast: the first id that can
/// be neither found nor fetched aborts the batch and is surfaced, the ids
/// after it are not attempted, and the already-resolved prefix stays.
pub fn store_pubchars_info_if_not_present(db: &mut Store, remote: &Remote, character_ids: &Vec<u64>) -> (r: Result<
    (),
    ProcessingError,
>)
    requires
        old(db).wf(),
    ensures
        final(db).wf(),
        final(db).same_except_characters(*old(db)),
        r is Ok <==> first_unensured_character(
            old(db).characters@,
            *remote,
            character_ids@,
            character_ids@.len() as int,
        ) is None,
        r is Ok ==> characters_resolved(old(db).characters@, *remote, character_ids@, final(db).characters@),
        r matches Err(e) ==> ({
            let k = first_unensured_character(
                old(db).characters@,
                *remote,
                character_ids@,
                character_ids@.len() as int,
            )->Some_0;
            &&& first_unensured_character(
                old(db).characters@,
                *remote,
                character_ids@,
                character_ids@.len() as int,
            ) is Some
            &&& characters_resolved(old(db).characters@, *remote, character_ids@.take(k), final(db).characters@)
            &&& e == ProcessingError::ESIError(fetch_character_spec(*remote, character_ids@[k])->Err_0)
        }),
{
    let ghost pre = *old(db);
    let n = character_ids.len();
    let mut i: usize = 0;
    proof {
        assert(character_ids@.take(0) =~= Seq::<u64>::empty());
    }
    while i < n
        invariant
            0 <= i <= n == character_ids@.len(),
            db.wf(),
            pre.wf(),
            pre == *old(db),
            db.same_except_characters(pre),
            first_unensured_character(pre.characters@, *remote, character_ids@, i as int) is None,
            characters_resolved(pre.characters@, *remote, character_ids@.take(i as int), db.characters@),
        decreases n - i,
    {
        let ghost mid = *db;
        match store_pubchar_info_if_not_present(db, remote, character_ids[i]) {
            Ok(()) => {
                proof {
                    assert(character_ids@.take(i as int + 1).drop_last() =~= character_ids@.take(i as int));
                    assert(character_ids@.take(i as int + 1).last() == character_ids@[i as int]);
                    assert(characters_resolved(pre.characters@, *remote, character_ids@.take(i as int + 1), db.characters@));
                    if character_in(mid.characters@, character_ids@[i as int]) && !character_in(
                        pre.characters@,
                        character_ids@[i as int],
                    ) {
                        lemma_characters_resolved_provenance(
                            pre.characters@,
                            *remote,
                            character_ids@.take(i as int),
                            mid.characters@,
                        );
                    }
                    assert(character_ensured(pre.characters@, *remote, character_ids@[i as int]));
                }
            },
            Err(e) => {
                proof {
                    lemma_characters_resolved_monotone(
                        pre.characters@,
                        *remote,
                        character_ids@.take(i as int),
                        mid.characters@,
                    );
                    assert(!character_ensured(pre.characters@, *remote, character_ids@[i as int]));
                    assert(first_unensured_character(pre.characters@, *remote, character_ids@, i as int + 1)
                        == Some(i as int));
                    lemma_first_unensured_character_frozen(
                        pre.characters@,
                        *remote,
                        character_ids@,
                        i as int + 1,
                        n as int,
                    );
                }
                return Err(e);
            },
        }
        i = i + 1;
    }
    proof {
        assert(character_ids@.take(n as int) =~= character_ids@);
    }
    Ok(())
}

} // verus!
