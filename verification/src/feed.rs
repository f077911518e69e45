//! The live feed consumer's decisions.
//!
//! The feed delivers frames over a persistent connection: text frames holding
//! killmail payloads, keep-alive pings that must be answered, and anything
//! else. The connection itself is I/O; what this module states is the
//! consumer's policy for each decoded frame. A text frame that does not
//! decode into a payload is skipped with a log entry — it never terminates
//! the consumer — and a ping is answered with a pong.

use vstd::prelude::*;

use crate::database::Store;
use crate::esi::Remote;
use crate::esi_models::ESIKillmail;
use crate::killmail_processing::{process_effect, process_killmail, ProcessingError};

verus! {

/// One decoded frame from the live feed.
pub enum FeedEvent {
    /// A text frame that decoded into a killmail payload.
    Payload(ESIKillmail),
    /// A text frame that did not decode: skipped, never fatal.
    Malformed,
    /// A keep-alive frame that must be answered to stay connected.
    Ping,
    /// Any other frame.
    Other,
}

/// What the consumer does with one frame.
#[derive(Clone, Copy, PartialEq, Eq, Structural, Debug)]
pub enum FeedAction {
    /// The payload was normalized into the store.
    Processed,
    /// Normalizing the payload failed; the failure is logged and the
    /// consumer goes on.
    Failed,
    /// The frame was skipped with a log entry.
    Skipped,
    /// Answer the keep-alive with a pong reply.
    Pong,
    /// Nothing to do.
    Ignored,
}

/// The effect of one frame on the store: a payload is processed, anything
/// else leaves the store untouched.
pub open spec fn feed_step(pre: Store, rem: Remote, event: FeedEvent, post: Store) -> bool {
    match event {
        FeedEvent::Payload(km) => exists|r: Result<(), ProcessingError>|
            #![auto]
            process_effect(pre, rem, km, post, r),
        FeedEvent::Malformed => post == pre,
        FeedEvent::Ping => post == pre,
        FeedEvent::Other => post == pre,
    }
}

/// Handles one decoded frame: processes a payload, skips a malformed frame,
/// answers a ping. No frame terminates the consumer.
pub fn handle_feed_event(db: &mut Store, remote: &Remote, event: FeedEvent) -> (a: FeedAction)
    requires
        old(db).wf(),
    ensures
        final(db).wf(),
        feed_step(*old(db), *remote, event, *final(db)),
        event is Payload ==> (a is Processed || a is Failed),
        event is Malformed ==> a is Skipped && *final(db) == *old(db),
        event is Ping ==> a is Pong && *final(db) == *old(db),
        event is Other ==> a is Ignored && *final(db) == *old(db),
{
    match event {
        FeedEvent::Payload(km) => {
            let result = process_killmail(db, remote, km);
            match result {
                Ok(()) => FeedAction::Processed,
                Err(_) => FeedAction::Failed,
            }
        },
        FeedEvent::Malformed => FeedAction::Skipped,
        FeedEvent::Ping => FeedAction::Pong,
        FeedEvent::Other => FeedAction::Ignored,
    }
}

/// The effect of a run of frames, in order.
pub open spec fn feed_run(pre: Store, rem: Remote, events: Seq<FeedEvent>, post: Store) -> bool
    decreases events.len(),
{
    if events.len() == 0 {
        post == pre
    } else {
        exists|mid: Store|
            feed_run(pre, rem, events.drop_last(), mid) && feed_step(
                mid,
                rem,
                events.last(),
                post,
            )
    }
}

/// The number of payload frames in a run.
pub open spec fn count_payloads(events: Seq<FeedEvent>) -> nat
    decreases events.len(),
{
    if events.len() == 0 {
        0
    } else {
        count_payloads(events.drop_last()) + if events.last() is Payload {
            1nat
        } else {
            0nat
        }
    }
}

/// The number of malformed frames in a run.
pub open spec fn count_malformed(events: Seq<FeedEvent>) -> nat
    decreases events.len(),
{
    if events.len() == 0 {
        0
    } else {
        count_malformed(events.drop_last()) + if events.last() is Malformed {
            1nat
        } else {
            0nat
        }
    }
}

/// The number of keep-alive frames in a run.
pub open spec fn count_pings(events: Seq<FeedEvent>) -> nat
    decreases events.len(),
{
    if events.len() == 0 {
        0
    } else {
        count_pings(events.drop_last()) + if events.last() is Ping {
            1nat
        } else {
            0nat
        }
    }
}

/// The consumer's report over a run of frames.
#[derive(Clone, Copy, PartialEq, Eq, Structural, Debug)]
pub struct FeedSummary {
    pub processed: usize,
    pub failed: usize,
    pub skipped: usize,
    pub pongs: usize,
}

/// Consumes a run of decoded frames in order. Every frame is handled: every
/// payload is attempted — a failure is counted and the consumer goes on —
/// every malformed frame is skipped and counted, and every ping is answered.
pub fn run_feed(db: &mut Store, remote: &Remote, events: Vec<FeedEvent>) -> (s: FeedSummary)
    requires
        old(db).wf(),
    ensures
        final(db).wf(),
        feed_run(*old(db), *remote, events@, *final(db)),
        s.processed + s.failed == count_payloads(events@),
        s.skipped == count_malformed(events@),
        s.pongs == count_pings(events@),
{
    let ghost pre = *old(db);
    let ghost all = events@;
    let mut summary = FeedSummary { processed: 0, failed: 0, skipped: 0, pongs: 0 };
    let mut events = events;
    let n = events.len();
    let mut i: usize = 0;
    proof {
        assert(all.take(0) =~= Seq::<FeedEvent>::empty());
    }
    while i < n
        invariant
            0 <= i <= n == all.len(),
            events@ == all.skip(i as int),
            db.wf(),
            pre == *old(db),
            feed_run(pre, *remote, all.take(i as int), *db),
            summary.processed + summary.failed == count_payloads(all.take(i as int)),
            summary.skipped == count_malformed(all.take(i as int)),
            summary.pongs == count_pings(all.take(i as int)),
            summary.processed + summary.failed <= i,
            summary.skipped <= i,
            summary.pongs <= i,
        decreases n - i,
    {
        let ghost mid = *db;
        proof {
            assert(events@[0] == all[i as int]);
            assert(all.take(i as int + 1).drop_last() =~= all.take(i as int));
            assert(all.take(i as int + 1).last() == all[i as int]);
        }
        let event = events.remove(0);
        proof {
            assert(events@ =~= all.skip(i as int + 1));
        }
        match handle_feed_event(db, remote, event) {
            FeedAction::Processed => {
                summary.processed = summary.processed + 1;
            },
            FeedAction::Failed => {
                summary.failed = summary.failed + 1;
            },
            FeedAction::Skipped => {
                summary.skipped = summary.skipped + 1;
            },
            FeedAction::Pong => {
                summary.pongs = summary.pongs + 1;
            },
            FeedAction::Ignored => {},
        }
        proof {
            assert(feed_run(pre, *remote, all.take(i as int + 1), *db));
        }
        i = i + 1;
    }
    proof {
        assert(all.take(n as int) =~= all);
    }
    summary
}

/// Dropping a malformed frame from a run changes nothing: the runs with and
/// without it take the store to exactly the same states. A bad frame is
/// invisible to every later frame.
pub proof fn lemma_malformed_frame_invisible(
    pre: Store,
    rem: Remote,
    before: Seq<FeedEvent>,
    after: Seq<FeedEvent>,
    post: Store,
)
    ensures
        feed_run(pre, rem, before + seq![FeedEvent::Malformed] + after, post) <==> feed_run(
            pre,
            rem,
            before + after,
            post,
        ),
    decreases after.len(),
{
    if after.len() == 0 {
        assert(before + seq![FeedEvent::Malformed] + after =~= before + seq![
            FeedEvent::Malformed,
        ]);
        assert(before + after =~= before);
        assert((before + seq![FeedEvent::Malformed]).drop_last() =~= before);
        assert((before + seq![FeedEvent::Malformed]).last() == FeedEvent::Malformed);
        if feed_run(pre, rem, before + seq![FeedEvent::Malformed], post) {
            let mid = choose|mid: Store|
                feed_run(pre, rem, (before + seq![FeedEvent::Malformed]).drop_last(), mid)
                    && feed_step(mid, rem, (before + seq![FeedEvent::Malformed]).last(), post);
            assert(mid == post);
            assert(feed_run(pre, rem, before, post));
        }
        if feed_run(pre, rem, before, post) {
            assert(feed_step(post, rem, FeedEvent::Malformed, post));
            assert(feed_run(pre, rem, before + seq![FeedEvent::Malformed], post));
        }
    } else {
        let with = before + seq![FeedEvent::Malformed] + after;
        let without = before + after;
        assert(with.drop_last() =~= before + seq![FeedEvent::Malformed] + after.drop_last());
        assert(without.drop_last() =~= before + after.drop_last());
        assert(with.last() == after.last());
        assert(without.last() == after.last());
        assert(with.len() > 0 && without.len() > 0);
        if feed_run(pre, rem, with, post) {
            let mid = choose|mid: Store|
                feed_run(pre, rem, with.drop_last(), mid) && feed_step(
                    mid,
                    rem,
                    with.last(),
                    post,
                );
            lemma_malformed_frame_invisible(pre, rem, before, after.drop_last(), mid);
            assert(feed_run(pre, rem, without.drop_last(), mid));
            assert(feed_run(pre, rem, without, post));
        }
        if feed_run(pre, rem, without, post) {
            let mid = choose|mid: Store|
                feed_run(pre, rem, without.drop_last(), mid) && feed_step(
                    mid,
                    rem,
                    without.last(),
                    post,
                );
            lemma_malformed_frame_invisible(pre, rem, before, after.drop_last(), mid);
            assert(feed_run(pre, rem, with.drop_last(), mid));
            assert(feed_run(pre, rem, with, post));
        }
    }
}

} // verus!
