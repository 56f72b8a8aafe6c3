//! What holds of the mirror loop in every state and along every run.

use crate::markup::plain_text;
use crate::mirror::{
    action_of, handled, is_echo, is_mention, no_draft, oldest_first, outcome_of, run, settled,
    started, verdict_of, ActionView, EventView, MirrorView, Outcome, Stage, StatusView,
    VerdictView, COOLDOWN_SECONDS, POST_DELAY_SECONDS, RATE_LIMITED,
};
use vstd::prelude::*;

verus! {

/// Whether the post is to be published: it is no reblog and no reply, and
/// its plain text does not begin like a mention.
pub open spec fn is_eligible(status: StatusView) -> bool {
    !is_echo(status) && !is_mention(plain_text(status.content))
}

/// The number of posts at the head of `queue` that are passed over: the
/// position of the first eligible post, or the length of the queue.
pub open spec fn skipped_count(queue: Seq<StatusView>) -> nat
    decreases queue.len(),
{
    if queue.len() == 0 || is_eligible(queue[0]) {
        0
    } else {
        1 + skipped_count(queue.skip(1))
    }
}

/// The ids of the posts that the step from `m` on `event` deals with for
/// good: the posts that it passes over, or the post that the target
/// accepted. A post whose publication failed, or ran into the rate limit, is
/// not among them.
pub open spec fn resolved(m: MirrorView, event: EventView) -> Seq<Seq<char>> {
    match (m.stage, event) {
        (Stage::Polling, EventView::Fetched(Some(batch))) => oldest_first(batch).take(
            skipped_count(oldest_first(batch)) as int,
        ).map_values(|s: StatusView| s.id),
        (Stage::Pausing, EventView::Slept) => m.queue.take(
            skipped_count(m.queue) as int,
        ).map_values(|s: StatusView| s.id),
        (Stage::Publishing, EventView::Published(status)) => if outcome_of(status)
            == Outcome::Accepted {
            seq![m.draft.id]
        } else {
            Seq::empty()
        },
        _ => Seq::empty(),
    }
}

/// Whether `le` is reflexive and transitive.
pub open spec fn is_preorder(le: spec_fn(Seq<char>, Seq<char>) -> bool) -> bool {
    &&& forall|a: Seq<char>| #[trigger] le(a, a)
    &&& forall|a: Seq<char>, b: Seq<char>, c: Seq<char>|
        #[trigger] le(a, b) && #[trigger] le(b, c) ==> le(a, c)
}

/// Whether the ids of `queue` ascend under `le` and none is below `floor`.
pub open spec fn ascends_from(
    le: spec_fn(Seq<char>, Seq<char>) -> bool,
    floor: Seq<char>,
    queue: Seq<StatusView>,
) -> bool {
    &&& forall|i: int| 0 <= i < queue.len() ==> le(floor, (#[trigger] queue[i]).id)
    &&& forall|i: int, j: int|
        0 <= i <= j < queue.len() ==> le((#[trigger] queue[i]).id, (#[trigger] queue[j]).id)
}

/// Whether the state is in order under `le`: the posts that wait ascend, and
/// none of them, nor the post in hand, is below the watermark.
pub open spec fn in_order(le: spec_fn(Seq<char>, Seq<char>) -> bool, m: MirrorView) -> bool {
    if m.stage == Stage::Uploading || m.stage == Stage::Publishing {
        le(m.watermark, m.draft.id) && ascends_from(le, m.draft.id, m.queue)
    } else {
        ascends_from(le, m.watermark, m.queue)
    }
}

/// Whether the server kept its word in `event`: a fetched batch, taken
/// oldest first, ascends under `le` and holds nothing below the watermark.
pub open spec fn is_faithful(
    le: spec_fn(Seq<char>, Seq<char>) -> bool,
    m: MirrorView,
    event: EventView,
) -> bool {
    match (m.stage, event) {
        (Stage::Polling, EventView::Fetched(Some(batch))) => ascends_from(
            le,
            m.watermark,
            oldest_first(batch),
        ),
        _ => true,
    }
}

/// Whether the server kept its word in every event of a run from `m`.
pub open spec fn is_faithful_run(
    le: spec_fn(Seq<char>, Seq<char>) -> bool,
    m: MirrorView,
    events: Seq<EventView>,
) -> bool {
    forall|k: int|
        0 <= k < events.len() ==> is_faithful(le, run(m, #[trigger] events.take(k)), events[k])
}

/// A reblog, a reply, and a post whose plain text begins like a mention are
/// passed over whatever else they hold: the watermark moves to them and the
/// loop goes on with the post behind them.
pub proof fn lemma_ineligible_post_is_passed_over(
    watermark: Seq<char>,
    status: StatusView,
    behind: Seq<StatusView>,
)
    requires
        !is_eligible(status),
    ensures
        verdict_of(status) == VerdictView::Skip,
        settled(watermark, seq![status] + behind) == settled(status.id, behind),
{
    let queue = seq![status] + behind;
    assert(queue.skip(1) == behind);
}

/// What `settled` comes to, said without recursion: the posts before the
/// first eligible one are passed over and the watermark stands at the last
/// of them; the first eligible post is in hand, with its plain text and its
/// attachments, and the posts behind it wait. Where no post is eligible the
/// loop rests. So no post in hand is a reblog, a reply or a mention.
pub proof fn lemma_settled(watermark: Seq<char>, queue: Seq<StatusView>)
    ensures
        ({
            let n = skipped_count(queue) as int;
            let m = settled(watermark, queue);
            &&& 0 <= n <= queue.len()
            &&& forall|j: int| 0 <= j < n ==> !is_eligible(#[trigger] queue[j])
            &&& m.watermark == if n > 0 {
                queue[n - 1].id
            } else {
                watermark
            }
            &&& m.queue == queue.skip(
                if n < queue.len() {
                    n + 1
                } else {
                    n
                },
            )
            &&& n == queue.len() ==> m.stage == Stage::Resting && m.draft == no_draft()
            &&& n < queue.len() ==> {
                &&& is_eligible(queue[n])
                &&& m.stage == if queue[n].media.len() > 0 {
                    Stage::Uploading
                } else {
                    Stage::Publishing
                }
                &&& m.draft.id == queue[n].id
                &&& m.draft.text == plain_text(queue[n].content)
                &&& m.draft.media == queue[n].media
                &&& m.draft.media_ids == Seq::<Seq<char>>::empty()
            }
        }),
    decreases queue.len(),
{
    if queue.len() > 0 && !is_eligible(queue[0]) {
        let rest = queue.skip(1);
        lemma_settled(queue[0].id, rest);
        assert forall|j: int| 0 <= j < skipped_count(queue) implies !is_eligible(
            #[trigger] queue[j],
        ) by {
            if j > 0 {
                assert(queue[j] == rest[j - 1]);
            }
        }
    }
}

/// After every step the watermark is the id of the last post that the step
/// published with success or passed over, and is unchanged where the step
/// did neither. A post whose publication failed never becomes the
/// watermark by that step.
pub proof fn lemma_watermark_follows_resolved_posts(m: MirrorView, event: EventView)
    ensures
        handled(m, event).watermark == if resolved(m, event).len() > 0 {
            resolved(m, event).last()
        } else {
            m.watermark
        },
{
    match (m.stage, event) {
        (Stage::Polling, EventView::Fetched(Some(batch))) => {
            lemma_settled(m.watermark, oldest_first(batch));
        },
        (Stage::Pausing, EventView::Slept) => {
            lemma_settled(m.watermark, m.queue);
        },
        _ => {},
    }
}

/// An attempt to publish that the target did not accept leaves the
/// watermark where it was.
pub proof fn lemma_failed_publication_keeps_watermark(m: MirrorView, status: Option<u16>)
    requires
        m.stage == Stage::Publishing,
        outcome_of(status) != Outcome::Accepted,
    ensures
        handled(m, EventView::Published(status)).watermark == m.watermark,
        handled(m, EventView::Published(status)).queue == m.queue,
{
}

/// `settled` keeps a queue in order, and does not lower the watermark.
proof fn lemma_settled_in_order(
    le: spec_fn(Seq<char>, Seq<char>) -> bool,
    watermark: Seq<char>,
    queue: Seq<StatusView>,
)
    requires
        is_preorder(le),
        ascends_from(le, watermark, queue),
    ensures
        in_order(le, settled(watermark, queue)),
        le(watermark, settled(watermark, queue).watermark),
    decreases queue.len(),
{
    if queue.len() > 0 && verdict_of(queue[0]) == VerdictView::Skip {
        lemma_settled_in_order(le, queue[0].id, queue.skip(1));
    }
}

/// In whatever order the ids are taken to stand, as long as it is reflexive
/// and transitive: a step from a state in order, on an event in which the
/// server kept its word, leads to a state in order and does not lower the
/// watermark.
pub proof fn lemma_step_never_lowers_watermark(
    le: spec_fn(Seq<char>, Seq<char>) -> bool,
    m: MirrorView,
    event: EventView,
)
    requires
        is_preorder(le),
        in_order(le, m),
        is_faithful(le, m, event),
    ensures
        in_order(le, handled(m, event)),
        le(m.watermark, handled(m, event).watermark),
{
    match (m.stage, event) {
        (Stage::Polling, EventView::Fetched(Some(batch))) => {
            lemma_settled_in_order(le, m.watermark, oldest_first(batch));
        },
        (Stage::Pausing, EventView::Slept) => {
            lemma_settled_in_order(le, m.watermark, m.queue);
        },
        _ => {},
    }
}

/// Along every run in which the server kept its word, from a state in
/// order, the watermark never goes down: at each moment it is at or above
/// what it was at each earlier moment.
pub proof fn lemma_watermark_is_monotonic(
    le: spec_fn(Seq<char>, Seq<char>) -> bool,
    m: MirrorView,
    events: Seq<EventView>,
    earlier: int,
    later: int,
)
    requires
        is_preorder(le),
        in_order(le, m),
        is_faithful_run(le, m, events),
        0 <= earlier <= later <= events.len(),
    ensures
        in_order(le, run(m, events.take(later))),
        le(run(m, events.take(earlier)).watermark, run(m, events.take(later)).watermark),
    decreases later,
{
    if later > 0 {
        let before = events.take(later - 1);
        assert(events.take(later).drop_last() == before);
        lemma_watermark_is_monotonic(
            le,
            m,
            events,
            if earlier == later {
                later - 1
            } else {
                earlier
            },
            later - 1,
        );
        lemma_step_never_lowers_watermark(le, run(m, before), events[later - 1]);
    }
}

/// From its start on, along every run in which the server kept its word, a
/// loop never has its watermark below the one it started with.
pub proof fn lemma_watermark_never_falls_below_start(
    le: spec_fn(Seq<char>, Seq<char>) -> bool,
    watermark: Seq<char>,
    events: Seq<EventView>,
)
    requires
        is_preorder(le),
        is_faithful_run(le, started(watermark), events),
    ensures
        in_order(le, run(started(watermark), events)),
        le(watermark, run(started(watermark), events).watermark),
{
    lemma_watermark_is_monotonic(le, started(watermark), events, 0, events.len() as int);
    assert(events.take(events.len() as int) == events);
}

/// When the target limits the rate, the watermark stays where it is and the
/// posts that wait stay in the queue; the loop waits for the cooldown once,
/// then for the ordinary delay after a post, and then goes on with the
/// queue.
pub proof fn lemma_rate_limit_cools_down_once(m: MirrorView)
    requires
        m.stage == Stage::Publishing,
    ensures
        ({
            let limited = handled(m, EventView::Published(Some(RATE_LIMITED)));
            let cooled = handled(limited, EventView::Slept);
            let paused = handled(cooled, EventView::Slept);
            &&& limited.watermark == m.watermark
            &&& limited.queue == m.queue
            &&& limited.stage == Stage::CoolingDown
            &&& action_of(limited) == (ActionView::Sleep { seconds: COOLDOWN_SECONDS })
            &&& cooled.watermark == m.watermark
            &&& cooled.queue == m.queue
            &&& cooled.stage == Stage::Pausing
            &&& action_of(cooled) == (ActionView::Sleep { seconds: POST_DELAY_SECONDS })
            &&& paused == settled(m.watermark, m.queue)
        }),
{
}

} // verus!
