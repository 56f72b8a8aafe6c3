//! The mirror loop: which posts of the source account are published again on
//! the target, in which order, and how far the watermark moves.
//!
//! The loop does no I/O. A `Mirror` says what to do next (`Action`) and takes
//! what came of it (`Event`). Whoever drives it performs the action and hands
//! back the event.

use crate::json::{member_of, string_member, Member};
use crate::markup::{clean_html, plain_text, TAG_PATTERN};
use crate::pattern::{ensure_accepted, option_chars, pattern_compiles, PatternRefused};
use crate::upload::{
    is_success, media_id_of, plan_of, plan_upload, read_upload_reply, status_is_success, Media,
    MediaView, Reply, ReplyView, UploadPlan, UploadPlanView,
};
use vstd::pervasive::unreached;
use vstd::prelude::*;
use vstd::string::StringExecFns;

verus! {

/// The visibility under which every post is published on the target.
pub const PUBLISH_VISIBILITY: &'static str = "private";

/// The status code by which the target says that it limits the rate.
pub const RATE_LIMITED: u16 = 429;

/// The seconds to wait after each attempt to publish.
pub const POST_DELAY_SECONDS: u64 = 10;

/// The seconds to wait after the target limited the rate.
pub const COOLDOWN_SECONDS: u64 = 300;

/// The seconds to wait between two fetches.
pub const CYCLE_DELAY_SECONDS: u64 = 120;

/// The member of the answer to a credential check that holds the id of the
/// account.
pub const ACCOUNT_ID_KEY: &'static str = "id";

/// A post of the source account.
#[derive(Debug, Clone, PartialEq, Eq)]
pub struct Status {
    pub id: String,
    pub content: String,
    pub visibility: String,
    pub in_reply_to_id: Option<String>,
    pub media_attachments: Vec<Media>,
    /// Whether the post carries a reblog marker.
    pub reblog: bool,
}

/// A post, as plain values.
pub struct StatusView {
    pub id: Seq<char>,
    pub content: Seq<char>,
    pub visibility: Seq<char>,
    pub in_reply_to_id: Option<Seq<char>>,
    pub media: Seq<MediaView>,
    pub reblog: bool,
}

impl View for Status {
    type V = StatusView;

    open spec fn view(&self) -> StatusView {
        StatusView {
            id: self.id@,
            content: self.content@,
            visibility: self.visibility@,
            in_reply_to_id: option_chars(self.in_reply_to_id),
            media: media_views(self.media_attachments@),
            reblog: self.reblog,
        }
    }
}

/// The views of a list of attachments.
pub open spec fn media_views(media: Seq<Media>) -> Seq<MediaView> {
    media.map_values(|m: Media| m@)
}

/// The views of a list of posts.
pub open spec fn status_views(statuses: Seq<Status>) -> Seq<StatusView> {
    statuses.map_values(|s: Status| s@)
}

/// The views of a list of answers, `None` where a request got none.
pub open spec fn reply_views(replies: Seq<Option<Reply>>) -> Seq<Option<ReplyView>> {
    replies.map_values(
        |r: Option<Reply>|
            match r {
                Some(reply) => Some(reply@),
                None => None,
            },
    )
}

/// The views of a list of upload plans.
pub open spec fn plan_views(plans: Seq<UploadPlan>) -> Seq<UploadPlanView> {
    plans.map_values(|p: UploadPlan| p@)
}

/// The character sequences of a list of strings.
pub open spec fn id_views(ids: Seq<String>) -> Seq<Seq<char>> {
    ids.map_values(|s: String| s@)
}

/// What to do with a post.
#[derive(Debug, Clone, PartialEq, Eq)]
pub enum Verdict {
    /// Pass over it: the watermark moves to it, nothing is published.
    Skip,
    /// Publish this text.
    Publish(String),
}

/// A verdict, as plain values.
pub enum VerdictView {
    Skip,
    Publish(Seq<char>),
}

impl View for Verdict {
    type V = VerdictView;

    open spec fn view(&self) -> VerdictView {
        match self {
            Verdict::Skip => VerdictView::Skip,
            Verdict::Publish(text) => VerdictView::Publish(text@),
        }
    }
}

/// What became of an attempt to publish.
#[derive(Debug, Clone, Copy, PartialEq, Eq, Structural)]
pub enum Outcome {
    /// The target accepted the post.
    Accepted,
    /// The target limits the rate.
    RateLimited,
    /// Anything else: another status, or no answer at all.
    Failed,
}

/// Where the loop stands.
#[derive(Debug, Clone, Copy, PartialEq, Eq, Structural)]
pub enum Stage {
    /// About to fetch the posts that are newer than the watermark.
    Polling,
    /// About to upload the attachments of the post in hand.
    Uploading,
    /// About to publish the post in hand.
    Publishing,
    /// About to wait because the target limited the rate.
    CoolingDown,
    /// About to wait after an attempt to publish.
    Pausing,
    /// About to wait before the next fetch.
    Resting,
}

/// What the driver is to do next.
#[derive(Debug, Clone, PartialEq, Eq)]
pub enum Action {
    /// Fetch the posts that are newer than `since_id`.
    Fetch { since_id: String },
    /// Upload these attachments to the target, one after the other.
    Upload { plans: Vec<UploadPlan> },
    /// Publish this post on the target.
    Publish { text: String, visibility: String, media_ids: Vec<String> },
    /// Wait.
    Sleep { seconds: u64 },
}

/// An action, as plain values.
pub enum ActionView {
    Fetch { since_id: Seq<char> },
    Upload { plans: Seq<UploadPlanView> },
    Publish { text: Seq<char>, visibility: Seq<char>, media_ids: Seq<Seq<char>> },
    Sleep { seconds: u64 },
}

impl View for Action {
    type V = ActionView;

    open spec fn view(&self) -> ActionView {
        match self {
            Action::Fetch { since_id } => ActionView::Fetch { since_id: since_id@ },
            Action::Upload { plans } => ActionView::Upload { plans: plan_views(plans@) },
            Action::Publish { text, visibility, media_ids } => ActionView::Publish {
                text: text@,
                visibility: visibility@,
                media_ids: id_views(media_ids@),
            },
            Action::Sleep { seconds } => ActionView::Sleep { seconds: *seconds },
        }
    }
}

/// What came of the last action.
#[derive(Debug, Clone, PartialEq, Eq)]
pub enum Event {
    /// The fetched posts, newest first as the server sends them; `None`
    /// where the request failed or its answer could not be read.
    Fetched(Option<Vec<Status>>),
    /// The target's answers to the uploads, in the order of the plans;
    /// `None` for an upload that got no answer.
    Uploaded(Vec<Option<Reply>>),
    /// The status with which the target answered the post; `None` where it
    /// did not answer.
    Published(Option<u16>),
    /// The wait is over.
    Slept,
}

/// An event, as plain values.
pub enum EventView {
    Fetched(Option<Seq<StatusView>>),
    Uploaded(Seq<Option<ReplyView>>),
    Published(Option<u16>),
    Slept,
}

impl View for Event {
    type V = EventView;

    open spec fn view(&self) -> EventView {
        match self {
            Event::Fetched(Some(batch)) => EventView::Fetched(Some(status_views(batch@))),
            Event::Fetched(None) => EventView::Fetched(None),
            Event::Uploaded(replies) => EventView::Uploaded(reply_views(replies@)),
            Event::Published(status) => EventView::Published(*status),
            Event::Slept => EventView::Slept,
        }
    }
}

/// The post in hand: the one that is being published.
pub struct DraftView {
    pub id: Seq<char>,
    pub text: Seq<char>,
    pub media: Seq<MediaView>,
    pub media_ids: Seq<Seq<char>>,
}

/// The state of the loop.
pub struct MirrorView {
    /// The id of the newest post that was dealt with.
    pub watermark: Seq<char>,
    pub stage: Stage,
    /// The fetched posts that are still to be considered, oldest first.
    pub queue: Seq<StatusView>,
    /// The post in hand while uploading and publishing.
    pub draft: DraftView,
}

/// No post in hand.
pub open spec fn no_draft() -> DraftView {
    DraftView { id: Seq::empty(), text: Seq::empty(), media: Seq::empty(), media_ids: Seq::empty() }
}

/// Whether `text` begins like a mention: with `@`.
pub open spec fn is_mention(text: Seq<char>) -> bool {
    text.len() > 0 && text[0] == '@'
}

/// Whether a post is passed over whatever it says: it is a reblog or a
/// reply.
pub open spec fn is_echo(status: StatusView) -> bool {
    status.reblog || status.in_reply_to_id is Some
}

/// What to do with `status`, given its plain text.
pub open spec fn judged(status: StatusView, text: Seq<char>) -> VerdictView {
    if is_echo(status) || is_mention(text) {
        VerdictView::Skip
    } else {
        VerdictView::Publish(text)
    }
}

/// What to do with `status`.
pub open spec fn verdict_of(status: StatusView) -> VerdictView {
    judged(status, plain_text(status.content))
}

/// What an answer to a post means.
pub open spec fn outcome_of(status: Option<u16>) -> Outcome {
    match status {
        Some(code) => if is_success(code) {
            Outcome::Accepted
        } else if code == RATE_LIMITED {
            Outcome::RateLimited
        } else {
            Outcome::Failed
        },
        None => Outcome::Failed,
    }
}

/// The batch in the order in which it is considered: oldest first, the
/// reverse of the order in which the server sends it.
pub open spec fn oldest_first(batch: Seq<StatusView>) -> Seq<StatusView> {
    Seq::new(batch.len(), |i: int| batch[batch.len() - 1 - i])
}

/// The media identifiers of the uploads that succeeded, in order.
pub open spec fn accepted_ids(replies: Seq<Option<ReplyView>>) -> Seq<Seq<char>>
    decreases replies.len(),
{
    if replies.len() == 0 {
        Seq::empty()
    } else {
        let before = accepted_ids(replies.drop_last());
        match replies.last() {
            Some(reply) => match media_id_of(reply) {
                Ok(id) => before.push(id),
                Err(_) => before,
            },
            None => before,
        }
    }
}

/// The state after the posts at the head of `queue` that are to be skipped
/// were passed over: the watermark stands at the last of them, and the first
/// post to publish, if any is left, is in hand.
pub open spec fn settled(watermark: Seq<char>, queue: Seq<StatusView>) -> MirrorView
    decreases queue.len(),
{
    if queue.len() == 0 {
        MirrorView { watermark, stage: Stage::Resting, queue, draft: no_draft() }
    } else {
        match verdict_of(queue[0]) {
            VerdictView::Skip => settled(queue[0].id, queue.skip(1)),
            VerdictView::Publish(text) => MirrorView {
                watermark,
                stage: if queue[0].media.len() > 0 {
                    Stage::Uploading
                } else {
                    Stage::Publishing
                },
                queue: queue.skip(1),
                draft: DraftView {
                    id: queue[0].id,
                    text,
                    media: queue[0].media,
                    media_ids: Seq::empty(),
                },
            },
        }
    }
}

/// The state after `event`. An event that does not answer the action of the
/// stage changes nothing.
pub open spec fn handled(m: MirrorView, event: EventView) -> MirrorView {
    match (m.stage, event) {
        (Stage::Polling, EventView::Fetched(Some(batch))) => settled(
            m.watermark,
            oldest_first(batch),
        ),
        (Stage::Polling, EventView::Fetched(None)) => MirrorView {
            watermark: m.watermark,
            stage: Stage::Resting,
            queue: m.queue,
            draft: m.draft,
        },
        (Stage::Uploading, EventView::Uploaded(replies)) => MirrorView {
            watermark: m.watermark,
            stage: Stage::Publishing,
            queue: m.queue,
            draft: DraftView {
                id: m.draft.id,
                text: m.draft.text,
                media: m.draft.media,
                media_ids: accepted_ids(replies),
            },
        },
        (Stage::Publishing, EventView::Published(status)) => match outcome_of(status) {
            Outcome::Accepted => MirrorView {
                watermark: m.draft.id,
                stage: Stage::Pausing,
                queue: m.queue,
                draft: no_draft(),
            },
            Outcome::RateLimited => MirrorView {
                watermark: m.watermark,
                stage: Stage::CoolingDown,
                queue: m.queue,
                draft: no_draft(),
            },
            Outcome::Failed => MirrorView {
                watermark: m.watermark,
                stage: Stage::Pausing,
                queue: m.queue,
                draft: no_draft(),
            },
        },
        (Stage::CoolingDown, EventView::Slept) => MirrorView {
            watermark: m.watermark,
            stage: Stage::Pausing,
            queue: m.queue,
            draft: m.draft,
        },
        (Stage::Pausing, EventView::Slept) => settled(m.watermark, m.queue),
        (Stage::Resting, EventView::Slept) => MirrorView {
            watermark: m.watermark,
            stage: Stage::Polling,
            queue: m.queue,
            draft: m.draft,
        },
        _ => m,
    }
}

/// What the driver is to do in the state `m`.
pub open spec fn action_of(m: MirrorView) -> ActionView {
    match m.stage {
        Stage::Polling => ActionView::Fetch { since_id: m.watermark },
        Stage::Uploading => ActionView::Upload {
            plans: m.draft.media.map_values(|media: MediaView| plan_of(media)),
        },
        Stage::Publishing => ActionView::Publish {
            text: m.draft.text,
            visibility: PUBLISH_VISIBILITY@,
            media_ids: m.draft.media_ids,
        },
        Stage::CoolingDown => ActionView::Sleep { seconds: COOLDOWN_SECONDS },
        Stage::Pausing => ActionView::Sleep { seconds: POST_DELAY_SECONDS },
        Stage::Resting => ActionView::Sleep { seconds: CYCLE_DELAY_SECONDS },
    }
}

/// The state in which a loop starts: about to fetch what is newer than
/// `watermark`, with no post waiting and none in hand.
pub open spec fn started(watermark: Seq<char>) -> MirrorView {
    MirrorView { watermark, stage: Stage::Polling, queue: Seq::empty(), draft: no_draft() }
}

/// The state after the events `events`, one after the other.
pub open spec fn run(m: MirrorView, events: Seq<EventView>) -> MirrorView
    decreases events.len(),
{
    if events.len() == 0 {
        m
    } else {
        handled(run(m, events.drop_last()), events.last())
    }
}

/// The watermark at the start: the id of the most recent post that exists,
/// or nothing where the account has no post.
pub open spec fn first_watermark(latest: Seq<StatusView>) -> Seq<char> {
    if latest.len() > 0 {
        latest[0].id
    } else {
        Seq::empty()
    }
}

/// The id of the account that a credential check names, if it names one.
pub open spec fn owner_id_of(body: Seq<char>) -> Option<Seq<char>> {
    match member_of(body, ACCOUNT_ID_KEY@) {
        Some(Some(id)) => Some(id),
        _ => None,
    }
}

/// What to do with `status`, given its plain text.
pub fn judge(status: &Status, text: String) -> (verdict: Verdict)
    ensures
        verdict@ == judged(status@, text@),
{
    if status.reblog || status.in_reply_to_id.is_some() {
        return Verdict::Skip;
    }
    if !text.as_str().is_empty() && text.as_str().get_char(0) == '@' {
        Verdict::Skip
    } else {
        Verdict::Publish(text)
    }
}

/// What to do with `status`. The text of a reblog or of a reply is not
/// looked at; for any other post the call fails only where the engine
/// refuses the tag pattern.
pub fn assess(status: &Status) -> (out: Result<Verdict, PatternRefused>)
    ensures
        out is Ok <==> is_echo(status@) || pattern_compiles(TAG_PATTERN@),
        out matches Ok(verdict) ==> verdict@ == verdict_of(status@),
{
    if status.reblog || status.in_reply_to_id.is_some() {
        return Ok(Verdict::Skip);
    }
    match clean_html(status.content.as_str()) {
        Ok(text) => Ok(judge(status, text)),
        Err(refused) => Err(refused),
    }
}

/// What an answer to a post means.
pub fn grade_publish(status: Option<u16>) -> (outcome: Outcome)
    ensures
        outcome == outcome_of(status),
{
    match status {
        Some(code) => if status_is_success(code) {
            Outcome::Accepted
        } else if code == RATE_LIMITED {
            Outcome::RateLimited
        } else {
            Outcome::Failed
        },
        None => Outcome::Failed,
    }
}

/// The media identifiers of the uploads that succeeded, in order.
pub fn collect_media_ids(replies: &Vec<Option<Reply>>) -> (ids: Vec<String>)
    ensures
        id_views(ids@) == accepted_ids(reply_views(replies@)),
{
    let mut ids: Vec<String> = Vec::new();
    let mut i: usize = 0;
    while i < replies.len()
        invariant
            i <= replies.len(),
            id_views(ids@) == accepted_ids(reply_views(replies@).take(i as int)),
        decreases replies.len() - i,
    {
        match &replies[i] {
            Some(reply) => match read_upload_reply(reply) {
                Ok(id) => {
                    ids.push(id);
                },
                Err(_) => {},
            },
            None => {},
        }
        i += 1;
        assert(reply_views(replies@).take(i as int).drop_last() == reply_views(replies@).take(
            i - 1,
        ));
    }
    assert(reply_views(replies@).take(replies@.len() as int) == reply_views(replies@));
    ids
}

/// The watermark at the start, given the answer to the request for the most
/// recent post.
pub fn initial_watermark(latest: &Vec<Status>) -> (watermark: String)
    ensures
        watermark@ == first_watermark(status_views(latest@)),
{
    if latest.len() > 0 {
        latest[0].id.clone()
    } else {
        String::new()
    }
}

/// Reads the id of the owner from the body of the answer to a credential
/// check.
pub fn read_owner_id(body: &str) -> (id: Option<String>)
    ensures
        option_chars(id) == owner_id_of(body@),
{
    match string_member(body, ACCOUNT_ID_KEY) {
        Member::Found(id) => Some(id),
        _ => None,
    }
}

/// The post in hand.
#[derive(Debug)]
struct Draft {
    id: String,
    text: String,
    media: Vec<Media>,
    media_ids: Vec<String>,
}

impl Draft {
    spec fn view(&self) -> DraftView {
        DraftView {
            id: self.id@,
            text: self.text@,
            media: media_views(self.media@),
            media_ids: id_views(self.media_ids@),
        }
    }

    fn none() -> (draft: Draft)
        ensures
            draft@ == no_draft(),
    {
        let draft = Draft {
            id: String::new(),
            text: String::new(),
            media: Vec::new(),
            media_ids: Vec::new(),
        };
        assert(media_views(draft.media@) == Seq::<MediaView>::empty());
        assert(id_views(draft.media_ids@) == Seq::<Seq<char>>::empty());
        draft
    }
}

/// A copy of `ids`.
fn copy_ids(ids: &Vec<String>) -> (out: Vec<String>)
    ensures
        id_views(out@) == id_views(ids@),
{
    let mut out: Vec<String> = Vec::new();
    let mut i: usize = 0;
    while i < ids.len()
        invariant
            i <= ids.len(),
            out@.len() == i,
            forall|k: int| 0 <= k < i ==> out@[k]@ == ids@[k]@,
        decreases ids.len() - i,
    {
        out.push(ids[i].clone());
        i += 1;
    }
    out
}

/// The upload plans for `media`, one for one.
fn plan_uploads(media: &Vec<Media>) -> (plans: Vec<UploadPlan>)
    ensures
        plan_views(plans@) == media_views(media@).map_values(|m: MediaView| plan_of(m)),
{
    let mut plans: Vec<UploadPlan> = Vec::new();
    let mut i: usize = 0;
    while i < media.len()
        invariant
            i <= media.len(),
            plans@.len() == i,
            forall|k: int| 0 <= k < i ==> plans@[k]@ == plan_of(media@[k]@),
        decreases media.len() - i,
    {
        plans.push(plan_upload(&media[i]));
        i += 1;
    }
    plans
}

/// The mirror loop of one source account. A mirror exists only where the
/// engine accepted the tag pattern.
#[derive(Debug)]
pub struct Mirror {
    watermark: String,
    stage: Stage,
    /// The posts still to be considered, newest first: the last one is next.
    queue: Vec<Status>,
    draft: Draft,
}

impl Mirror {
    /// The engine accepted the tag pattern. This holds of every mirror that
    /// exists at run time.
    #[verifier::type_invariant]
    pub open spec fn well_formed(&self) -> bool {
        pattern_compiles(TAG_PATTERN@)
    }

    /// The state of the loop.
    pub closed spec fn view(&self) -> MirrorView {
        MirrorView {
            watermark: self.watermark@,
            stage: self.stage,
            queue: oldest_first(status_views(self.queue@)),
            draft: self.draft@,
        }
    }

    /// A loop that is about to fetch what is newer than `watermark`. Fails
    /// only where the engine refuses the tag pattern.
    pub fn start(watermark: String) -> (out: Result<Mirror, PatternRefused>)
        ensures
            out is Ok <==> pattern_compiles(TAG_PATTERN@),
            out matches Ok(mirror) ==> mirror@ == started(watermark@),
    {
        if ensure_accepted(TAG_PATTERN).is_ok() {
            let mirror = Mirror {
                watermark,
                stage: Stage::Polling,
                queue: Vec::new(),
                draft: Draft::none(),
            };
            assert(mirror@.queue == Seq::<StatusView>::empty());
            Ok(mirror)
        } else {
            Err(PatternRefused)
        }
    }

    /// The id of the newest post that was dealt with.
    pub fn watermark(&self) -> (id: &String)
        ensures
            id@ == self@.watermark,
    {
        &self.watermark
    }

    /// Where the loop stands.
    pub fn stage(&self) -> (stage: Stage)
        ensures
            stage == self@.stage,
    {
        self.stage
    }

    /// What the driver is to do next.
    pub fn action(&self) -> (action: Action)
        ensures
            action@ == action_of(self@),
    {
        match self.stage {
            Stage::Polling => Action::Fetch { since_id: self.watermark.clone() },
            Stage::Uploading => Action::Upload { plans: plan_uploads(&self.draft.media) },
            Stage::Publishing => Action::Publish {
                text: self.draft.text.clone(),
                visibility: String::from_str(PUBLISH_VISIBILITY),
                media_ids: copy_ids(&self.draft.media_ids),
            },
            Stage::CoolingDown => Action::Sleep { seconds: COOLDOWN_SECONDS },
            Stage::Pausing => Action::Sleep { seconds: POST_DELAY_SECONDS },
            Stage::Resting => Action::Sleep { seconds: CYCLE_DELAY_SECONDS },
        }
    }

    /// Passes over the posts at the end of `queue` that are to be skipped,
    /// and takes the first post to publish in hand.
    fn settle(watermark: String, queue: Vec<Status>) -> (out: Mirror)
        requires
            pattern_compiles(TAG_PATTERN@),
        ensures
            out@ == settled(watermark@, oldest_first(status_views(queue@))),
    {
        let ghost goal = settled(watermark@, oldest_first(status_views(queue@)));
        let mut mark = watermark;
        let mut rest = queue;
        loop
            invariant
                pattern_compiles(TAG_PATTERN@),
                goal == settled(watermark@, oldest_first(status_views(queue@))),
                settled(mark@, oldest_first(status_views(rest@))) == goal,
            decreases rest.len(),
        {
            let ghost before = oldest_first(status_views(rest@));
            match rest.pop() {
                None => {
                    return Mirror {
                        watermark: mark,
                        stage: Stage::Resting,
                        queue: rest,
                        draft: Draft::none(),
                    };
                },
                Some(post) => {
                    assert(oldest_first(status_views(rest@)) == before.skip(1));
                    match assess(&post) {
                        Ok(Verdict::Skip) => {
                            mark = post.id;
                        },
                        Ok(Verdict::Publish(text)) => {
                            let stage = if post.media_attachments.len() > 0 {
                                Stage::Uploading
                            } else {
                                Stage::Publishing
                            };
                            let draft = Draft {
                                id: post.id,
                                text,
                                media: post.media_attachments,
                                media_ids: Vec::new(),
                            };
                            assert(id_views(draft.media_ids@) == Seq::<Seq<char>>::empty());
                            return Mirror { watermark: mark, stage, queue: rest, draft };
                        },
                        Err(_) => {
                            return unreached();
                        },
                    }
                },
            }
        }
    }

    /// Takes what came of the last action. An event that does not answer
    /// the action of the stage changes nothing.
    pub fn handle(self, event: Event) -> (out: Mirror)
        ensures
            out@ == handled(self@, event@),
    {
        proof {
            use_type_invariant(&self);
        }
        let Mirror { watermark, stage, queue, draft } = self;
        match stage {
            Stage::Polling => match event {
                Event::Fetched(Some(batch)) => Mirror::settle(watermark, batch),
                Event::Fetched(None) => Mirror { watermark, stage: Stage::Resting, queue, draft },
                _ => Mirror { watermark, stage, queue, draft },
            },
            Stage::Uploading => match event {
                Event::Uploaded(replies) => {
                    let media_ids = collect_media_ids(&replies);
                    let Draft { id, text, media, media_ids: _ } = draft;
                    Mirror {
                        watermark,
                        stage: Stage::Publishing,
                        queue,
                        draft: Draft { id, text, media, media_ids },
                    }
                },
                _ => Mirror { watermark, stage, queue, draft },
            },
            Stage::Publishing => match event {
                Event::Published(status) => match grade_publish(status) {
                    Outcome::Accepted => Mirror {
                        watermark: draft.id,
                        stage: Stage::Pausing,
                        queue,
                        draft: Draft::none(),
                    },
                    Outcome::RateLimited => Mirror {
                        watermark,
                        stage: Stage::CoolingDown,
                        queue,
                        draft: Draft::none(),
                    },
                    Outcome::Failed => Mirror {
                        watermark,
                        stage: Stage::Pausing,
                        queue,
                        draft: Draft::none(),
                    },
                },
                _ => Mirror { watermark, stage, queue, draft },
            },
            Stage::CoolingDown => match event {
                Event::Slept => Mirror { watermark, stage: Stage::Pausing, queue, draft },
                _ => Mirror { watermark, stage, queue, draft },
            },
            Stage::Pausing => match event {
                Event::Slept => Mirror::settle(watermark, queue),
                _ => Mirror { watermark, stage, queue, draft },
            },
            Stage::Resting => match event {
                Event::Slept => Mirror { watermark, stage: Stage::Polling, queue, draft },
                _ => Mirror { watermark, stage, queue, draft },
            },
        }
    }
}

} // verus!
