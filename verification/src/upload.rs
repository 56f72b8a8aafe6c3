//! Re-upload of media: what to send for an attachment, and what the
//! target's answer means.

use crate::json::{member_of, string_member, Member};
use crate::pattern::option_chars;
use crate::text::{from_char_range, last_segment, last_segment_start, to_chars};
use vstd::prelude::*;
use vstd::string::StringExecFns;

verus! {

/// The content type under which every attachment is sent.
pub const UPLOAD_CONTENT_TYPE: &'static str = "application/octet-stream";

/// The file name under which an attachment is sent when its address names
/// none.
pub const FALLBACK_FILE_NAME: &'static str = "file.jpg";

/// The member of the target's answer that holds the media identifier.
pub const MEDIA_ID_KEY: &'static str = "id";

/// An attachment of a post.
#[derive(Debug, Clone, PartialEq, Eq)]
pub struct Media {
    pub url: String,
    pub description: Option<String>,
}

/// An attachment, as character sequences.
pub struct MediaView {
    pub url: Seq<char>,
    pub description: Option<Seq<char>>,
}

impl View for Media {
    type V = MediaView;

    open spec fn view(&self) -> MediaView {
        MediaView { url: self.url@, description: option_chars(self.description) }
    }
}

/// What to send to the target for one attachment.
#[derive(Debug, Clone, PartialEq, Eq)]
pub struct UploadPlan {
    pub source_url: String,
    pub file_name: String,
    pub content_type: String,
    pub description: Option<String>,
}

/// An upload plan, as character sequences.
pub struct UploadPlanView {
    pub source_url: Seq<char>,
    pub file_name: Seq<char>,
    pub content_type: Seq<char>,
    pub description: Option<Seq<char>>,
}

impl View for UploadPlan {
    type V = UploadPlanView;

    open spec fn view(&self) -> UploadPlanView {
        UploadPlanView {
            source_url: self.source_url@,
            file_name: self.file_name@,
            content_type: self.content_type@,
            description: option_chars(self.description),
        }
    }
}

/// The target's answer to a request: the status code and the body.
#[derive(Debug, Clone, PartialEq, Eq)]
pub struct Reply {
    pub status: u16,
    pub body: String,
}

/// An answer, as plain values.
pub struct ReplyView {
    pub status: u16,
    pub body: Seq<char>,
}

impl View for Reply {
    type V = ReplyView;

    open spec fn view(&self) -> ReplyView {
        ReplyView { status: self.status, body: self.body@ }
    }
}

/// Why an upload yielded no media identifier.
#[derive(Debug, Clone, Copy, PartialEq, Eq, Structural)]
pub enum UploadFailure {
    /// The target answered with this status, which is no success.
    Rejected(u16),
    /// The body of the answer is not JSON.
    Malformed,
    /// The answer holds no string identifier.
    NoIdentifier,
}

/// Whether `status` is a success: 200 to 299.
pub open spec fn is_success(status: u16) -> bool {
    200 <= status < 300
}

/// The file name under which the attachment at `url` is sent: what follows
/// the last slash of `url`, or the fallback name where nothing follows it.
pub open spec fn file_name_of(url: Seq<char>) -> Seq<char> {
    if last_segment(url, '/').len() == 0 {
        FALLBACK_FILE_NAME@
    } else {
        last_segment(url, '/')
    }
}

/// What to send for `media`.
pub open spec fn plan_of(media: MediaView) -> UploadPlanView {
    UploadPlanView {
        source_url: media.url,
        file_name: file_name_of(media.url),
        content_type: UPLOAD_CONTENT_TYPE@,
        description: media.description,
    }
}

/// What an answer with `status` means, given what its body holds under the
/// identifier key.
pub open spec fn graded(status: u16, member: Option<Option<Seq<char>>>) -> Result<
    Seq<char>,
    UploadFailure,
> {
    if !is_success(status) {
        Err(UploadFailure::Rejected(status))
    } else {
        match member {
            None => Err(UploadFailure::Malformed),
            Some(None) => Err(UploadFailure::NoIdentifier),
            Some(Some(id)) => Ok(id),
        }
    }
}

/// The media identifier that an answer carries, or why it carries none.
pub open spec fn media_id_of(reply: ReplyView) -> Result<Seq<char>, UploadFailure> {
    graded(reply.status, member_of(reply.body, MEDIA_ID_KEY@))
}

/// The character sequence of the identifier in a result.
pub open spec fn id_chars(outcome: Result<String, UploadFailure>) -> Result<
    Seq<char>,
    UploadFailure,
> {
    match outcome {
        Ok(id) => Ok(id@),
        Err(failure) => Err(failure),
    }
}

/// Whether `status` is a success.
pub fn status_is_success(status: u16) -> (b: bool)
    ensures
        b == is_success(status),
{
    200 <= status && status < 300
}

/// The file name under which the attachment at `url` is sent.
pub fn media_file_name(url: &str) -> (name: String)
    ensures
        name@ == file_name_of(url@),
{
    let chars = to_chars(url);
    let from = last_segment_start(&chars, '/');
    if from == chars.len() {
        String::from_str(FALLBACK_FILE_NAME)
    } else {
        from_char_range(&chars, from, chars.len())
    }
}

/// What to send for `media`.
pub fn plan_upload(media: &Media) -> (plan: UploadPlan)
    ensures
        plan@ == plan_of(media@),
{
    UploadPlan {
        source_url: media.url.clone(),
        file_name: media_file_name(media.url.as_str()),
        content_type: String::from_str(UPLOAD_CONTENT_TYPE),
        description: media.description.clone(),
    }
}

/// What an answer with `status` means, given what its body holds under the
/// identifier key.
pub fn grade_upload(status: u16, member: Member) -> (outcome: Result<String, UploadFailure>)
    ensures
        id_chars(outcome) == graded(status, member@),
{
    if !status_is_success(status) {
        Err(UploadFailure::Rejected(status))
    } else {
        match member {
            Member::Malformed => Err(UploadFailure::Malformed),
            Member::Missing => Err(UploadFailure::NoIdentifier),
            Member::Found(id) => Ok(id),
        }
    }
}

/// Reads the media identifier from the target's answer to an upload.
pub fn read_upload_reply(reply: &Reply) -> (outcome: Result<String, UploadFailure>)
    ensures
        id_chars(outcome) == media_id_of(reply@),
{
    grade_upload(reply.status, string_member(reply.body.as_str(), MEDIA_ID_KEY))
}

} // verus!
