//! The addresses and the authorization value of the requests that the two
//! subsystems send.

use vstd::prelude::*;
use vstd::string::StringExecFns;

verus! {

/// The authorization value for `token`.
pub open spec fn bearer_of(token: Seq<char>) -> Seq<char> {
    "Bearer "@ + token
}

/// The address that verifies the credentials on the instance at `base`.
pub open spec fn verify_credentials_url_of(base: Seq<char>) -> Seq<char> {
    base + "/api/v1/accounts/verify_credentials"@
}

/// The address of the first page of followers of `account_id`.
pub open spec fn followers_url_of(base: Seq<char>, account_id: Seq<char>) -> Seq<char> {
    base + "/api/v1/accounts/"@ + account_id + "/followers"@
}

/// The address of the most recent post of `account_id`.
pub open spec fn latest_status_url_of(base: Seq<char>, account_id: Seq<char>) -> Seq<char> {
    base + "/api/v1/accounts/"@ + account_id + "/statuses?limit=1"@
}

/// The address of the posts of `account_id` that are newer than `since_id`.
pub open spec fn statuses_since_url_of(
    base: Seq<char>,
    account_id: Seq<char>,
    since_id: Seq<char>,
) -> Seq<char> {
    base + "/api/v1/accounts/"@ + account_id + "/statuses?since_id="@ + since_id
}

/// The address that takes media uploads on the instance at `base`.
pub open spec fn media_url_of(base: Seq<char>) -> Seq<char> {
    base + "/api/v2/media"@
}

/// The address that takes new posts on the instance at `base`.
pub open spec fn publish_url_of(base: Seq<char>) -> Seq<char> {
    base + "/api/v1/statuses"@
}

/// The authorization value for `token`.
pub fn bearer(token: &str) -> (out: String)
    ensures
        out@ == bearer_of(token@),
{
    String::from_str("Bearer ").concat(token)
}

/// The address that verifies the credentials on the instance at `base`.
pub fn verify_credentials_url(base: &str) -> (out: String)
    ensures
        out@ == verify_credentials_url_of(base@),
{
    String::from_str(base).concat("/api/v1/accounts/verify_credentials")
}

/// The address of the first page of followers of `account_id`.
pub fn followers_url(base: &str, account_id: &str) -> (out: String)
    ensures
        out@ == followers_url_of(base@, account_id@),
{
    String::from_str(base).concat("/api/v1/accounts/").concat(account_id).concat("/followers")
}

/// The address of the most recent post of `account_id`.
pub fn latest_status_url(base: &str, account_id: &str) -> (out: String)
    ensures
        out@ == latest_status_url_of(base@, account_id@),
{
    String::from_str(base).concat("/api/v1/accounts/").concat(account_id).concat(
        "/statuses?limit=1",
    )
}

/// The address of the posts of `account_id` that are newer than `since_id`.
pub fn statuses_since_url(base: &str, account_id: &str, since_id: &str) -> (out: String)
    ensures
        out@ == statuses_since_url_of(base@, account_id@, since_id@),
{
    String::from_str(base).concat("/api/v1/accounts/").concat(account_id).concat(
        "/statuses?since_id=",
    ).concat(since_id)
}

/// The address that takes media uploads on the instance at `base`.
pub fn media_url(base: &str) -> (out: String)
    ensures
        out@ == media_url_of(base@),
{
    String::from_str(base).concat("/api/v2/media")
}

/// The address that takes new posts on the instance at `base`.
pub fn publish_url(base: &str) -> (out: String)
    ensures
        out@ == publish_url_of(base@),
{
    String::from_str(base).concat("/api/v1/statuses")
}

} // verus!
