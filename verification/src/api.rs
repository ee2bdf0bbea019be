//! The API client's decision core. The HTTP transport retries transient
//! failures outside this crate and hands back parsed `{body, error}`
//! envelopes; this module decides what an envelope means — success, a fatal
//! invalid session, or a malformed response — builds the endpoint URLs, and
//! walks the comment pagination cursor.

use vstd::prelude::*;
use vstd::string::StringExecFns;
use crate::fanbox::Comment;
use crate::fanbox::FanboxAPIResponse;
use crate::fanbox::PostComments;

verus! {

/// A permanent API failure, after the transport has exhausted its retries.
#[derive(Debug, PartialEq, Eq)]
pub enum ApiError {
    /// The error envelope reported the platform's generic error: the
    /// session is invalid or expired, and every later call will fail the
    /// same way, so the run must stop.
    InvalidSession,
    /// The envelope carried no body and an unrecognised error string, kept
    /// for diagnosis.
    InvalidResponse(String),
}

/// Unwrap a response envelope: a body means success; no body with the
/// platform's generic error string means the session is dead (fatal, never
/// retried); any other error string is a malformed response, reported with
/// its raw error text.
pub fn unwrap_envelope<T>(resp: FanboxAPIResponse<T>) -> (r: Result<T, ApiError>)
    ensures
        resp.body matches Some(b) ==> (r matches Ok(x) && x == b),
        resp.body is None && resp.error@ == "general_error"@ ==> r == Err::<T, ApiError>(
            ApiError::InvalidSession,
        ),
        resp.body is None && resp.error@ != "general_error"@ ==> (r matches Err(e) && e matches
            ApiError::InvalidResponse(m) && m@ == resp.error@),
{
    match resp.body {
        Some(b) => Ok(b),
        None => {
            if crate::strings::str_eq(resp.error.as_str(), "general_error") {
                Err(ApiError::InvalidSession)
            } else {
                Err(ApiError::InvalidResponse(resp.error))
            }
        },
    }
}

/// The supported-creators listing endpoint.
pub fn supporting_creators_url() -> (r: &'static str)
    ensures
        r@ == "https://api.fanbox.cc/plan.listSupporting"@,
{
    "https://api.fanbox.cc/plan.listSupporting"
}

/// The followed-creators listing endpoint.
pub fn following_creators_url() -> (r: &'static str)
    ensures
        r@ == "https://api.fanbox.cc/creator.listFollowing"@,
{
    "https://api.fanbox.cc/creator.listFollowing"
}

/// The paginated post-index endpoint for one creator.
pub fn paginate_creator_url(creator: &str) -> (r: String)
    ensures
        r@ == "https://api.fanbox.cc/post.paginateCreator?creatorId="@ + creator@,
{
    let mut s = String::from_str("https://api.fanbox.cc/post.paginateCreator?creatorId=");
    s.append(creator);
    s
}

/// The post-detail endpoint for one post.
pub fn post_info_url(post_id: &str) -> (r: String)
    ensures
        r@ == "https://api.fanbox.cc/post.info?postId="@ + post_id@,
{
    let mut s = String::from_str("https://api.fanbox.cc/post.info?postId=");
    s.append(post_id);
    s
}

/// The first comment page's endpoint for one post.
pub fn post_comments_url(post_id: &str) -> (r: String)
    ensures
        r@ == "https://api.fanbox.cc/post.getComments?postId="@ + post_id@ + "&limit=10"@,
{
    let mut s = String::from_str("https://api.fanbox.cc/post.getComments?postId=");
    s.append(post_id);
    s.append("&limit=10");
    s
}

/// The comment walk fetches nothing when the listing reported no comments.
pub fn should_fetch_comments(comment_count: u32) -> (r: bool)
    ensures
        r == (comment_count != 0),
{
    comment_count != 0
}

/// One step of the sequential comment walk: fold a fetched page into the
/// accumulated list and report the cursor for the next page. A page without
/// a comment list ends the walk with the accumulator unchanged.
pub fn comment_walk_step(acc: Vec<Comment>, page: PostComments) -> (r: (
    Vec<Comment>,
    Option<String>,
))
    ensures
        page.comment_list is None ==> r.0@ == acc@ && r.1 is None,
        page.comment_list matches Some(list) ==> r.0@ == acc@ + list.items@ && (match list
            .next_url {
            Some(u) => r.1 matches Some(v) && v@ == u@,
            None => r.1 is None,
        }),
{
    let mut acc = acc;
    match page.comment_list {
        None => (acc, None),
        Some(list) => {
            let mut items = list.items;
            acc.append(&mut items);
            (acc, list.next_url)
        },
    }
}

} // verus!
