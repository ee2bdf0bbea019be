//! The persistence stage's pure core: the canonical source link that serves
//! as the archive's dedup key, the archive-side dedup index consulted before
//! a post is re-fetched, the archive-neutral post record builder, and the
//! all-or-nothing file-placement check that gates a post's commit.

use vstd::prelude::*;
use vstd::string::StringExecFns;
use crate::body::Content;
use crate::body::spec_body_content;
use crate::body::content_views;
use crate::fanbox::Comment;
use crate::fanbox::KeyedList;
use crate::fanbox::Post;
use crate::fanbox::PostListItem;
use crate::fanbox::spec_lookup;
use crate::files::FanboxFileMeta;
use crate::files::FileMeta;
use crate::strings::str_eq;
use crate::strings::views;

verus! {

/// The canonical URL identifying a post inside the archive store.
pub open spec fn spec_source_link(creator_id: Seq<char>, post_id: Seq<char>) -> Seq<char> {
    "https://"@ + creator_id + ".fanbox.cc/posts/"@ + post_id
}

/// Build the canonical dedup key `https://{creator}.fanbox.cc/posts/{post}`.
pub fn get_source_link(creator_id: &str, post_id: &str) -> (r: String)
    ensures
        r@ == spec_source_link(creator_id@, post_id@),
{
    let mut s = String::from_str("https://");
    s.append(creator_id);
    s.append(".fanbox.cc/posts/");
    s.append(post_id);
    s
}

/// What the archive store already holds, as the sync stage consults it:
/// the `(source link, updated timestamp)` pairs of the imported posts.
pub struct ArchiveIndex {
    pub entries: Vec<(String, i64)>,
}

/// The index holds a post with this source link and this exact updated
/// timestamp.
pub open spec fn spec_archived(entries: Seq<(String, i64)>, source: Seq<char>, updated: i64) -> bool {
    exists|i: int|
        0 <= i < entries.len() && (#[trigger] entries[i]).0@ == source && entries[i].1 == updated
}

impl ArchiveIndex {
    pub fn new() -> (r: ArchiveIndex)
        ensures
            r.entries@.len() == 0,
    {
        ArchiveIndex { entries: Vec::new() }
    }

    /// Record one imported post.
    pub fn record(&mut self, source: String, updated: i64)
        ensures
            final(self).entries@ == old(self).entries@.push((source, updated)),
    {
        self.entries.push((source, updated));
    }

    /// The store's dedup check: is a post with this source link and this
    /// updated timestamp already imported?
    pub fn contains(&self, source: &str, updated: i64) -> (r: bool)
        ensures
            r == spec_archived(self.entries@, source@, updated),
    {
        let mut i: usize = 0;
        while i < self.entries.len()
            invariant
                i <= self.entries@.len(),
                forall|j: int|
                    0 <= j < i ==> !((#[trigger] self.entries@[j]).0@ == source@
                        && self.entries@[j].1 == updated),
            decreases self.entries@.len() - i,
        {
            if self.entries[i].1 == updated && str_eq(self.entries[i].0.as_str(), source) {
                return true;
            }
            i += 1;
        }
        false
    }
}

/// Whether a listed post still needs a full fetch and sync: true exactly
/// when the archive holds no record with the same source link and the same
/// updated timestamp.
pub fn filter_unsynced_post(archived: &ArchiveIndex, post: &PostListItem) -> (r: bool)
    ensures
        r == !spec_archived(
            archived.entries@,
            spec_source_link(post.creator_id@, post.id@),
            post.updated_datetime,
        ),
{
    let source = get_source_link(post.creator_id.as_str(), post.id.as_str());
    !archived.contains(source.as_str(), post.updated_datetime)
}

/// Every placement's source URL resolves in the download reply.
pub open spec fn spec_all_placements_resolved(
    placements: Seq<(String, String)>,
    reply: Seq<(String, String)>,
) -> bool {
    forall|i: int|
        0 <= i < placements.len() ==> spec_lookup(reply, (#[trigger] placements[i]).1@) is Some
}

/// The atomic file gate of a post's commit: pair every expected placement
/// `(final path, source URL)` with the downloaded file the reply holds for
/// that URL. The post may commit only when every placement resolves; one
/// missing URL aborts the whole post, and the first missing URL is named.
pub fn match_placements(
    placements: &Vec<(String, String)>,
    reply: &KeyedList<String>,
) -> (r: Result<Vec<(String, String)>, String>)
    ensures
        r is Ok <==> spec_all_placements_resolved(placements@, reply.entries@),
        r matches Ok(a) ==> a@.len() == placements@.len() && (forall|i: int|
            0 <= i < placements@.len() ==> (#[trigger] a@[i]).0@ == placements@[i].0@
                && spec_lookup(reply.entries@, placements@[i].1@) == Some(a@[i].1)),
        r matches Err(u) ==> exists|i: int|
            0 <= i < placements@.len() && (#[trigger] placements@[i]).1@ == u@ && spec_lookup(
                reply.entries@,
                placements@[i].1@,
            ) is None,
{
    let mut out: Vec<(String, String)> = Vec::new();
    let mut i: usize = 0;
    while i < placements.len()
        invariant
            i <= placements@.len(),
            out@.len() == i,
            forall|j: int|
                0 <= j < i ==> (#[trigger] out@[j]).0@ == placements@[j].0@ && spec_lookup(
                    reply.entries@,
                    placements@[j].1@,
                ) == Some(out@[j].1),
        decreases placements@.len() - i,
    {
        match reply.get(placements[i].1.as_str()) {
            Some(temp) => {
                out.push((placements[i].0.clone(), temp.clone()));
            },
            None => {
                assert(!spec_all_placements_resolved(placements@, reply.entries@));
                return Err(placements[i].1.clone());
            },
        }
        i += 1;
    }
    assert forall|j: int| 0 <= j < placements@.len() implies spec_lookup(
        reply.entries@,
        (#[trigger] placements@[j]).1@,
    ) is Some by {
        assert(spec_lookup(reply.entries@, placements@[j].1@) == Some(out@[j].1));
    }
    Ok(out)
}

/// The lifecycle of one post inside the persistence stage. Terminal states
/// are final: an aborted post is not retried within the run, only picked up
/// by a later run's re-scan if its timestamp never advanced.
#[derive(Debug, PartialEq, Eq, Structural, Clone, Copy)]
pub enum PostSyncState {
    /// The full post and its comments are in hand.
    Fetched,
    /// Its file downloads have been requested.
    FilesRequested,
    /// The post waits on the download reply.
    AwaitingFiles,
    /// Every placement resolved and the transaction committed.
    Committed,
    /// Something was missing; nothing was committed.
    Aborted,
}

/// A state no step ever leaves.
pub open spec fn spec_sync_terminal(s: PostSyncState) -> bool {
    s == PostSyncState::Committed || s == PostSyncState::Aborted
}

impl PostSyncState {
    /// One lifecycle step: fetched posts request their files, requested
    /// posts await the reply, and an awaiting post commits exactly when the
    /// reply resolved every placement — otherwise it aborts.
    pub fn step(self, files_complete: bool) -> (r: PostSyncState)
        requires
            !spec_sync_terminal(self),
        ensures
            self == PostSyncState::Fetched ==> r == PostSyncState::FilesRequested,
            self == PostSyncState::FilesRequested ==> r == PostSyncState::AwaitingFiles,
            self == PostSyncState::AwaitingFiles ==> r == if files_complete {
                PostSyncState::Committed
            } else {
                PostSyncState::Aborted
            },
            r == PostSyncState::Committed ==> self == PostSyncState::AwaitingFiles
                && files_complete,
    {
        match self {
            PostSyncState::Fetched => PostSyncState::FilesRequested,
            PostSyncState::FilesRequested => PostSyncState::AwaitingFiles,
            PostSyncState::AwaitingFiles => {
                if files_complete {
                    PostSyncState::Committed
                } else {
                    PostSyncState::Aborted
                }
            },
            _ => unreached(),
        }
    }

    /// Resolve an awaiting post against its download reply: committed with
    /// the matched placements when every placement resolved, aborted
    /// otherwise.
    pub fn resolve(
        self,
        placements: &Vec<(String, String)>,
        reply: &KeyedList<String>,
    ) -> (r: (PostSyncState, Option<Vec<(String, String)>>))
        requires
            self == PostSyncState::AwaitingFiles,
        ensures
            r.0 == PostSyncState::Committed <==> spec_all_placements_resolved(
                placements@,
                reply.entries@,
            ),
            r.0 == PostSyncState::Committed || r.0 == PostSyncState::Aborted,
            r.0 == PostSyncState::Committed <==> r.1 is Some,
    {
        match match_placements(placements, reply) {
            Ok(matched) => (self.step(true), Some(matched)),
            Err(_) => (self.step(false), None),
        }
    }
}

/// One archived comment: author name, body text, and the replies under a
/// root comment.
#[derive(Debug, PartialEq, Eq)]
pub struct ArchiveComment {
    pub user: String,
    pub text: String,
    pub replies: Vec<ArchiveComment>,
}

/// A converted reply: author name and body text, nothing deeper.
pub open spec fn spec_reply_converted(a: ArchiveComment, c: Comment) -> bool {
    a.user@ == c.user.name@ && a.text@ == c.body@ && a.replies@.len() == 0
}

/// A converted root comment: author name, body text, and each reply
/// converted in order. The platform's comment trees have depth one, so
/// nothing deeper is carried.
pub open spec fn spec_comment_converted(a: ArchiveComment, c: Comment) -> bool {
    let replies = match c.replies {
        Some(rs) => rs@,
        None => Seq::<Comment>::empty(),
    };
    &&& a.user@ == c.user.name@
    &&& a.text@ == c.body@
    &&& a.replies@.len() == replies.len()
    &&& forall|j: int|
        0 <= j < replies.len() ==> spec_reply_converted(a.replies@[j], #[trigger] replies[j])
}

/// The converted comments mirror the fetched ones, in order.
pub open spec fn spec_comments_converted(out: Seq<ArchiveComment>, input: Seq<Comment>) -> bool {
    &&& out.len() == input.len()
    &&& forall|i: int|
        0 <= i < input.len() ==> spec_comment_converted(out[i], #[trigger] input[i])
}

/// Convert one reply, which carries no further nesting.
fn convert_reply(c: &Comment) -> (r: ArchiveComment)
    ensures
        spec_reply_converted(r, *c),
{
    ArchiveComment { user: c.user.name.clone(), text: c.body.clone(), replies: Vec::new() }
}

/// Convert the fetched comment list into archive comments.
pub fn convert_comments(comments: &Vec<Comment>) -> (r: Vec<ArchiveComment>)
    ensures
        spec_comments_converted(r@, comments@),
{
    let mut out: Vec<ArchiveComment> = Vec::new();
    let mut i: usize = 0;
    while i < comments.len()
        invariant
            i <= comments@.len(),
            out@.len() == i,
            forall|m: int|
                0 <= m < i ==> spec_comment_converted(out@[m], #[trigger] comments@[m]),
        decreases comments@.len() - i,
    {
        let c = &comments[i];
        let mut replies: Vec<ArchiveComment> = Vec::new();
        match &c.replies {
            Some(rs) => {
                let mut j: usize = 0;
                while j < rs.len()
                    invariant
                        j <= rs@.len(),
                        replies@.len() == j,
                        forall|k: int|
                            0 <= k < j ==> spec_reply_converted(replies@[k], #[trigger] rs@[k]),
                    decreases rs@.len() - j,
                {
                    replies.push(convert_reply(&rs[j]));
                    j += 1;
                }
            },
            None => {},
        }
        let converted = ArchiveComment {
            user: c.user.name.clone(),
            text: c.body.clone(),
            replies,
        };
        proof {
            assert(spec_comment_converted(converted, comments@[i as int]));
        }
        out.push(converted);
        i += 1;
    }
    out
}

/// An archive collection reference: the platform tag's name and its public
/// URL on the creator's page.
#[derive(Debug, PartialEq, Eq)]
pub struct CollectionRef {
    pub name: String,
    pub source: String,
}

/// The URL of a creator's tag page.
pub open spec fn spec_tag_link(creator_id: Seq<char>, tag: Seq<char>) -> Seq<char> {
    "https://"@ + creator_id + ".fanbox.cc/tags/"@ + tag
}

/// The archive-neutral record of one post, ready for the store's importer.
pub struct PostRecord {
    /// The platform identity the store assigned.
    pub platform: u64,
    /// The canonical source link, the store's dedup key.
    pub source: String,
    pub title: String,
    /// The cover image's download metadata, when the post has one.
    pub thumb: Option<FileMeta>,
    /// The transformed content sequence.
    pub content: Vec<Content>,
    pub comments: Vec<ArchiveComment>,
    /// One collection per platform tag.
    pub collections: Vec<CollectionRef>,
    /// The resolved author identities.
    pub authors: Vec<u64>,
    pub published: i64,
    pub updated: i64,
    /// The archive's own tags: the free tag and the content-rating tag.
    pub tags: Vec<String>,
}

/// The archive tags a post gets: `free` when no fee is required, `r-18`
/// when the platform marks adult content.
pub open spec fn spec_record_tags(post: Post) -> Seq<Seq<char>> {
    let base = Seq::<Seq<char>>::empty();
    let base = if post.fee_required == 0 {
        base.push("free"@)
    } else {
        base
    };
    if post.has_adult_content {
        base.push("r-18"@)
    } else {
        base
    }
}

/// Build the archive-neutral record for one fetched post: source link,
/// title, fee and rating tags, collections from the platform tags, the
/// cover thumbnail, the transformed content, the converted comments,
/// authorship and both timestamps. Fails exactly when the content transform
/// meets an unknown style kind; the record's second component lists the
/// embed providers that rendered nothing, for the caller to log.
pub fn build_post_record(
    platform: u64,
    author: u64,
    post: &Post,
    comments: &Vec<Comment>,
    files: &KeyedList<u64>,
) -> (r: Result<(PostRecord, Vec<String>), String>)
    requires
        post.body is Some,
    ensures
        match spec_body_content(post.body->0, files.entries@) {
            Err(e) => r matches Err(m) && m@ == e,
            Ok(acc) => r matches Ok(rec) && {
                &&& rec.0.platform == platform
                &&& rec.0.source@ == spec_source_link(post.creator_id@, post.id@)
                &&& rec.0.title@ == post.title@
                &&& (match post.cover_image_url {
                    Some(u) => rec.0.thumb matches Some(t) && t.filename@
                        == crate::files::spec_url_filename(u@) && t.mime@
                        == crate::files::spec_filename_mime(crate::files::spec_url_filename(u@))
                        && t.data@ == u@ && t.width == Some(1200u32) && t.height == Some(630u32),
                    None => rec.0.thumb is None,
                })
                &&& content_views(rec.0.content@) == acc.0
                &&& views(rec.1@) == acc.1
                &&& spec_comments_converted(rec.0.comments@, comments@)
                &&& rec.0.collections@.len() == post.tags@.len()
                &&& (forall|i: int|
                    0 <= i < post.tags@.len() ==> (#[trigger] rec.0.collections@[i]).name@
                        == post.tags@[i]@ && rec.0.collections@[i].source@ == spec_tag_link(
                        post.creator_id@,
                        post.tags@[i]@,
                    ))
                &&& rec.0.authors@ == seq![author]
                &&& rec.0.published == post.published_datetime
                &&& rec.0.updated == post.updated_datetime
                &&& views(rec.0.tags@) == spec_record_tags(*post)
            },
        },
{
    let body = post.body();
    let rendered = match body.content(files) {
        Ok(rendered) => rendered,
        Err(m) => {
            return Err(m);
        },
    };
    let source = get_source_link(post.creator_id.as_str(), post.id.as_str());
    let mut tags: Vec<String> = Vec::new();
    if post.fee_required == 0 {
        tags.push(crate::strings::to_owned_str("free"));
    }
    if post.has_adult_content {
        tags.push(crate::strings::to_owned_str("r-18"));
    }
    proof {
        assert(views(tags@) =~= spec_record_tags(*post));
    }
    let mut collections: Vec<CollectionRef> = Vec::new();
    let mut i: usize = 0;
    while i < post.tags.len()
        invariant
            i <= post.tags@.len(),
            collections@.len() == i,
            forall|j: int|
                0 <= j < i ==> (#[trigger] collections@[j]).name@ == post.tags@[j]@
                    && collections@[j].source@ == spec_tag_link(post.creator_id@, post.tags@[j]@),
        decreases post.tags@.len() - i,
    {
        let tag = post.tags[i].clone();
        let mut link = String::from_str("https://");
        link.append(post.creator_id.as_str());
        link.append(".fanbox.cc/tags/");
        link.append(tag.as_str());
        collections.push(CollectionRef { name: tag, source: link });
        i += 1;
    }
    let thumb = match &post.cover_image_url {
        Some(u) => {
            let mut meta = FileMeta::from_url(u.clone());
            meta.width = Some(1200);
            meta.height = Some(630);
            Some(meta)
        },
        None => None,
    };
    let comments = convert_comments(comments);
    let mut authors: Vec<u64> = Vec::new();
    authors.push(author);
    proof {
        assert(authors@ =~= seq![author]);
    }
    Ok(
        (
            PostRecord {
                platform,
                source,
                title: post.title.clone(),
                thumb,
                content: rendered.items,
                comments,
                collections,
                authors,
                published: post.published_datetime,
                updated: post.updated_datetime,
                tags,
            },
            rendered.skipped,
        ),
    )
}

/// One external alias of an author: the platform identity it belongs to,
/// the identifier there, and its public link.
#[derive(Debug, PartialEq, Eq)]
pub struct AliasRecord {
    pub platform: u64,
    pub external_id: String,
    pub link: String,
}

/// The author record the store resolves or creates: the display name and
/// the creator's identities on the platform and its parent site.
#[derive(Debug, PartialEq, Eq)]
pub struct AuthorRecord {
    pub name: String,
    pub aliases: Vec<AliasRecord>,
}

/// The creator's public page URL.
pub open spec fn spec_creator_link(creator_id: Seq<char>) -> Seq<char> {
    "https://"@ + creator_id + ".fanbox.cc/"@
}

/// The creator's profile URL on the parent site.
pub open spec fn spec_pixiv_link(user_id: Seq<char>) -> Seq<char> {
    "https://www.pixiv.net/users/"@ + user_id
}

/// Build the author record for a post's creator: the display name, the
/// platform alias under the creator id, and the parent-site alias under the
/// numeric user id, each with its public link.
pub fn build_author_record(fanbox_platform: u64, pixiv_platform: u64, post: &Post) -> (r:
    AuthorRecord)
    ensures
        r.name@ == post.user.name@,
        r.aliases@.len() == 2,
        r.aliases@[0].platform == fanbox_platform,
        r.aliases@[0].external_id@ == post.creator_id@,
        r.aliases@[0].link@ == spec_creator_link(post.creator_id@),
        r.aliases@[1].platform == pixiv_platform,
        r.aliases@[1].external_id@ == post.user.user_id@,
        r.aliases@[1].link@ == spec_pixiv_link(post.user.user_id@),
{
    let mut fanbox_link = String::from_str("https://");
    fanbox_link.append(post.creator_id.as_str());
    fanbox_link.append(".fanbox.cc/");
    let mut pixiv_link = String::from_str("https://www.pixiv.net/users/");
    pixiv_link.append(post.user.user_id.as_str());
    let mut aliases: Vec<AliasRecord> = Vec::new();
    aliases.push(
        AliasRecord {
            platform: fanbox_platform,
            external_id: post.creator_id.clone(),
            link: fanbox_link,
        },
    );
    aliases.push(
        AliasRecord {
            platform: pixiv_platform,
            external_id: post.user.user_id.clone(),
            link: pixiv_link,
        },
    );
    AuthorRecord { name: post.user.name.clone(), aliases }
}

/// The in-memory author-resolution cache the sync stage keeps for the run:
/// creator id to resolved author identity. Repeat posts by the same creator
/// resolve from here and never re-create the author record.
pub struct AuthorCache {
    pub entries: Vec<(String, u64)>,
}

impl AuthorCache {
    pub fn new() -> (r: AuthorCache)
        ensures
            r.entries@.len() == 0,
    {
        AuthorCache { entries: Vec::new() }
    }

    /// The cached author identity for a creator, if one was stored.
    pub fn get(&self, creator_id: &str) -> (r: Option<u64>)
        ensures
            match r {
                Some(a) => spec_lookup(self.entries@, creator_id@) == Some(a),
                None => spec_lookup(self.entries@, creator_id@) is None,
            },
    {
        let mut i: usize = 0;
        proof {
            assert(self.entries@.skip(0) =~= self.entries@);
        }
        while i < self.entries.len()
            invariant
                i <= self.entries@.len(),
                spec_lookup(self.entries@, creator_id@) == spec_lookup(
                    self.entries@.skip(i as int),
                    creator_id@,
                ),
            decreases self.entries@.len() - i,
        {
            proof {
                assert(self.entries@.skip(i as int)[0] == self.entries@[i as int]);
                assert(self.entries@.skip(i as int).drop_first() =~= self.entries@.skip(i + 1));
            }
            if str_eq(self.entries[i].0.as_str(), creator_id) {
                return Some(self.entries[i].1);
            }
            i += 1;
        }
        proof {
            assert(self.entries@.skip(self.entries@.len() as int) =~= Seq::<(String, u64)>::empty());
        }
        None
    }

    /// Cache a freshly resolved author. Stored first, it wins later lookups.
    pub fn insert(&mut self, creator_id: String, author: u64)
        ensures
            final(self).entries@ == old(self).entries@.push((creator_id, author)),
    {
        self.entries.push((creator_id, author));
    }
}

} // verus!
