//! The platform's data model, held as plain values: creators, post list
//! entries, full posts with their rich-text body, side tables keyed by
//! reference id, comments, and the API response envelope. Timestamps are
//! epoch seconds; URLs are strings. Every block reference id is looked up in
//! its side table at transform time; an unresolved id degrades to visible
//! text rather than failing the post.

use vstd::prelude::*;
use vstd::string::StringExecFns;

verus! {

/// A platform user: the numeric profile id and the display name.
#[derive(Debug, PartialEq, Eq)]
pub struct User {
    pub user_id: String,
    pub name: String,
}

impl Clone for User {
    fn clone(&self) -> (r: Self)
        ensures
            r == *self,
    {
        User { user_id: self.user_id.clone(), name: self.name.clone() }
    }
}

/// A creator to archive: identifier, display name and access-fee tier.
/// Snapshots are deduplicated by `creator_id`; on a duplicate the last-seen
/// fee wins.
#[derive(Debug, PartialEq, Eq)]
pub struct Creator {
    pub creator_id: String,
    pub name: String,
    pub fee: u32,
}

impl Clone for Creator {
    fn clone(&self) -> (r: Self)
        ensures
            r == *self,
    {
        Creator { creator_id: self.creator_id.clone(), name: self.name.clone(), fee: self.fee }
    }
}

/// A post's cover reference, either a dedicated cover image or one of the
/// post's own images.
#[derive(Debug, PartialEq, Eq)]
pub enum Cover {
    CoverImage { url: String },
    PostImage { url: String },
}

impl Clone for Cover {
    fn clone(&self) -> (r: Self)
        ensures
            r == *self,
    {
        match self {
            Cover::CoverImage { url } => Cover::CoverImage { url: url.clone() },
            Cover::PostImage { url } => Cover::PostImage { url: url.clone() },
        }
    }
}

/// One entry of a creator's paginated post index, enough to decide whether
/// the full post needs fetching.
#[derive(Debug, PartialEq, Eq)]
pub struct PostListItem {
    pub id: String,
    pub title: String,
    pub fee_required: u32,
    pub published_datetime: i64,
    pub updated_datetime: i64,
    pub tags: Vec<String>,
    pub comment_count: u32,
    pub is_restricted: bool,
    pub creator_id: String,
    pub has_adult_content: bool,
    pub cover: Option<Cover>,
}

/// A bold (or other) style span over a block's text: character offset,
/// length, and the style kind as the API names it.
#[derive(Debug, PartialEq, Eq)]
pub struct PostBlockStyle {
    pub ty: String,
    pub offset: u32,
    pub length: u32,
}

impl Clone for PostBlockStyle {
    fn clone(&self) -> (r: Self)
        ensures
            r == *self,
    {
        PostBlockStyle { ty: self.ty.clone(), offset: self.offset, length: self.length }
    }
}

/// One structural unit of a rich-text body, in document order.
#[derive(Debug, PartialEq, Eq)]
pub enum PostBlock {
    P { text: String, styles: Option<Vec<PostBlockStyle>> },
    Header { text: String, styles: Option<Vec<PostBlockStyle>> },
    Image { image_id: String },
    File { file_id: String },
    Embed { embed_id: String },
    UrlEmbed { url_embed_id: String },
    Video { video_id: String },
}

/// An image entry of a post body's side table.
#[derive(Debug, PartialEq, Eq)]
pub struct PostImage {
    pub id: String,
    pub extension: String,
    pub width: u32,
    pub height: u32,
    pub original_url: String,
    pub thumbnail_url: String,
}

impl Clone for PostImage {
    fn clone(&self) -> (r: Self)
        ensures
            r == *self,
    {
        PostImage {
            id: self.id.clone(),
            extension: self.extension.clone(),
            width: self.width,
            height: self.height,
            original_url: self.original_url.clone(),
            thumbnail_url: self.thumbnail_url.clone(),
        }
    }
}

impl PostImage {
    pub fn id(&self) -> (r: String)
        ensures
            r@ == self.id@,
    {
        self.id.clone()
    }

    /// The archive filename: `{id}.{extension}`.
    pub fn filename(&self) -> (r: String)
        ensures
            r@ == self.id@ + "."@ + self.extension@,
    {
        let mut s = self.id.clone();
        s.append(".");
        s.append(self.extension.as_str());
        s
    }

    pub fn extension(&self) -> (r: String)
        ensures
            r@ == self.extension@,
    {
        self.extension.clone()
    }

    pub fn url(&self) -> (r: String)
        ensures
            r@ == self.original_url@,
    {
        self.original_url.clone()
    }
}

/// An external video reference carried by a post.
#[derive(Debug, PartialEq, Eq)]
pub struct PostVideo {
    pub service_provider: String,
    pub video_id: String,
}

impl Clone for PostVideo {
    fn clone(&self) -> (r: Self)
        ensures
            r == *self,
    {
        PostVideo { service_provider: self.service_provider.clone(), video_id: self.video_id.clone() }
    }
}

/// A downloadable file entry of a post body's side table.
#[derive(Debug, PartialEq, Eq)]
pub struct PostFile {
    pub id: String,
    pub name: String,
    pub extension: String,
    pub size: u64,
    pub url: String,
}

impl Clone for PostFile {
    fn clone(&self) -> (r: Self)
        ensures
            r == *self,
    {
        PostFile {
            id: self.id.clone(),
            name: self.name.clone(),
            extension: self.extension.clone(),
            size: self.size,
            url: self.url.clone(),
        }
    }
}

impl PostFile {
    pub fn id(&self) -> (r: String)
        ensures
            r@ == self.id@,
    {
        self.id.clone()
    }

    /// The archive filename: `{name}.{extension}`.
    pub fn filename(&self) -> (r: String)
        ensures
            r@ == self.name@ + "."@ + self.extension@,
    {
        let mut s = self.name.clone();
        s.append(".");
        s.append(self.extension.as_str());
        s
    }

    pub fn extension(&self) -> (r: String)
        ensures
            r@ == self.extension@,
    {
        self.extension.clone()
    }

    pub fn size(&self) -> (r: u64)
        ensures
            r == self.size,
    {
        self.size
    }

    pub fn url(&self) -> (r: String)
        ensures
            r@ == self.url@,
    {
        self.url.clone()
    }
}

/// A provider-hosted embed (video site, form, another platform post, a
/// social post), dispatched on the provider name.
#[derive(Debug, PartialEq, Eq)]
pub struct PostEmbed {
    pub id: String,
    pub service_provider: String,
    pub content_id: String,
}

impl Clone for PostEmbed {
    fn clone(&self) -> (r: Self)
        ensures
            r == *self,
    {
        PostEmbed {
            id: self.id.clone(),
            service_provider: self.service_provider.clone(),
            content_id: self.content_id.clone(),
        }
    }
}

/// A URL-embed side-table entry: raw HTML to mine for an iframe source,
/// an intra-platform post or creator card, or a plain URL.
#[derive(Debug, PartialEq, Eq)]
pub enum PostTextEmbed {
    Html { id: String, html: String },
    HtmlCard { id: String, html: String },
    FanboxPost { id: String, post_info: PostListItem },
    FanboxCreator { id: String, profile: Creator },
    Default { id: String, url: String, host: String },
}

/// A side table keyed by reference id. Lookup finds the first entry whose
/// key matches, mirroring the id-keyed maps the API delivers.
pub struct KeyedList<T> {
    pub entries: Vec<(String, T)>,
}

/// First-match lookup over the entry sequence.
pub open spec fn spec_lookup<T>(entries: Seq<(String, T)>, key: Seq<char>) -> Option<T>
    decreases entries.len(),
{
    if entries.len() == 0 {
        None
    } else if entries[0].0@ == key {
        Some(entries[0].1)
    } else {
        spec_lookup(entries.drop_first(), key)
    }
}

proof fn lemma_lookup_skip_step<T>(entries: Seq<(String, T)>, key: Seq<char>, i: int)
    requires
        0 <= i < entries.len(),
        entries[i].0@ != key,
        spec_lookup(entries, key) == spec_lookup(entries.skip(i), key),
    ensures
        spec_lookup(entries, key) == spec_lookup(entries.skip(i + 1), key),
{
    assert(entries.skip(i).drop_first() =~= entries.skip(i + 1));
}

impl<T> KeyedList<T> {
    pub fn new() -> (r: KeyedList<T>)
        ensures
            r.entries@.len() == 0,
    {
        KeyedList { entries: Vec::new() }
    }

    pub fn push(&mut self, key: String, value: T)
        ensures
            final(self).entries@ == old(self).entries@.push((key, value)),
    {
        self.entries.push((key, value));
    }

    pub fn len(&self) -> (r: usize)
        ensures
            r == self.entries@.len(),
    {
        self.entries.len()
    }

    /// Borrow the value stored under `key`, if any.
    pub fn get(&self, key: &str) -> (r: Option<&T>)
        ensures
            match r {
                Some(v) => spec_lookup(self.entries@, key@) == Some(*v),
                None => spec_lookup(self.entries@, key@) is None,
            },
    {
        let mut i: usize = 0;
        proof {
            assert(self.entries@.skip(0) =~= self.entries@);
        }
        while i < self.entries.len()
            invariant
                i <= self.entries@.len(),
                spec_lookup(self.entries@, key@) == spec_lookup(
                    self.entries@.skip(i as int),
                    key@,
                ),
            decreases self.entries@.len() - i,
        {
            if crate::strings::str_eq(self.entries[i].0.as_str(), key) {
                proof {
                    assert(self.entries@.skip(i as int)[0] == self.entries@[i as int]);
                }
                return Some(&self.entries[i].1);
            }
            proof {
                assert(self.entries@.skip(i as int)[0] == self.entries@[i as int]);
                lemma_lookup_skip_step(self.entries@, key@, i as int);
            }
            i += 1;
        }
        proof {
            assert(self.entries@.skip(self.entries@.len() as int) =~= Seq::<(String, T)>::empty());
        }
        None
    }
}

/// A rich-text post body: an optional flat text, an ordered block sequence,
/// flat image/video/file lists, and the id-keyed side tables the block
/// references resolve against.
pub struct PostBody {
    pub text: Option<String>,
    pub blocks: Option<Vec<PostBlock>>,
    pub images: Option<Vec<PostImage>>,
    pub videos: Option<Vec<PostVideo>>,
    pub files: Option<Vec<PostFile>>,
    pub image_map: Option<KeyedList<PostImage>>,
    pub file_map: Option<KeyedList<PostFile>>,
    pub embed_map: Option<KeyedList<PostEmbed>>,
    pub url_embed_map: Option<KeyedList<PostTextEmbed>>,
}

impl PostBody {
    /// An empty body, convenient as a starting point for construction.
    pub fn empty() -> (r: PostBody)
        ensures
            r.text is None,
            r.blocks is None,
            r.images is None,
            r.videos is None,
            r.files is None,
            r.image_map is None,
            r.file_map is None,
            r.embed_map is None,
            r.url_embed_map is None,
    {
        PostBody {
            text: None,
            blocks: None,
            images: None,
            videos: None,
            files: None,
            image_map: None,
            file_map: None,
            embed_map: None,
            url_embed_map: None,
        }
    }
}

/// A full post record: the index entry's fields plus the rich body and the
/// cover image reference. Immutable once fetched.
pub struct Post {
    pub id: String,
    pub title: String,
    pub fee_required: u32,
    pub published_datetime: i64,
    pub updated_datetime: i64,
    pub tags: Vec<String>,
    pub comment_count: u32,
    pub is_restricted: bool,
    pub user: User,
    pub creator_id: String,
    pub has_adult_content: bool,
    pub cover_image_url: Option<String>,
    pub body: Option<PostBody>,
}

impl Post {
    pub fn id(&self) -> (r: String)
        ensures
            r@ == self.id@,
    {
        self.id.clone()
    }

    pub fn author(&self) -> (r: String)
        ensures
            r@ == self.creator_id@,
    {
        self.creator_id.clone()
    }

    pub fn title(&self) -> (r: String)
        ensures
            r@ == self.title@,
    {
        self.title.clone()
    }

    pub fn published(&self) -> (r: i64)
        ensures
            r == self.published_datetime,
    {
        self.published_datetime
    }

    pub fn updated(&self) -> (r: i64)
        ensures
            r == self.updated_datetime,
    {
        self.updated_datetime
    }

    /// Borrow the body; posts handed to the sync stage always carry one.
    pub fn body(&self) -> (r: &PostBody)
        requires
            self.body is Some,
        ensures
            *r == self.body->0,
    {
        match &self.body {
            Some(b) => b,
            None => unreached(),
        }
    }
}

/// A short neighbouring-post reference.
#[derive(Debug, PartialEq, Eq)]
pub struct PostShort {
    pub id: String,
    pub title: String,
    pub published_datetime: i64,
}

/// One comment; `replies` is populated only on root comments, so the tree
/// has depth at most one.
#[derive(Debug, PartialEq, Eq)]
pub struct Comment {
    pub id: String,
    pub parent_comment_id: String,
    pub root_comment_id: String,
    pub body: String,
    pub created_datetime: i64,
    pub user: User,
    pub replies: Option<Vec<Comment>>,
}

impl Comment {
    pub fn user(&self) -> (r: String)
        ensures
            r@ == self.user.name@,
    {
        self.user.name.clone()
    }

    pub fn text(&self) -> (r: String)
        ensures
            r@ == self.body@,
    {
        self.body.clone()
    }
}

/// One page of a post's comment listing: the items plus the cursor for the
/// next page, if the server offers one.
pub struct CommentList {
    pub items: Vec<Comment>,
    pub next_url: Option<String>,
}

/// The comment endpoint's envelope body.
pub struct PostComments {
    pub comment_list: Option<CommentList>,
}

/// The platform's `{body, error}` response envelope.
pub struct FanboxAPIResponse<T> {
    pub body: Option<T>,
    pub error: String,
}

/// The envelope's error-only form, for responses with no body.
pub struct FanboxAPIResponseError {
    pub error: String,
}

} // verus!
