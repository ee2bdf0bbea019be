//! The content transformer: a pure mapping from a platform rich-text body to
//! an ordered, archive-neutral content sequence. Each block maps to at most
//! one item; unresolved references degrade to visible text, an unknown embed
//! or video provider yields nothing representable (the caller logs it), and
//! an unknown style kind is a hard error, since it signals a schema change.

use vstd::prelude::*;
use vstd::string::StrSliceExecFns;
use vstd::string::StringExecFns;
use crate::fanbox::KeyedList;
use crate::fanbox::PostBlock;
use crate::fanbox::PostBlockStyle;
use crate::fanbox::PostBody;
use crate::fanbox::PostEmbed;
use crate::fanbox::PostFile;
use crate::fanbox::PostImage;
use crate::fanbox::PostTextEmbed;
use crate::fanbox::PostVideo;
use crate::fanbox::spec_lookup;
use crate::strings::find_sub;
use crate::strings::lemma_find_first_is;
use crate::strings::lemma_find_none;
use crate::strings::spec_find_first;
use crate::strings::spec_repeat;
use crate::strings::spec_split;
use crate::strings::split_char;
use crate::strings::str_eq;
use crate::strings::to_owned_str;
use crate::strings::views;
use crate::sync::get_source_link;
use crate::sync::spec_source_link;

verus! {

/// One archive-neutral content item: inline text, or a reference to an
/// archived file by its file-meta id.
#[derive(Debug, PartialEq, Eq)]
pub enum Content {
    Text(String),
    File(u64),
}

/// The bold marker inserted around styled spans.
pub open spec fn bold_marker() -> Seq<char> {
    "**"@
}

/// How many markers (span opens plus span closes) one style contributes at
/// character position `i`.
pub open spec fn style_contrib(s: PostBlockStyle, i: int) -> nat {
    (if s.offset as int == i {
        1nat
    } else {
        0nat
    }) + (if s.offset as int + s.length as int == i {
        1nat
    } else {
        0nat
    })
}

/// Total markers all styles contribute at position `i`.
pub open spec fn count_marks(ss: Seq<PostBlockStyle>, i: int) -> nat
    decreases ss.len(),
{
    if ss.len() == 0 {
        0nat
    } else {
        count_marks(ss.drop_last(), i) + style_contrib(ss.last(), i)
    }
}

/// The styled text from position `i` on: markers due at each position, then
/// the character, and finally the markers due at the end of the text.
pub open spec fn spec_styled_from(t: Seq<char>, ss: Seq<PostBlockStyle>, i: int) -> Seq<char>
    decreases t.len() - i,
{
    if i >= t.len() {
        spec_repeat(bold_marker(), count_marks(ss, t.len() as int))
    } else {
        spec_repeat(bold_marker(), count_marks(ss, i)) + seq![t[i]] + spec_styled_from(
            t,
            ss,
            i + 1,
        )
    }
}

/// The whole styled text: `t` with every style's open marker inserted at its
/// offset and its close marker at offset + length. Marker positions outside
/// the text are dropped.
pub open spec fn spec_styled(t: Seq<char>, ss: Seq<PostBlockStyle>) -> Seq<char> {
    spec_styled_from(t, ss, 0)
}

/// Every style kind is the bold kind, the only one the platform emits today.
pub open spec fn all_bold(ss: Seq<PostBlockStyle>) -> bool {
    forall|k: int| 0 <= k < ss.len() ==> (#[trigger] ss[k].ty)@ == "bold"@
}

proof fn lemma_repeat_step(unit: Seq<char>, n: nat)
    ensures
        spec_repeat(unit, n + 1) == spec_repeat(unit, n) + unit,
{
}

impl crate::fanbox::PostBlock {
    /// Apply style spans to a block's text. `None` when a style kind is
    /// unknown: that is a schema change and must fail loudly rather than
    /// silently dropping formatting.
    pub fn style_text(text: String, styles: Option<Vec<PostBlockStyle>>) -> (r: Option<String>)
        ensures
            styles is None ==> (r matches Some(t) && t@ == text@),
            styles matches Some(ss) ==> if all_bold(ss@) {
                r matches Some(t) && t@ == spec_styled(text@, ss@)
            } else {
                r is None
            },
    {
        let ss = match styles {
            None => {
                return Some(text);
            },
            Some(ss) => ss,
        };
        if !check_all_bold(&ss) {
            return None;
        }
        Some(styled_text(text.as_str(), &ss))
    }
}

/// Whether every style span in `ss` carries the bold kind.
fn check_all_bold(ss: &Vec<PostBlockStyle>) -> (r: bool)
    ensures
        r == all_bold(ss@),
{
    let mut k: usize = 0;
    while k < ss.len()
        invariant
            k <= ss@.len(),
            forall|m: int| 0 <= m < k ==> (#[trigger] ss@[m].ty)@ == "bold"@,
        decreases ss@.len() - k,
    {
        if !str_eq(ss[k].ty.as_str(), "bold") {
            assert(!all_bold(ss@));
            return false;
        }
        k += 1;
    }
    true
}

/// Append to `out` one bold marker for every style mark due at position `i`
/// of a text of length `len` (marks beyond the text are dropped).
fn append_marks_at(out: &mut String, ss: &Vec<PostBlockStyle>, i: usize, len: usize)
    requires
        i <= len,
    ensures
        final(out)@ == old(out)@ + spec_repeat(bold_marker(), count_marks(ss@, i as int)),
{
    let mut k: usize = 0;
    proof {
        assert(ss@.take(0) =~= Seq::<PostBlockStyle>::empty());
        assert(old(out)@ + spec_repeat(bold_marker(), count_marks(ss@.take(0), i as int)) =~= old(
            out,
        )@);
    }
    while k < ss.len()
        invariant
            k <= ss@.len(),
            i <= len,
            out@ == old(out)@ + spec_repeat(bold_marker(), count_marks(ss@.take(k as int), i as int)),
        decreases ss@.len() - k,
    {
        let off: u64 = ss[k].offset as u64;
        let end: u64 = ss[k].offset as u64 + ss[k].length as u64;
        let ghost before = count_marks(ss@.take(k as int), i as int);
        if off == i as u64 {
            out.append("**");
            proof {
                lemma_repeat_step(bold_marker(), before);
            }
        }
        if end == i as u64 {
            out.append("**");
            proof {
                lemma_repeat_step(
                    bold_marker(),
                    before + (if ss@[k as int].offset as int == i as int {
                        1nat
                    } else {
                        0nat
                    }),
                );
            }
        }
        proof {
            assert(ss@.take(k + 1).drop_last() =~= ss@.take(k as int));
            assert(ss@.take(k + 1).last() == ss@[k as int]);
        }
        k += 1;
    }
    proof {
        assert(ss@.take(ss@.len() as int) =~= ss@);
    }
}

/// One style's marks over the positions `i..=len`.
pub open spec fn sum_contrib(s: PostBlockStyle, i: int, len: int) -> nat
    decreases len - i + 1,
{
    if i > len {
        0nat
    } else {
        style_contrib(s, i) + sum_contrib(s, i + 1, len)
    }
}

/// All styles' marks over the positions `i..=len`.
pub open spec fn sum_marks(ss: Seq<PostBlockStyle>, i: int, len: int) -> nat
    decreases len - i + 1,
{
    if i > len {
        0nat
    } else {
        count_marks(ss, i) + sum_marks(ss, i + 1, len)
    }
}

proof fn lemma_sum_contrib_value(s: PostBlockStyle, i: int, len: int)
    requires
        0 <= i,
    ensures
        sum_contrib(s, i, len) == (if i <= s.offset as int <= len {
            1nat
        } else {
            0nat
        }) + (if i <= s.offset as int + s.length as int <= len {
            1nat
        } else {
            0nat
        }),
    decreases len - i + 1,
{
    if i <= len {
        lemma_sum_contrib_value(s, i + 1, len);
    }
}

proof fn lemma_sum_marks_empty(i: int, len: int)
    ensures
        sum_marks(Seq::<PostBlockStyle>::empty(), i, len) == 0,
    decreases len - i + 1,
{
    if i <= len {
        lemma_sum_marks_empty(i + 1, len);
    }
}

proof fn lemma_sum_marks_split(ss: Seq<PostBlockStyle>, i: int, len: int)
    requires
        ss.len() > 0,
    ensures
        sum_marks(ss, i, len) == sum_marks(ss.drop_last(), i, len) + sum_contrib(
            ss.last(),
            i,
            len,
        ),
    decreases len - i + 1,
{
    if i <= len {
        lemma_sum_marks_split(ss, i + 1, len);
    }
}

proof fn lemma_sum_marks_total(ss: Seq<PostBlockStyle>, len: int)
    requires
        len >= 0,
        forall|k: int|
            0 <= k < ss.len() ==> ((#[trigger] ss[k]).offset as int) + (ss[k].length as int)
                <= len,
    ensures
        sum_marks(ss, 0, len) == 2 * ss.len(),
    decreases ss.len(),
{
    if ss.len() == 0 {
        lemma_sum_marks_empty(0, len);
        assert(ss =~= Seq::<PostBlockStyle>::empty());
    } else {
        assert forall|k: int|
            0 <= k < ss.drop_last().len() implies ((#[trigger] ss.drop_last()[k]).offset as int) + (
        ss.drop_last()[k].length as int) <= len by {
            assert(ss.drop_last()[k] == ss[k]);
        }
        lemma_sum_marks_total(ss.drop_last(), len);
        lemma_sum_marks_split(ss, 0, len);
        lemma_sum_contrib_value(ss.last(), 0, len);
        assert(ss[ss.len() - 1] == ss.last());
    }
}

proof fn lemma_styled_from_count(t: Seq<char>, ss: Seq<PostBlockStyle>, i: int)
    requires
        0 <= i <= t.len(),
    ensures
        crate::strings::count_char(spec_styled_from(t, ss, i), '*') == crate::strings::count_char(
            t.skip(i),
            '*',
        ) + 2 * sum_marks(ss, i, t.len() as int),
    decreases t.len() - i,
{
    reveal_strlit("**");
    let bold = bold_marker();
    assert(bold.len() == 2 && bold[0] == '*' && bold[1] == '*');
    assert(bold.drop_first() =~= seq!['*']);
    assert(seq!['*'].drop_first() =~= Seq::<char>::empty());
    assert(crate::strings::count_char(Seq::<char>::empty(), '*') == 0);
    assert(crate::strings::count_char(seq!['*'], '*') == 1);
    assert(crate::strings::count_char(bold, '*') == 2);
    crate::strings::lemma_count_char_repeat(bold, count_marks(ss, i), '*');
    if i == t.len() {
        assert(t.skip(i) =~= Seq::<char>::empty());
        assert(sum_marks(ss, i, t.len() as int) == count_marks(ss, i));
    } else {
        lemma_styled_from_count(t, ss, i + 1);
        let head = spec_repeat(bold_marker(), count_marks(ss, i));
        let mid = seq![t[i]];
        let rest = spec_styled_from(t, ss, i + 1);
        crate::strings::lemma_count_char_concat(head + mid, rest, '*');
        crate::strings::lemma_count_char_concat(head, mid, '*');
        assert(mid.drop_first() =~= Seq::<char>::empty());
        assert(t.skip(i)[0] == t[i]);
        assert(t.skip(i).drop_first() =~= t.skip(i + 1));
    }
}

/// Balanced style markers: when every span lies inside the text, styling
/// inserts exactly one open and one close marker per span, so the output
/// holds the text's own asterisks plus four per span — every inserted
/// marker is matched.
pub proof fn lemma_styled_markers_balanced(t: Seq<char>, ss: Seq<PostBlockStyle>)
    requires
        forall|k: int|
            0 <= k < ss.len() ==> ((#[trigger] ss[k]).offset as int) + (ss[k].length as int)
                <= t.len(),
    ensures
        crate::strings::count_char(spec_styled(t, ss), '*') == crate::strings::count_char(t, '*')
            + 4 * ss.len(),
{
    lemma_styled_from_count(t, ss, 0);
    assert(t.skip(0) =~= t);
    lemma_sum_marks_total(ss, t.len() as int);
}

/// Content transform determinism: the rendering is one mathematical
/// function of the body and the file-meta table, so any two results of the
/// transform over the same inputs are the same item sequence, the same
/// skipped-provider list, or the same error.
pub proof fn lemma_transform_deterministic(
    body: PostBody,
    files: Seq<(String, u64)>,
    items1: Seq<ContentView>,
    skipped1: Seq<Seq<char>>,
    items2: Seq<ContentView>,
    skipped2: Seq<Seq<char>>,
)
    requires
        spec_body_content(body, files) == Ok::<(Seq<ContentView>, Seq<Seq<char>>), Seq<char>>(
            (items1, skipped1),
        ),
        spec_body_content(body, files) == Ok::<(Seq<ContentView>, Seq<Seq<char>>), Seq<char>>(
            (items2, skipped2),
        ),
    ensures
        items1 == items2,
        skipped1 == skipped2,
{
}

/// Unresolved references degrade: an image or file block whose id is
/// missing from the file-meta table renders the raw id as visible text — it
/// never fails the post.
pub proof fn lemma_unresolved_reference_degrades(
    b: PostBlock,
    body: PostBody,
    files: Seq<(String, u64)>,
)
    requires
        match b {
            PostBlock::Image { image_id } => spec_lookup(files, image_id@) is None,
            PostBlock::File { file_id } => spec_lookup(files, file_id@) is None,
            _ => false,
        },
    ensures
        match b {
            PostBlock::Image { image_id } => spec_block_text(b, body, files) == Ok::<
                BlockRender,
                Seq<char>,
            >(BlockRender::Item(ContentView::Text(image_id@))),
            PostBlock::File { file_id } => spec_block_text(b, body, files) == Ok::<
                BlockRender,
                Seq<char>,
            >(BlockRender::Item(ContentView::Text(file_id@))),
            _ => true,
        },
{
}

/// The provider-specific Markdown snippet for an external video: known
/// providers render a thumbnail link, unknown providers render nothing.
pub open spec fn spec_video_text(v: PostVideo) -> Option<Seq<char>> {
    if v.service_provider@ == "youtube"@ {
        Some(spec_youtube_text(v.video_id@))
    } else {
        None
    }
}

/// The thumbnail-plus-link Markdown for a video-sharing embed.
pub open spec fn spec_youtube_text(id: Seq<char>) -> Seq<char> {
    "[![youtube](https://img.youtube.com/vi/"@ + id + "/0.jpg)](https://www.youtube.com/watch?v="@
        + id + ")"@
}

fn youtube_text(id: &str) -> (r: String)
    ensures
        r@ == spec_youtube_text(id@),
{
    let mut s = String::from_str("[![youtube](https://img.youtube.com/vi/");
    s.append(id);
    s.append("/0.jpg)](https://www.youtube.com/watch?v=");
    s.append(id);
    s.append(")");
    s
}

impl PostVideo {
    /// Render this video reference; `None` for a provider this archive does
    /// not know, which the caller logs instead of aborting.
    pub fn to_text(&self) -> (r: Option<String>)
        ensures
            match spec_video_text(*self) {
                Some(v) => r matches Some(t) && t@ == v,
                None => r is None,
            },
    {
        if str_eq(self.service_provider.as_str(), "youtube") {
            Some(youtube_text(self.video_id.as_str()))
        } else {
            None
        }
    }
}

/// The provider-specific Markdown snippet for an embed block: video-sharing,
/// form, intra-platform post and social-post providers are known; anything
/// else, including a malformed intra-platform reference, renders nothing.
pub open spec fn spec_embed_text(e: PostEmbed) -> Option<Seq<char>> {
    if e.service_provider@ == "youtube"@ {
        Some(spec_youtube_text(e.content_id@))
    } else if e.service_provider@ == "google_forms"@ {
        Some("[Google Form](https://docs.google.com/forms/d/e/"@ + e.content_id@ + "/viewform)"@)
    } else if e.service_provider@ == "fanbox"@ {
        let parts = spec_split(e.content_id@, '/');
        if parts.len() == 4 && parts[0] == "creator"@ && parts[2] == "post"@ {
            Some(
                "[Fanbox Post ("@ + parts[1] + "/"@ + parts[3] + ")]("@ + spec_source_link(
                    parts[1],
                    parts[3],
                ) + ")"@,
            )
        } else {
            None
        }
    } else if e.service_provider@ == "twitter"@ {
        Some("[Tweet](https://twitter.com/i/web/status/"@ + e.content_id@ + ")"@)
    } else {
        None
    }
}

impl PostEmbed {
    /// Render this embed; `None` for an unknown provider or a malformed
    /// intra-platform reference, which the caller logs instead of aborting.
    pub fn to_text(&self) -> (r: Option<String>)
        ensures
            match spec_embed_text(*self) {
                Some(v) => r matches Some(t) && t@ == v,
                None => r is None,
            },
    {
        if str_eq(self.service_provider.as_str(), "youtube") {
            Some(youtube_text(self.content_id.as_str()))
        } else if str_eq(self.service_provider.as_str(), "google_forms") {
            let mut s = String::from_str("[Google Form](https://docs.google.com/forms/d/e/");
            s.append(self.content_id.as_str());
            s.append("/viewform)");
            Some(s)
        } else if str_eq(self.service_provider.as_str(), "fanbox") {
            let parts = split_char(self.content_id.as_str(), '/');
            if parts.len() == 4 && str_eq(parts[0].as_str(), "creator") && str_eq(
                parts[2].as_str(),
                "post",
            ) {
                let link = get_source_link(parts[1].as_str(), parts[3].as_str());
                let mut s = String::from_str("[Fanbox Post (");
                s.append(parts[1].as_str());
                s.append("/");
                s.append(parts[3].as_str());
                s.append(")](");
                s.append(link.as_str());
                s.append(")");
                Some(s)
            } else {
                None
            }
        } else if str_eq(self.service_provider.as_str(), "twitter") {
            let mut s = String::from_str("[Tweet](https://twitter.com/i/web/status/");
            s.append(self.content_id.as_str());
            s.append(")");
            Some(s)
        } else {
            None
        }
    }
}

/// Mine raw embed HTML for its first `<iframe src="...">` value and render
/// it as a Markdown link; anything unminable renders a visible placeholder.
pub open spec fn spec_iframe_text(html: Seq<char>) -> Seq<char> {
    let marker = "<iframe src=\""@;
    match spec_find_first(html, marker) {
        None => "[Invalid URL Embed]"@,
        Some(start) => {
            let rest = html.skip(start + marker.len());
            match spec_find_first(rest, "\""@) {
                None => "[Invalid URL Embed]"@,
                Some(end) => {
                    let src = rest.take(end);
                    "["@ + src + "]("@ + src + ")"@
                },
            }
        },
    }
}

fn iframe_text(html: &str) -> (r: String)
    ensures
        r@ == spec_iframe_text(html@),
{
    let marker = "<iframe src=\"";
    let mlen = marker.unicode_len();
    match find_sub(html, marker) {
        None => {
            proof {
                lemma_find_none(html@, marker@);
            }
            to_owned_str("[Invalid URL Embed]")
        },
        Some(start) => {
            proof {
                lemma_find_first_is(html@, marker@, start as int);
            }
            let hlen = html.unicode_len();
            let rest = html.substring_char(start + mlen, hlen);
            proof {
                assert(rest@ =~= html@.skip(start + marker@.len()));
            }
            match find_sub(rest, "\"") {
                None => {
                    proof {
                        lemma_find_none(rest@, "\""@);
                    }
                    to_owned_str("[Invalid URL Embed]")
                },
                Some(end) => {
                    proof {
                        lemma_find_first_is(rest@, "\""@, end as int);
                    }
                    let src = rest.substring_char(0, end);
                    proof {
                        assert(src@ =~= rest@.take(end as int));
                    }
                    let mut s = String::from_str("[");
                    s.append(src);
                    s.append("](");
                    s.append(src);
                    s.append(")");
                    s
                },
            }
        },
    }
}

/// The rendering of a URL-embed side-table entry. Every kind renders to
/// something: HTML kinds are mined for an iframe source, intra-platform
/// kinds render titled links, the default kind renders its URL.
pub open spec fn spec_text_embed_text(e: PostTextEmbed) -> Seq<char> {
    match e {
        PostTextEmbed::Html { id: _, html } => spec_iframe_text(html@),
        PostTextEmbed::HtmlCard { id: _, html } => spec_iframe_text(html@),
        PostTextEmbed::FanboxPost { id: _, post_info } => "[Fanbox Post "@ + post_info.title@
            + "]("@ + spec_source_link(post_info.creator_id@, post_info.id@) + ")"@,
        PostTextEmbed::FanboxCreator { id: _, profile } => "[Creator "@ + profile.name@
            + "](https://"@ + profile.creator_id@ + ".fanbox.cc)"@,
        PostTextEmbed::Default { id: _, url, host: _ } => "["@ + url@ + "]("@ + url@ + ")"@,
    }
}

/// The mathematical shape of a content item: its text view, or its file id.
pub enum ContentView {
    Text(Seq<char>),
    File(u64),
}

impl View for Content {
    type V = ContentView;

    open spec fn view(&self) -> ContentView {
        match self {
            Content::Text(s) => ContentView::Text(s@),
            Content::File(f) => ContentView::File(*f),
        }
    }
}

/// The views of a sequence of content items.
pub open spec fn content_views(s: Seq<Content>) -> Seq<ContentView> {
    s.map_values(|c: Content| c@)
}

/// Newlines normalised to the hard line-break marker.
pub open spec fn spec_replace_nl(s: Seq<char>) -> Seq<char>
    decreases s.len(),
{
    if s.len() == 0 {
        Seq::empty()
    } else {
        (if s[0] == '\n' {
            "<br>"@
        } else {
            seq![s[0]]
        }) + spec_replace_nl(s.drop_first())
    }
}

/// Replace every newline in `s` with the hard line-break marker.
pub fn replace_newlines(s: &str) -> (r: String)
    ensures
        r@ == spec_replace_nl(s@),
{
    let len = s.unicode_len();
    let mut out = String::new();
    let mut i: usize = 0;
    proof {
        assert(s@.skip(0) =~= s@);
        assert(out@ + spec_replace_nl(s@) =~= spec_replace_nl(s@));
    }
    while i < len
        invariant
            i <= len,
            len == s@.len(),
            out@ + spec_replace_nl(s@.skip(i as int)) == spec_replace_nl(s@),
        decreases len - i,
    {
        proof {
            assert(s@.skip(i as int)[0] == s@[i as int]);
            assert(s@.skip(i as int).drop_first() =~= s@.skip(i + 1));
        }
        if s.get_char(i) == '\n' {
            out.append("<br>");
        } else {
            out.append(s.substring_char(i, i + 1));
            proof {
                assert(s@.subrange(i as int, i + 1) =~= seq![s@[i as int]]);
            }
        }
        i += 1;
    }
    proof {
        assert(s@.skip(len as int) =~= Seq::<char>::empty());
        assert(out@ =~= spec_replace_nl(s@));
    }
    out
}

/// The first style kind in `ss` that is not the bold kind; empty if all are.
pub open spec fn spec_first_bad_style(ss: Seq<PostBlockStyle>) -> Seq<char>
    decreases ss.len(),
{
    if ss.len() == 0 {
        Seq::empty()
    } else if ss[0].ty@ != "bold"@ {
        ss[0].ty@
    } else {
        spec_first_bad_style(ss.drop_first())
    }
}

/// The first non-bold style kind in `ss`, if any.
fn first_bad_style(ss: &Vec<PostBlockStyle>) -> (r: Option<String>)
    ensures
        r is None <==> all_bold(ss@),
        r matches Some(t) ==> t@ == spec_first_bad_style(ss@),
{
    let mut k: usize = 0;
    proof {
        assert(ss@.skip(0) =~= ss@);
    }
    while k < ss.len()
        invariant
            k <= ss@.len(),
            forall|m: int| 0 <= m < k ==> (#[trigger] ss@[m].ty)@ == "bold"@,
            spec_first_bad_style(ss@) == spec_first_bad_style(ss@.skip(k as int)),
        decreases ss@.len() - k,
    {
        proof {
            assert(ss@.skip(k as int)[0] == ss@[k as int]);
            assert(ss@.skip(k as int).drop_first() =~= ss@.skip(k + 1));
        }
        if !str_eq(ss[k].ty.as_str(), "bold") {
            assert(!all_bold(ss@));
            return Some(ss[k].ty.clone());
        }
        k += 1;
    }
    assert(all_bold(ss@));
    None
}

/// What a block renders to: a content item, or nothing representable plus
/// the provider name to log.
#[derive(Debug, PartialEq, Eq)]
pub enum BlockOut {
    Item(Content),
    Skip(String),
}

/// The mathematical shape of a block rendering.
pub enum BlockRender {
    Item(ContentView),
    Skip(Seq<char>),
}

impl View for BlockOut {
    type V = BlockRender;

    open spec fn view(&self) -> BlockRender {
        match self {
            BlockOut::Item(c) => BlockRender::Item(c@),
            BlockOut::Skip(p) => BlockRender::Skip(p@),
        }
    }
}

/// First video in `vs` whose id is `id`.
pub open spec fn spec_find_video(vs: Seq<PostVideo>, id: Seq<char>) -> Option<PostVideo>
    decreases vs.len(),
{
    if vs.len() == 0 {
        None
    } else if vs[0].video_id@ == id {
        Some(vs[0])
    } else {
        spec_find_video(vs.drop_first(), id)
    }
}

fn find_video<'a>(vs: &'a Vec<PostVideo>, id: &str) -> (r: Option<&'a PostVideo>)
    ensures
        match r {
            Some(v) => spec_find_video(vs@, id@) == Some(*v),
            None => spec_find_video(vs@, id@) is None,
        },
{
    let mut k: usize = 0;
    proof {
        assert(vs@.skip(0) =~= vs@);
    }
    while k < vs.len()
        invariant
            k <= vs@.len(),
            spec_find_video(vs@, id@) == spec_find_video(vs@.skip(k as int), id@),
        decreases vs@.len() - k,
    {
        proof {
            assert(vs@.skip(k as int)[0] == vs@[k as int]);
            assert(vs@.skip(k as int).drop_first() =~= vs@.skip(k + 1));
        }
        if str_eq(vs[k].video_id.as_str(), id) {
            return Some(&vs[k]);
        }
        k += 1;
    }
    proof {
        assert(vs@.skip(vs@.len() as int) =~= Seq::<PostVideo>::empty());
    }
    None
}

/// What one block renders to, against its post body's side tables and the
/// file-meta assignments of the whole post. Unresolved image, file and video
/// references degrade to the raw id as text; unresolved embed references
/// degrade to a visible placeholder; an unknown embed or video provider
/// renders nothing representable; an unknown style kind is a hard error.
pub open spec fn spec_block_text(b: PostBlock, body: PostBody, files: Seq<(String, u64)>) -> Result<
    BlockRender,
    Seq<char>,
> {
    match b {
        PostBlock::P { text, styles } => {
            if text@.len() == 0 {
                Ok(BlockRender::Item(ContentView::Text("<br>"@)))
            } else {
                match styles {
                    None => Ok(BlockRender::Item(ContentView::Text(text@))),
                    Some(ss) => if all_bold(ss@) {
                        Ok(BlockRender::Item(ContentView::Text(spec_styled(text@, ss@))))
                    } else {
                        Err(spec_first_bad_style(ss@))
                    },
                }
            }
        },
        PostBlock::Header { text, styles } => {
            match styles {
                None => Ok(BlockRender::Item(ContentView::Text("# "@ + text@))),
                Some(ss) => if all_bold(ss@) {
                    Ok(BlockRender::Item(ContentView::Text("# "@ + spec_styled(text@, ss@))))
                } else {
                    Err(spec_first_bad_style(ss@))
                },
            }
        },
        PostBlock::Image { image_id } => {
            match spec_lookup(files, image_id@) {
                Some(fid) => Ok(BlockRender::Item(ContentView::File(fid))),
                None => Ok(BlockRender::Item(ContentView::Text(image_id@))),
            }
        },
        PostBlock::File { file_id } => {
            match spec_lookup(files, file_id@) {
                Some(fid) => Ok(BlockRender::Item(ContentView::File(fid))),
                None => Ok(BlockRender::Item(ContentView::Text(file_id@))),
            }
        },
        PostBlock::Embed { embed_id } => {
            let entry = match body.embed_map {
                Some(m) => spec_lookup(m.entries@, embed_id@),
                None => None,
            };
            match entry {
                None => Ok(
                    BlockRender::Item(
                        ContentView::Text("[Embed not found: "@ + embed_id@ + "]"@),
                    ),
                ),
                Some(e) => match spec_embed_text(e) {
                    Some(t) => Ok(BlockRender::Item(ContentView::Text(t))),
                    None => Ok(BlockRender::Skip(e.service_provider@)),
                },
            }
        },
        PostBlock::Video { video_id } => {
            let entry = match body.videos {
                Some(vs) => spec_find_video(vs@, video_id@),
                None => None,
            };
            match entry {
                None => Ok(BlockRender::Item(ContentView::Text(video_id@))),
                Some(v) => match spec_video_text(v) {
                    Some(t) => Ok(BlockRender::Item(ContentView::Text(t))),
                    None => Ok(BlockRender::Skip(v.service_provider@)),
                },
            }
        },
        PostBlock::UrlEmbed { url_embed_id } => {
            let entry = match body.url_embed_map {
                Some(m) => spec_lookup(m.entries@, url_embed_id@),
                None => None,
            };
            match entry {
                None => Ok(
                    BlockRender::Item(
                        ContentView::Text("[URL Embed not found: "@ + url_embed_id@ + "]"@),
                    ),
                ),
                Some(e) => Ok(BlockRender::Item(ContentView::Text(spec_text_embed_text(e)))),
            }
        },
    }
}

impl PostBlock {
    /// Render one block against its body's side tables and the post's
    /// file-meta assignments.
    pub fn to_text(&self, body: &PostBody, files: &KeyedList<u64>) -> (r: Result<
        BlockOut,
        String,
    >)
        ensures
            match spec_block_text(*self, *body, files.entries@) {
                Ok(br) => r matches Ok(out) && out@ == br,
                Err(e) => r matches Err(m) && m@ == e,
            },
    {
        match self {
            PostBlock::P { text, styles } => {
                if text.as_str().unicode_len() == 0 {
                    Ok(BlockOut::Item(Content::Text(to_owned_str("<br>"))))
                } else {
                    match styles {
                        None => Ok(BlockOut::Item(Content::Text(text.clone()))),
                        Some(ss) => {
                            match first_bad_style(ss) {
                                Some(kind) => Err(kind),
                                None => {
                                    let styled = styled_text(text.as_str(), ss);
                                    Ok(BlockOut::Item(Content::Text(styled)))
                                },
                            }
                        },
                    }
                }
            },
            PostBlock::Header { text, styles } => {
                match styles {
                    None => {
                        let mut s = String::from_str("# ");
                        s.append(text.as_str());
                        Ok(BlockOut::Item(Content::Text(s)))
                    },
                    Some(ss) => {
                        match first_bad_style(ss) {
                            Some(kind) => Err(kind),
                            None => {
                                let styled = styled_text(text.as_str(), ss);
                                let mut s = String::from_str("# ");
                                s.append(styled.as_str());
                                Ok(BlockOut::Item(Content::Text(s)))
                            },
                        }
                    },
                }
            },
            PostBlock::Image { image_id } => {
                match files.get(image_id.as_str()) {
                    Some(fid) => Ok(BlockOut::Item(Content::File(*fid))),
                    None => Ok(BlockOut::Item(Content::Text(image_id.clone()))),
                }
            },
            PostBlock::File { file_id } => {
                match files.get(file_id.as_str()) {
                    Some(fid) => Ok(BlockOut::Item(Content::File(*fid))),
                    None => Ok(BlockOut::Item(Content::Text(file_id.clone()))),
                }
            },
            PostBlock::Embed { embed_id } => {
                let entry = match &body.embed_map {
                    Some(m) => m.get(embed_id.as_str()),
                    None => None,
                };
                match entry {
                    None => {
                        let mut s = String::from_str("[Embed not found: ");
                        s.append(embed_id.as_str());
                        s.append("]");
                        Ok(BlockOut::Item(Content::Text(s)))
                    },
                    Some(e) => {
                        match e.to_text() {
                            Some(t) => Ok(BlockOut::Item(Content::Text(t))),
                            None => Ok(BlockOut::Skip(e.service_provider.clone())),
                        }
                    },
                }
            },
            PostBlock::Video { video_id } => {
                let entry = match &body.videos {
                    Some(vs) => find_video(vs, video_id.as_str()),
                    None => None,
                };
                match entry {
                    None => Ok(BlockOut::Item(Content::Text(video_id.clone()))),
                    Some(v) => {
                        match v.to_text() {
                            Some(t) => Ok(BlockOut::Item(Content::Text(t))),
                            None => Ok(BlockOut::Skip(v.service_provider.clone())),
                        }
                    },
                }
            },
            PostBlock::UrlEmbed { url_embed_id } => {
                let entry = match &body.url_embed_map {
                    Some(m) => m.get(url_embed_id.as_str()),
                    None => None,
                };
                match entry {
                    None => {
                        let mut s = String::from_str("[URL Embed not found: ");
                        s.append(url_embed_id.as_str());
                        s.append("]");
                        Ok(BlockOut::Item(Content::Text(s)))
                    },
                    Some(e) => Ok(BlockOut::Item(Content::Text(e.to_text()))),
                }
            },
        }
    }
}

/// Apply known-good styles to a text; a helper for block rendering, with the
/// style check already done.
fn styled_text(text: &str, ss: &Vec<PostBlockStyle>) -> (r: String)
    requires
        all_bold(ss@),
    ensures
        r@ == spec_styled(text@, ss@),
{
    let len = text.unicode_len();
    let mut out = String::new();
    let mut i: usize = 0;
    proof {
        assert(out@ + spec_styled_from(text@, ss@, 0) =~= spec_styled(text@, ss@));
    }
    while i < len
        invariant
            i <= len,
            len == text@.len(),
            all_bold(ss@),
            out@ + spec_styled_from(text@, ss@, i as int) == spec_styled(text@, ss@),
        decreases len - i,
    {
        append_marks_at(&mut out, ss, i, len);
        out.append(text.substring_char(i, i + 1));
        proof {
            assert(text@.subrange(i as int, i + 1) =~= seq![text@[i as int]]);
            assert(out@ + spec_styled_from(text@, ss@, i + 1) =~= spec_styled(text@, ss@));
        }
        i += 1;
    }
    append_marks_at(&mut out, ss, len, len);
    proof {
        assert(out@ =~= spec_styled(text@, ss@));
    }
    out
}

/// The rendering of a whole block sequence: the items of the blocks that
/// rendered, the providers of the blocks that rendered nothing, or the first
/// unknown style kind.
pub open spec fn spec_blocks_render(
    blocks: Seq<PostBlock>,
    body: PostBody,
    files: Seq<(String, u64)>,
) -> Result<(Seq<ContentView>, Seq<Seq<char>>), Seq<char>>
    decreases blocks.len(),
{
    if blocks.len() == 0 {
        Ok((Seq::empty(), Seq::empty()))
    } else {
        match spec_blocks_render(blocks.drop_last(), body, files) {
            Err(e) => Err(e),
            Ok(acc) => match spec_block_text(blocks.last(), body, files) {
                Err(e) => Err(e),
                Ok(BlockRender::Item(c)) => Ok((acc.0.push(c), acc.1)),
                Ok(BlockRender::Skip(p)) => Ok((acc.0, acc.1.push(p))),
            },
        }
    }
}

proof fn lemma_blocks_render_err(
    blocks: Seq<PostBlock>,
    body: PostBody,
    files: Seq<(String, u64)>,
    k: int,
)
    requires
        0 <= k <= blocks.len(),
        spec_blocks_render(blocks.take(k), body, files) is Err,
    ensures
        spec_blocks_render(blocks, body, files) == spec_blocks_render(blocks.take(k), body, files),
    decreases blocks.len() - k,
{
    if k == blocks.len() {
        assert(blocks.take(k) =~= blocks);
    } else {
        assert(blocks.take(k + 1).drop_last() =~= blocks.take(k));
        lemma_blocks_render_err(blocks, body, files, k + 1);
    }
}

/// What a post body's `text` pass renders to: the flat text first, newline
/// normalised, then each block in document order.
pub open spec fn spec_body_text(body: PostBody, files: Seq<(String, u64)>) -> Result<
    (Seq<ContentView>, Seq<Seq<char>>),
    Seq<char>,
> {
    let head: Seq<ContentView> = match body.text {
        Some(t) => seq![ContentView::Text(spec_replace_nl(t@))],
        None => Seq::empty(),
    };
    match body.blocks {
        None => Ok((head, Seq::empty())),
        Some(bs) => match spec_blocks_render(bs@, body, files) {
            Err(e) => Err(e),
            Ok(acc) => Ok((head + acc.0, acc.1)),
        },
    }
}

/// A rendered body: the content items in order, plus the provider names of
/// embeds that rendered nothing, for the caller to log.
#[derive(Debug, PartialEq, Eq)]
pub struct Rendered {
    pub items: Vec<Content>,
    pub skipped: Vec<String>,
}

/// The item an image of the flat image list renders to: its assigned
/// file-meta id, or the raw id as text when unassigned.
pub open spec fn spec_image_item(im: PostImage, files: Seq<(String, u64)>) -> ContentView {
    match spec_lookup(files, im.id@) {
        Some(f) => ContentView::File(f),
        None => ContentView::Text(im.id@),
    }
}

/// The item a file of the flat file list renders to.
pub open spec fn spec_file_item(f: PostFile, files: Seq<(String, u64)>) -> ContentView {
    match spec_lookup(files, f.id@) {
        Some(m) => ContentView::File(m),
        None => ContentView::Text(f.id@),
    }
}

/// The rendering of the flat video list: one text item per known provider,
/// one skipped provider name per unknown one.
pub open spec fn spec_videos_render(vs: Seq<PostVideo>) -> (Seq<ContentView>, Seq<Seq<char>>)
    decreases vs.len(),
{
    if vs.len() == 0 {
        (Seq::empty(), Seq::empty())
    } else {
        let acc = spec_videos_render(vs.drop_last());
        match spec_video_text(vs.last()) {
            Some(t) => (acc.0.push(ContentView::Text(t)), acc.1),
            None => (acc.0, acc.1.push(vs.last().service_provider@)),
        }
    }
}

/// What a post body's full `content` pass renders to: the `text` pass, then
/// the flat image list, the flat file list, and the flat video list.
pub open spec fn spec_body_content(body: PostBody, files: Seq<(String, u64)>) -> Result<
    (Seq<ContentView>, Seq<Seq<char>>),
    Seq<char>,
> {
    match spec_body_text(body, files) {
        Err(e) => Err(e),
        Ok(acc) => {
            let imgs = match body.images {
                Some(l) => l@.map_values(|im: PostImage| spec_image_item(im, files)),
                None => Seq::empty(),
            };
            let fls = match body.files {
                Some(l) => l@.map_values(|f: PostFile| spec_file_item(f, files)),
                None => Seq::empty(),
            };
            let vids = match body.videos {
                Some(l) => spec_videos_render(l@),
                None => (Seq::empty(), Seq::empty()),
            };
            Ok((acc.0 + imgs + fls + vids.0, acc.1 + vids.1))
        },
    }
}

impl PostBody {
    /// Render the text portion of this body: the flat text, then the blocks
    /// in order. `Err` carries the first unknown style kind; the `skipped`
    /// list carries the providers of embeds that rendered nothing.
    pub fn text(&self, files: &KeyedList<u64>) -> (r: Result<Rendered, String>)
        ensures
            match spec_body_text(*self, files.entries@) {
                Ok(acc) => r matches Ok(out) && content_views(out.items@) == acc.0 && views(
                    out.skipped@,
                ) == acc.1,
                Err(e) => r matches Err(m) && m@ == e,
            },
    {
        let mut items: Vec<Content> = Vec::new();
        let mut skipped: Vec<String> = Vec::new();
        match &self.text {
            Some(t) => {
                items.push(Content::Text(replace_newlines(t.as_str())));
            },
            None => {},
        }
        let ghost head = content_views(items@);
        proof {
            match &self.text {
                Some(t) => {
                    assert(head =~= seq![ContentView::Text(spec_replace_nl(t@))]);
                },
                None => {
                    assert(head =~= Seq::<ContentView>::empty());
                },
            }
        }
        match &self.blocks {
            None => {
                proof {
                    assert(views(skipped@) =~= Seq::<Seq<char>>::empty());
                    assert(content_views(items@) =~= head + Seq::<ContentView>::empty());
                }
                Ok(Rendered { items, skipped })
            },
            Some(bs) => {
                let mut i: usize = 0;
                proof {
                    assert(bs@.take(0) =~= Seq::<PostBlock>::empty());
                    assert(content_views(items@) =~= head + Seq::<ContentView>::empty());
                    assert(views(skipped@) =~= Seq::<Seq<char>>::empty());
                }
                while i < bs.len()
                    invariant
                        i <= bs@.len(),
                        self.blocks matches Some(b) && b == bs,
                        spec_blocks_render(bs@.take(i as int), *self, files.entries@) matches Ok(
                            acc,
                        ) && content_views(items@) == head + acc.0 && views(skipped@) == acc.1,
                    decreases bs@.len() - i,
                {
                    let ghost old_items = items@;
                    let ghost old_skipped = skipped@;
                    proof {
                        assert(bs@.take(i + 1).drop_last() =~= bs@.take(i as int));
                        assert(bs@.take(i + 1).last() == bs@[i as int]);
                    }
                    match bs[i].to_text(self, files) {
                        Ok(BlockOut::Item(c)) => {
                            proof {
                                assert(content_views(old_items.push(c)) =~= content_views(
                                    old_items,
                                ).push(c@));
                            }
                            items.push(c);
                        },
                        Ok(BlockOut::Skip(p)) => {
                            proof {
                                assert(views(old_skipped.push(p)) =~= views(old_skipped).push(p@));
                            }
                            skipped.push(p);
                        },
                        Err(m) => {
                            proof {
                                assert(spec_blocks_render(bs@.take(i + 1), *self, files.entries@)
                                    == Err::<(Seq<ContentView>, Seq<Seq<char>>), Seq<char>>(m@));
                                lemma_blocks_render_err(bs@, *self, files.entries@, i + 1);
                                assert(self.blocks matches Some(b) && b@ == bs@);
                            }
                            return Err(m);
                        },
                    }
                    i += 1;
                }
                proof {
                    assert(bs@.take(bs@.len() as int) =~= bs@);
                }
                Ok(Rendered { items, skipped })
            },
        }
    }

    /// Render this body's full content sequence: the text pass, then images,
    /// files and videos from the flat lists.
    pub fn content(&self, files: &KeyedList<u64>) -> (r: Result<Rendered, String>)
        ensures
            match spec_body_content(*self, files.entries@) {
                Ok(acc) => r matches Ok(out) && content_views(out.items@) == acc.0 && views(
                    out.skipped@,
                ) == acc.1,
                Err(e) => r matches Err(m) && m@ == e,
            },
    {
        let mut out = match self.text(files) {
            Ok(out) => out,
            Err(m) => {
                return Err(m);
            },
        };
        let ghost base_items = content_views(out.items@);
        let ghost base_skipped = views(out.skipped@);
        match &self.images {
            None => {
                proof {
                    assert(content_views(out.items@) =~= base_items + Seq::<ContentView>::empty());
                }
            },
            Some(imgs) => {
                let mut i: usize = 0;
                proof {
                    let f = |im: PostImage| spec_image_item(im, files.entries@);
                    assert(content_views(out.items@) =~= base_items + imgs@.subrange(
                        0,
                        0,
                    ).map_values(f));
                }
                while i < imgs.len()
                    invariant
                        i <= imgs@.len(),
                        self.images matches Some(l) && l == imgs,
                        content_views(out.items@) == base_items + imgs@.subrange(
                            0,
                            i as int,
                        ).map_values(|im: PostImage| spec_image_item(im, files.entries@)),
                        views(out.skipped@) == base_skipped,
                    decreases imgs@.len() - i,
                {
                    let ghost old_items = out.items@;
                    let item = match files.get(imgs[i].id.as_str()) {
                        Some(fid) => Content::File(*fid),
                        None => Content::Text(imgs[i].id.clone()),
                    };
                    proof {
                        assert(item@ == spec_image_item(imgs@[i as int], files.entries@));
                        assert(content_views(old_items.push(item)) =~= content_views(
                            old_items,
                        ).push(item@));
                        let f = |im: PostImage| spec_image_item(im, files.entries@);
                        assert(imgs@.subrange(0, i + 1).map_values(f) =~= imgs@.subrange(
                            0,
                            i as int,
                        ).map_values(f).push(f(imgs@[i as int])));
                    }
                    out.items.push(item);
                    i += 1;
                }
                proof {
                    assert(imgs@.subrange(0, imgs@.len() as int) =~= imgs@);
                }
            },
        }
        let ghost after_images = content_views(out.items@);
        match &self.files {
            None => {
                proof {
                    assert(content_views(out.items@) =~= after_images + Seq::<
                        ContentView,
                    >::empty());
                }
            },
            Some(fls) => {
                let mut i: usize = 0;
                proof {
                    let f = |x: PostFile| spec_file_item(x, files.entries@);
                    assert(content_views(out.items@) =~= after_images + fls@.subrange(
                        0,
                        0,
                    ).map_values(f));
                }
                while i < fls.len()
                    invariant
                        i <= fls@.len(),
                        self.files matches Some(l) && l == fls,
                        content_views(out.items@) == after_images + fls@.subrange(
                            0,
                            i as int,
                        ).map_values(|x: PostFile| spec_file_item(x, files.entries@)),
                        views(out.skipped@) == base_skipped,
                    decreases fls@.len() - i,
                {
                    let ghost old_items = out.items@;
                    let item = match files.get(fls[i].id.as_str()) {
                        Some(fid) => Content::File(*fid),
                        None => Content::Text(fls[i].id.clone()),
                    };
                    proof {
                        assert(item@ == spec_file_item(fls@[i as int], files.entries@));
                        assert(content_views(old_items.push(item)) =~= content_views(
                            old_items,
                        ).push(item@));
                        let f = |x: PostFile| spec_file_item(x, files.entries@);
                        assert(fls@.subrange(0, i + 1).map_values(f) =~= fls@.subrange(
                            0,
                            i as int,
                        ).map_values(f).push(f(fls@[i as int])));
                    }
                    out.items.push(item);
                    i += 1;
                }
                proof {
                    assert(fls@.subrange(0, fls@.len() as int) =~= fls@);
                }
            },
        }
        let ghost after_files = content_views(out.items@);
        match &self.videos {
            None => {
                proof {
                    assert(content_views(out.items@) =~= after_files + Seq::<ContentView>::empty());
                    assert(views(out.skipped@) =~= base_skipped + Seq::<Seq<char>>::empty());
                }
            },
            Some(vids) => {
                let mut i: usize = 0;
                proof {
                    assert(vids@.take(0) =~= Seq::<PostVideo>::empty());
                    assert(content_views(out.items@) =~= after_files + Seq::<
                        ContentView,
                    >::empty());
                    assert(views(out.skipped@) =~= base_skipped + Seq::<Seq<char>>::empty());
                }
                while i < vids.len()
                    invariant
                        i <= vids@.len(),
                        self.videos matches Some(l) && l == vids,
                        content_views(out.items@) == after_files + spec_videos_render(
                            vids@.take(i as int),
                        ).0,
                        views(out.skipped@) == base_skipped + spec_videos_render(
                            vids@.take(i as int),
                        ).1,
                    decreases vids@.len() - i,
                {
                    let ghost old_items = out.items@;
                    let ghost old_skipped = out.skipped@;
                    proof {
                        assert(vids@.take(i + 1).drop_last() =~= vids@.take(i as int));
                        assert(vids@.take(i + 1).last() == vids@[i as int]);
                    }
                    match vids[i].to_text() {
                        Some(t) => {
                            let item = Content::Text(t);
                            proof {
                                assert(content_views(old_items.push(item)) =~= content_views(
                                    old_items,
                                ).push(item@));
                            }
                            out.items.push(item);
                        },
                        None => {
                            let p = vids[i].service_provider.clone();
                            proof {
                                assert(views(old_skipped.push(p)) =~= views(old_skipped).push(p@));
                            }
                            out.skipped.push(p);
                        },
                    }
                    i += 1;
                }
                proof {
                    assert(vids@.take(vids@.len() as int) =~= vids@);
                }
            },
        }
        Ok(out)
    }
}

impl PostTextEmbed {
    /// Render this URL embed as Markdown-like text.
    pub fn to_text(&self) -> (r: String)
        ensures
            r@ == spec_text_embed_text(*self),
    {
        match self {
            PostTextEmbed::Html { id: _, html } => iframe_text(html.as_str()),
            PostTextEmbed::HtmlCard { id: _, html } => iframe_text(html.as_str()),
            PostTextEmbed::FanboxPost { id: _, post_info } => {
                let link = get_source_link(post_info.creator_id.as_str(), post_info.id.as_str());
                let mut s = String::from_str("[Fanbox Post ");
                s.append(post_info.title.as_str());
                s.append("](");
                s.append(link.as_str());
                s.append(")");
                s
            },
            PostTextEmbed::FanboxCreator { id: _, profile } => {
                let mut s = String::from_str("[Creator ");
                s.append(profile.name.as_str());
                s.append("](https://");
                s.append(profile.creator_id.as_str());
                s.append(".fanbox.cc)");
                s
            },
            PostTextEmbed::Default { id: _, url, host: _ } => {
                let mut s = String::from_str("[");
                s.append(url.as_str());
                s.append("](");
                s.append(url.as_str());
                s.append(")");
                s
            },
        }
    }
}

} // verus!
