use fanbox_archive::body::BlockOut;
use fanbox_archive::body::Content;
use fanbox_archive::fanbox::KeyedList;
use fanbox_archive::fanbox::PostBlock;
use fanbox_archive::fanbox::PostBlockStyle;
use fanbox_archive::fanbox::PostBody;
use fanbox_archive::fanbox::PostEmbed;
use fanbox_archive::fanbox::PostListItem;
use fanbox_archive::fanbox::PostTextEmbed;
use fanbox_archive::fanbox::PostImage;
use fanbox_archive::fanbox::PostVideo;

fn bold(offset: u32, length: u32) -> PostBlockStyle {
    PostBlockStyle { ty: "bold".to_string(), offset, length }
}

fn no_files() -> KeyedList<u64> {
    KeyedList::new()
}

#[test]
fn overlapping_bold_spans_stay_balanced() {
    let styled = PostBlock::style_text(
        "abcdefgh".to_string(),
        Some(vec![bold(0, 5), bold(2, 6)]),
    )
    .unwrap();
    assert_eq!(styled, "**ab**cde**fgh**");
    let stars = styled.chars().filter(|c| *c == '*').count();
    assert_eq!(stars % 4, 0);
}

#[test]
fn style_text_without_styles_is_identity() {
    assert_eq!(
        PostBlock::style_text("plain".to_string(), None),
        Some("plain".to_string())
    );
    assert_eq!(
        PostBlock::style_text("plain".to_string(), Some(vec![])),
        Some("plain".to_string())
    );
}

#[test]
fn unknown_style_kind_fails_loudly() {
    let styles = vec![PostBlockStyle { ty: "italic".to_string(), offset: 0, length: 2 }];
    assert_eq!(PostBlock::style_text("ab".to_string(), Some(styles)), None);
}

#[test]
fn out_of_range_span_marks_are_dropped() {
    let styled = PostBlock::style_text("ab".to_string(), Some(vec![bold(0, 9)])).unwrap();
    assert_eq!(styled, "**ab");
}

#[test]
fn video_renders_only_known_providers() {
    let yt = PostVideo { service_provider: "youtube".to_string(), video_id: "dQw4".to_string() };
    assert_eq!(
        yt.to_text().unwrap(),
        "[![youtube](https://img.youtube.com/vi/dQw4/0.jpg)](https://www.youtube.com/watch?v=dQw4)"
    );
    let other = PostVideo { service_provider: "vimeo".to_string(), video_id: "x".to_string() };
    assert_eq!(other.to_text(), None);
}

#[test]
fn embed_renders_by_provider() {
    let form = PostEmbed {
        id: "e1".to_string(),
        service_provider: "google_forms".to_string(),
        content_id: "FORM".to_string(),
    };
    assert_eq!(
        form.to_text().unwrap(),
        "[Google Form](https://docs.google.com/forms/d/e/FORM/viewform)"
    );
    let tweet = PostEmbed {
        id: "e2".to_string(),
        service_provider: "twitter".to_string(),
        content_id: "123".to_string(),
    };
    assert_eq!(
        tweet.to_text().unwrap(),
        "[Tweet](https://twitter.com/i/web/status/123)"
    );
    let fanbox = PostEmbed {
        id: "e3".to_string(),
        service_provider: "fanbox".to_string(),
        content_id: "creator/alice/post/42".to_string(),
    };
    assert_eq!(
        fanbox.to_text().unwrap(),
        "[Fanbox Post (alice/42)](https://alice.fanbox.cc/posts/42)"
    );
    let malformed = PostEmbed {
        id: "e4".to_string(),
        service_provider: "fanbox".to_string(),
        content_id: "something-else".to_string(),
    };
    assert_eq!(malformed.to_text(), None);
    let unknown = PostEmbed {
        id: "e5".to_string(),
        service_provider: "soundcloud".to_string(),
        content_id: "x".to_string(),
    };
    assert_eq!(unknown.to_text(), None);
}

#[test]
fn url_embed_mines_iframe_source() {
    let html = PostTextEmbed::Html {
        id: "u1".to_string(),
        html: "<p><iframe src=\"https://play.example/w\" width=\"10\"></iframe>".to_string(),
    };
    assert_eq!(
        html.to_text(),
        "[https://play.example/w](https://play.example/w)"
    );
    let broken = PostTextEmbed::HtmlCard {
        id: "u2".to_string(),
        html: "no frames here".to_string(),
    };
    assert_eq!(broken.to_text(), "[Invalid URL Embed]");
    let plain = PostTextEmbed::Default {
        id: "u3".to_string(),
        url: "https://a.example".to_string(),
        host: "a.example".to_string(),
    };
    assert_eq!(plain.to_text(), "[https://a.example](https://a.example)");
}

#[test]
fn url_embed_renders_platform_post_link() {
    let info = PostListItem {
        id: "42".to_string(),
        title: "A Title".to_string(),
        fee_required: 0,
        published_datetime: 0,
        updated_datetime: 0,
        tags: vec![],
        comment_count: 0,
        is_restricted: false,
        creator_id: "alice".to_string(),
        has_adult_content: false,
        cover: None,
    };
    let e = PostTextEmbed::FanboxPost { id: "u4".to_string(), post_info: info };
    assert_eq!(
        e.to_text(),
        "[Fanbox Post A Title](https://alice.fanbox.cc/posts/42)"
    );
}

fn body_with(text: Option<&str>, blocks: Vec<PostBlock>) -> PostBody {
    let mut b = PostBody::empty();
    b.text = text.map(|t| t.to_string());
    b.blocks = Some(blocks);
    b
}

#[test]
fn flat_text_is_emitted_first_with_line_breaks() {
    let body = body_with(Some("one\ntwo"), vec![]);
    let out = body.text(&no_files()).unwrap();
    assert_eq!(out.items, vec![Content::Text("one<br>two".to_string())]);
    assert!(out.skipped.is_empty());
}

#[test]
fn unresolved_references_degrade_to_text() {
    let body = body_with(
        None,
        vec![
            PostBlock::Image { image_id: "img9".to_string() },
            PostBlock::File { file_id: "file7".to_string() },
            PostBlock::Embed { embed_id: "e9".to_string() },
            PostBlock::UrlEmbed { url_embed_id: "u9".to_string() },
            PostBlock::Video { video_id: "v9".to_string() },
        ],
    );
    let out = body.text(&no_files()).unwrap();
    assert_eq!(
        out.items,
        vec![
            Content::Text("img9".to_string()),
            Content::Text("file7".to_string()),
            Content::Text("[Embed not found: e9]".to_string()),
            Content::Text("[URL Embed not found: u9]".to_string()),
            Content::Text("v9".to_string()),
        ]
    );
}

#[test]
fn resolved_image_block_becomes_file_item() {
    let mut files = KeyedList::new();
    files.push("img1".to_string(), 77u64);
    let body = body_with(None, vec![PostBlock::Image { image_id: "img1".to_string() }]);
    let out = body.text(&files).unwrap();
    assert_eq!(out.items, vec![Content::File(77)]);
}

#[test]
fn empty_paragraph_keeps_visual_spacing() {
    let body = body_with(
        None,
        vec![
            PostBlock::P { text: String::new(), styles: None },
            PostBlock::Header { text: "H".to_string(), styles: None },
        ],
    );
    let out = body.text(&no_files()).unwrap();
    assert_eq!(
        out.items,
        vec![
            Content::Text("<br>".to_string()),
            Content::Text("# H".to_string()),
        ]
    );
}

#[test]
fn unknown_style_in_block_fails_the_post() {
    let body = body_with(
        None,
        vec![PostBlock::P {
            text: "ab".to_string(),
            styles: Some(vec![PostBlockStyle { ty: "wavy".to_string(), offset: 0, length: 1 }]),
        }],
    );
    assert_eq!(body.text(&no_files()), Err("wavy".to_string()));
}

#[test]
fn unknown_providers_are_reported_not_fatal() {
    let mut b = body_with(None, vec![PostBlock::Video { video_id: "v1".to_string() }]);
    b.videos = Some(vec![PostVideo {
        service_provider: "vimeo".to_string(),
        video_id: "v1".to_string(),
    }]);
    let out = b.text(&no_files()).unwrap();
    assert!(out.items.is_empty());
    assert_eq!(out.skipped, vec!["vimeo".to_string()]);
}

#[test]
fn block_to_text_matches_body_rendering() {
    let body = body_with(None, vec![]);
    let block = PostBlock::P { text: "hi".to_string(), styles: None };
    match block.to_text(&body, &no_files()) {
        Ok(BlockOut::Item(Content::Text(t))) => assert_eq!(t, "hi"),
        other => panic!("unexpected rendering: {other:?}"),
    }
}

#[test]
fn content_appends_flat_lists_and_is_deterministic() {
    let mut body = body_with(Some("intro"), vec![]);
    body.images = Some(vec![PostImage {
        id: "img1".to_string(),
        extension: "png".to_string(),
        width: 1,
        height: 1,
        original_url: "https://i.example/img1.png".to_string(),
        thumbnail_url: "https://i.example/t.png".to_string(),
    }]);
    body.videos = Some(vec![PostVideo {
        service_provider: "youtube".to_string(),
        video_id: "abc".to_string(),
    }]);
    let mut files = KeyedList::new();
    files.push("img1".to_string(), 5u64);
    let first = body.content(&files).unwrap();
    let second = body.content(&files).unwrap();
    assert_eq!(first.items, second.items);
    assert_eq!(first.skipped, second.skipped);
    assert_eq!(
        first.items,
        vec![
            Content::Text("intro".to_string()),
            Content::File(5),
            Content::Text(
                "[![youtube](https://img.youtube.com/vi/abc/0.jpg)](https://www.youtube.com/watch?v=abc)"
                    .to_string()
            ),
        ]
    );
}
