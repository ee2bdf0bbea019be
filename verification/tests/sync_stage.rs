use fanbox_archive::body::Content;
use fanbox_archive::fanbox::Comment;
use fanbox_archive::fanbox::KeyedList;
use fanbox_archive::fanbox::Post;
use fanbox_archive::fanbox::PostBody;
use fanbox_archive::fanbox::PostListItem;
use fanbox_archive::fanbox::User;
use fanbox_archive::sync::ArchiveIndex;
use fanbox_archive::sync::AuthorCache;
use fanbox_archive::sync::build_author_record;
use fanbox_archive::sync::build_post_record;
use fanbox_archive::sync::convert_comments;
use fanbox_archive::sync::filter_unsynced_post;
use fanbox_archive::sync::get_source_link;
use fanbox_archive::sync::match_placements;
use fanbox_archive::sync::PostSyncState;

fn list_item(updated: i64) -> PostListItem {
    PostListItem {
        id: "42".to_string(),
        title: "t".to_string(),
        fee_required: 0,
        published_datetime: 0,
        updated_datetime: updated,
        tags: vec![],
        comment_count: 0,
        is_restricted: false,
        creator_id: "alice".to_string(),
        has_adult_content: false,
        cover: None,
    }
}

#[test]
fn source_link_is_the_dedup_key() {
    assert_eq!(
        get_source_link("alice", "42"),
        "https://alice.fanbox.cc/posts/42"
    );
}

#[test]
fn dedup_check_excludes_unchanged_posts() {
    let mut archived = ArchiveIndex::new();
    archived.record("https://alice.fanbox.cc/posts/42".to_string(), 1000);
    // unchanged: same source, same updated timestamp
    assert!(!filter_unsynced_post(&archived, &list_item(1000)));
    // changed: same source, newer updated timestamp
    assert!(filter_unsynced_post(&archived, &list_item(1200)));
}

#[test]
fn missing_download_aborts_the_whole_post() {
    let placements = vec![
        ("alice/42/a.png".to_string(), "https://d.example/a.png".to_string()),
        ("alice/42/b.png".to_string(), "https://d.example/b.png".to_string()),
        ("alice/42/c.png".to_string(), "https://d.example/c.png".to_string()),
    ];
    let mut reply = KeyedList::new();
    reply.push("https://d.example/a.png".to_string(), "/tmp/a".to_string());
    reply.push("https://d.example/c.png".to_string(), "/tmp/c".to_string());
    let r = match_placements(&placements, &reply);
    assert_eq!(r, Err("https://d.example/b.png".to_string()));
}

#[test]
fn complete_download_reply_commits_every_placement() {
    let placements = vec![
        ("alice/42/a.png".to_string(), "https://d.example/a.png".to_string()),
        ("alice/42/b.png".to_string(), "https://d.example/b.png".to_string()),
    ];
    let mut reply = KeyedList::new();
    reply.push("https://d.example/b.png".to_string(), "/tmp/b".to_string());
    reply.push("https://d.example/a.png".to_string(), "/tmp/a".to_string());
    let r = match_placements(&placements, &reply).unwrap();
    assert_eq!(
        r,
        vec![
            ("alice/42/a.png".to_string(), "/tmp/a".to_string()),
            ("alice/42/b.png".to_string(), "/tmp/b".to_string()),
        ]
    );
}

fn comment(id: &str, name: &str, body: &str, replies: Option<Vec<Comment>>) -> Comment {
    Comment {
        id: id.to_string(),
        parent_comment_id: "0".to_string(),
        root_comment_id: "0".to_string(),
        body: body.to_string(),
        created_datetime: 0,
        user: User { user_id: "7".to_string(), name: name.to_string() },
        replies,
    }
}

#[test]
fn comments_convert_with_their_replies() {
    let input = vec![comment(
        "1",
        "ann",
        "hello",
        Some(vec![comment("2", "bob", "hi back", None)]),
    )];
    let out = convert_comments(&input);
    assert_eq!(out.len(), 1);
    assert_eq!(out[0].user, "ann");
    assert_eq!(out[0].text, "hello");
    assert_eq!(out[0].replies.len(), 1);
    assert_eq!(out[0].replies[0].user, "bob");
    assert_eq!(out[0].replies[0].text, "hi back");
    assert!(out[0].replies[0].replies.is_empty());
}

fn sample_post() -> Post {
    let mut body = PostBody::empty();
    body.text = Some("hello".to_string());
    Post {
        id: "42".to_string(),
        title: "A Post".to_string(),
        fee_required: 0,
        published_datetime: 100,
        updated_datetime: 200,
        tags: vec!["art".to_string()],
        comment_count: 0,
        is_restricted: false,
        user: User { user_id: "777".to_string(), name: "Alice".to_string() },
        creator_id: "alice".to_string(),
        has_adult_content: true,
        cover_image_url: Some("https://i.example/cover.jpg".to_string()),
        body: Some(body),
    }
}

#[test]
fn post_record_carries_tags_collections_and_thumb() {
    let post = sample_post();
    let files = KeyedList::new();
    let (rec, skipped) = build_post_record(3, 9, &post, &vec![], &files).unwrap();
    assert_eq!(rec.platform, 3);
    assert_eq!(rec.authors, vec![9]);
    assert_eq!(rec.source, "https://alice.fanbox.cc/posts/42");
    assert_eq!(rec.title, "A Post");
    assert_eq!(rec.published, 100);
    assert_eq!(rec.updated, 200);
    assert_eq!(rec.tags, vec!["free".to_string(), "r-18".to_string()]);
    assert_eq!(rec.collections.len(), 1);
    assert_eq!(rec.collections[0].name, "art");
    assert_eq!(rec.collections[0].source, "https://alice.fanbox.cc/tags/art");
    let thumb = rec.thumb.unwrap();
    assert_eq!(thumb.filename, "cover.jpg");
    assert_eq!(thumb.mime, "image/jpeg");
    assert_eq!(thumb.data, "https://i.example/cover.jpg");
    assert_eq!(thumb.width, Some(1200));
    assert_eq!(thumb.height, Some(630));
    assert_eq!(rec.content, vec![Content::Text("hello".to_string())]);
    assert!(skipped.is_empty());
}

#[test]
fn author_record_links_both_identities() {
    let post = sample_post();
    let rec = build_author_record(1, 2, &post);
    assert_eq!(rec.name, "Alice");
    assert_eq!(rec.aliases.len(), 2);
    assert_eq!(rec.aliases[0].platform, 1);
    assert_eq!(rec.aliases[0].external_id, "alice");
    assert_eq!(rec.aliases[0].link, "https://alice.fanbox.cc/");
    assert_eq!(rec.aliases[1].platform, 2);
    assert_eq!(rec.aliases[1].external_id, "777");
    assert_eq!(rec.aliases[1].link, "https://www.pixiv.net/users/777");
}

#[test]
fn author_cache_resolves_repeat_creators() {
    let mut cache = AuthorCache::new();
    assert_eq!(cache.get("alice"), None);
    cache.insert("alice".to_string(), 9);
    assert_eq!(cache.get("alice"), Some(9));
    assert_eq!(cache.get("bob"), None);
}

#[test]
fn sync_lifecycle_commits_only_on_a_complete_reply() {
    let placements = vec![("alice/42/a.png".to_string(), "https://d.example/a.png".to_string())];
    let empty_reply = KeyedList::new();
    let awaiting = PostSyncState::Fetched.step(false).step(false);
    assert_eq!(awaiting, PostSyncState::AwaitingFiles);
    let (state, matched) = awaiting.resolve(&placements, &empty_reply);
    assert_eq!(state, PostSyncState::Aborted);
    assert!(matched.is_none());

    let mut full_reply = KeyedList::new();
    full_reply.push("https://d.example/a.png".to_string(), "/tmp/a".to_string());
    let (state, matched) = awaiting.resolve(&placements, &full_reply);
    assert_eq!(state, PostSyncState::Committed);
    assert_eq!(
        matched.unwrap(),
        vec![("alice/42/a.png".to_string(), "/tmp/a".to_string())]
    );
}
