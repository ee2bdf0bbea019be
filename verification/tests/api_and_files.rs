use fanbox_archive::api::ApiError;
use fanbox_archive::api::comment_walk_step;
use fanbox_archive::api::following_creators_url;
use fanbox_archive::api::paginate_creator_url;
use fanbox_archive::api::post_comments_url;
use fanbox_archive::api::post_info_url;
use fanbox_archive::api::should_fetch_comments;
use fanbox_archive::api::supporting_creators_url;
use fanbox_archive::api::unwrap_envelope;
use fanbox_archive::fanbox::Comment;
use fanbox_archive::fanbox::CommentList;
use fanbox_archive::fanbox::FanboxAPIResponse;
use fanbox_archive::fanbox::PostBody;
use fanbox_archive::fanbox::Post;
use fanbox_archive::fanbox::PostComments;
use fanbox_archive::fanbox::PostFile;
use fanbox_archive::fanbox::PostImage;
use fanbox_archive::fanbox::User;
use fanbox_archive::files::ArchiveFile;
use fanbox_archive::files::FanboxFileMeta;
use fanbox_archive::files::FileMeta;
use fanbox_archive::files::collect_download_urls;
use fanbox_archive::strings::u32_to_string;
use fanbox_archive::strings::u64_to_string;

#[test]
fn envelope_body_unwraps() {
    let resp = FanboxAPIResponse { body: Some(5u32), error: String::new() };
    assert_eq!(unwrap_envelope(resp), Ok(5));
}

#[test]
fn general_error_is_a_dead_session() {
    let resp: FanboxAPIResponse<u32> =
        FanboxAPIResponse { body: None, error: "general_error".to_string() };
    assert_eq!(unwrap_envelope(resp), Err(ApiError::InvalidSession));
}

#[test]
fn other_errors_keep_their_text() {
    let resp: FanboxAPIResponse<u32> =
        FanboxAPIResponse { body: None, error: "rate_limited".to_string() };
    assert_eq!(
        unwrap_envelope(resp),
        Err(ApiError::InvalidResponse("rate_limited".to_string()))
    );
}

#[test]
fn endpoint_urls_are_exact() {
    assert_eq!(
        supporting_creators_url(),
        "https://api.fanbox.cc/plan.listSupporting"
    );
    assert_eq!(
        following_creators_url(),
        "https://api.fanbox.cc/creator.listFollowing"
    );
    assert_eq!(
        paginate_creator_url("alice"),
        "https://api.fanbox.cc/post.paginateCreator?creatorId=alice"
    );
    assert_eq!(
        post_info_url("42"),
        "https://api.fanbox.cc/post.info?postId=42"
    );
    assert_eq!(
        post_comments_url("42"),
        "https://api.fanbox.cc/post.getComments?postId=42&limit=10"
    );
}

fn comment(id: &str) -> Comment {
    Comment {
        id: id.to_string(),
        parent_comment_id: "0".to_string(),
        root_comment_id: "0".to_string(),
        body: "b".to_string(),
        created_datetime: 0,
        user: User { user_id: "1".to_string(), name: "n".to_string() },
        replies: None,
    }
}

#[test]
fn comment_walk_accumulates_and_follows_cursor() {
    assert!(!should_fetch_comments(0));
    assert!(should_fetch_comments(3));
    let acc = vec![comment("1")];
    let page = PostComments {
        comment_list: Some(CommentList {
            items: vec![comment("2"), comment("3")],
            next_url: Some("https://next.example".to_string()),
        }),
    };
    let (acc, next) = comment_walk_step(acc, page);
    assert_eq!(acc.len(), 3);
    assert_eq!(acc[2].id, "3");
    assert_eq!(next, Some("https://next.example".to_string()));
    let (acc, next) = comment_walk_step(acc, PostComments { comment_list: None });
    assert_eq!(acc.len(), 3);
    assert_eq!(next, None);
}

fn image(id: &str, ext: &str, url: &str) -> PostImage {
    PostImage {
        id: id.to_string(),
        extension: ext.to_string(),
        width: 640,
        height: 480,
        original_url: url.to_string(),
        thumbnail_url: "https://t.example/t".to_string(),
    }
}

fn post_file(name: &str, ext: &str, url: &str) -> PostFile {
    PostFile {
        id: format!("{name}-id"),
        name: name.to_string(),
        extension: ext.to_string(),
        size: 10,
        url: url.to_string(),
    }
}

#[test]
fn file_meta_from_url_guesses_from_the_last_segment() {
    let m = FileMeta::from_url("https://d.example/covers/cover.png".to_string());
    assert_eq!(m.filename, "cover.png");
    assert_eq!(m.mime, "image/png");
    assert_eq!(m.data, "https://d.example/covers/cover.png");
    assert_eq!(m.width, None);
}

#[test]
fn file_meta_from_image_and_file_guess_from_extension() {
    let m = FileMeta::from_image(image("img1", "jpeg", "https://d.example/i.jpeg"));
    assert_eq!(m.filename, "img1.jpeg");
    assert_eq!(m.mime, "image/jpeg");
    assert_eq!((m.width, m.height), (Some(640), Some(480)));
    let m = FileMeta::from_file(post_file("song", "mp3", "https://d.example/s.mp3"));
    assert_eq!(m.filename, "song.mp3");
    assert_eq!(m.mime, "audio/mpeg");
    assert_eq!(m.width, None);
}

#[test]
fn video_extensions_are_classified() {
    assert!(PostBody::is_video("mp4"));
    assert!(PostBody::is_video("avi"));
    assert!(!PostBody::is_video("txt"));
    assert!(!PostBody::is_video("png"));
    assert!(!PostBody::is_video(""));
}

#[test]
fn downloaded_attachments_split_into_video_and_file() {
    let f = post_file("clip", "mp4", "https://d.example/c.mp4");
    match PostBody::parse_video_or_file(&f, "alice/42/clip.mp4".to_string()) {
        ArchiveFile::Video { path, filename } => {
            assert_eq!(path, "alice/42/clip.mp4");
            assert_eq!(filename, "clip.mp4");
        },
        other => panic!("expected a video placement: {other:?}"),
    }
    let f = post_file("notes", "txt", "https://d.example/n.txt");
    assert!(matches!(
        PostBody::parse_video_or_file(&f, "alice/42/notes.txt".to_string()),
        ArchiveFile::File { .. }
    ));
}

#[test]
fn download_request_covers_files_images_and_cover() {
    let mut body = PostBody::empty();
    body.images = Some(vec![image("img1", "png", "https://d.example/img1.png")]);
    body.files = Some(vec![post_file("doc", "pdf", "https://d.example/doc.pdf")]);
    let post = Post {
        id: "42".to_string(),
        title: String::new(),
        fee_required: 0,
        published_datetime: 0,
        updated_datetime: 0,
        tags: vec![],
        comment_count: 0,
        is_restricted: false,
        user: User { user_id: "1".to_string(), name: "Alice".to_string() },
        creator_id: "alice".to_string(),
        has_adult_content: false,
        cover_image_url: Some("https://d.example/cover.jpg".to_string()),
        body: Some(body),
    };
    let urls = collect_download_urls(&post);
    assert_eq!(
        urls,
        vec![
            "https://d.example/img1.png".to_string(),
            "https://d.example/doc.pdf".to_string(),
            "https://d.example/cover.jpg".to_string(),
        ]
    );
}

#[test]
fn body_lists_concatenate_flat_and_table_entries() {
    let mut body = PostBody::empty();
    body.images = Some(vec![image("a", "png", "https://d.example/a.png")]);
    let mut map = fanbox_archive::fanbox::KeyedList::new();
    map.push("b".to_string(), image("b", "png", "https://d.example/b.png"));
    body.image_map = Some(map);
    let images = body.images();
    assert_eq!(images.len(), 2);
    assert_eq!(images[0].id, "a");
    assert_eq!(images[1].id, "b");
    let metas = body.file_metas();
    assert_eq!(metas.len(), 2);
    assert_eq!(metas[0].filename, "a.png");
    assert_eq!(metas[1].filename, "b.png");
}

#[test]
fn decimal_rendering_is_exact() {
    assert_eq!(u64_to_string(0), "0");
    assert_eq!(u64_to_string(7), "7");
    assert_eq!(u64_to_string(1203), "1203");
    assert_eq!(u32_to_string(4294967295), "4294967295");
}
