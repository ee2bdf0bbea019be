use fanbox_archive::context::CachedCreators;
use fanbox_archive::context::Context;
use fanbox_archive::context::queue_for_run;
use fanbox_archive::fanbox::PostListItem;
use fanbox_archive::pagination::plan_pages;
use fanbox_archive::sync::ArchiveIndex;
use fanbox_archive::sync::filter_unsynced_post;

fn item(id: &str, updated: i64) -> PostListItem {
    PostListItem {
        id: id.to_string(),
        title: format!("post {id}"),
        fee_required: 500,
        published_datetime: updated - 100,
        updated_datetime: updated,
        tags: vec![],
        comment_count: 0,
        is_restricted: false,
        creator_id: "alice".to_string(),
        has_adult_content: false,
        cover: None,
    }
}

#[test]
fn last_updated_honours_fee_tier() {
    let c = CachedCreators { updated: 1000, fee: 500 };
    assert_eq!(c.last_updated(500), Some(1000));
    assert_eq!(c.last_updated(0), Some(1000));
    assert_eq!(c.last_updated(501), None);
}

#[test]
fn update_is_monotonic() {
    let mut c = CachedCreators::new();
    c.update(1000, 500);
    assert_eq!((c.updated, c.fee), (1000, 500));
    c.update(400, 300);
    assert_eq!((c.updated, c.fee), (1000, 500));
    c.update(1200, 200);
    assert_eq!((c.updated, c.fee), (1200, 500));
    c.update(900, 800);
    assert_eq!((c.updated, c.fee), (1200, 800));
}

#[test]
fn context_tracks_creators_independently() {
    let mut ctx = Context::new();
    ctx.advance("alice".to_string(), 1000, 500);
    ctx.advance("bob".to_string(), 50, 100);
    ctx.advance("alice".to_string(), 700, 600);
    assert_eq!(ctx.last_updated_for("alice", 500), Some(1000));
    assert_eq!(ctx.last_updated_for("alice", 600), Some(1000));
    assert_eq!(ctx.last_updated_for("alice", 601), None);
    assert_eq!(ctx.last_updated_for("bob", 100), Some(50));
    // a creator never seen gets a fresh record
    assert_eq!(ctx.last_updated_for("carol", 0), Some(0));
    assert_eq!(ctx.last_updated_for("carol", 1), None);
}

#[test]
fn failed_post_ledger_round_trip() {
    let mut ctx = Context::new();
    ctx.set_failed_posts(vec![item("p1", 1000)]);
    let taken = ctx.take_failed_posts();
    assert_eq!(taken.len(), 1);
    assert_eq!(taken[0].id, "p1");
    assert_eq!(ctx.take_failed_posts().len(), 0);
}

#[test]
fn failed_posts_queue_before_fresh_discovery() {
    let ledger = vec![item("p1", 1000)];
    let fresh = vec![item("p2", 2000), item("p3", 3000)];
    let queue = queue_for_run(ledger, fresh);
    assert_eq!(queue.len(), 3);
    assert_eq!(queue[0].id, "p1");
    assert_eq!(queue[1].id, "p2");
    assert_eq!(queue[2].id, "p3");
}

#[test]
fn incremental_rescan_scenario() {
    // a creator checkpointed at updated=1000 with fee tier 500, fee unchanged
    let checkpoint = CachedCreators { updated: 1000, fee: 500 };
    let last = checkpoint.last_updated(500);
    assert_eq!(last, Some(1000));

    // pages dated at or before 1000 are skipped
    let dates = vec![Some(1500), Some(1000), Some(900)];
    let (fetched, newest) = plan_pages(&dates, last);
    assert_eq!(fetched, 1);
    assert_eq!(newest, 1500);

    // the dedup check drops the unchanged post and keeps the updated one
    let mut archived = ArchiveIndex::new();
    archived.record("https://alice.fanbox.cc/posts/9".to_string(), 1000);
    assert!(!filter_unsynced_post(&archived, &item("9", 1000)));
    assert!(filter_unsynced_post(&archived, &item("9", 1200)));
}
