use fanbox_archive::config::CacheCleanup;
use fanbox_archive::config::Config;
use fanbox_archive::config::SaveType;
use fanbox_archive::config::Strategy;
use fanbox_archive::creators::display_creators;
use fanbox_archive::creators::merge_creators;
use fanbox_archive::creators::select_posts;
use fanbox_archive::fanbox::Creator;
use fanbox_archive::fanbox::PostListItem;
use fanbox_archive::sync::ArchiveIndex;

fn creator(id: &str, name: &str, fee: u32) -> Creator {
    Creator { creator_id: id.to_string(), name: name.to_string(), fee }
}

fn config() -> Config {
    Config {
        session: "sess".to_string(),
        output: "./archive".to_string(),
        save: SaveType::Supporting,
        strategy: Strategy::Increment,
        whitelist: vec![],
        blacklist: vec![],
        limit: 60,
        skip_free: false,
        user_agent: None,
        cookies: None,
        clearance: None,
        cache_path: None,
        no_cache: false,
        force: false,
    }
}

fn post(id: &str, fee: u32, restricted: bool, updated: i64) -> PostListItem {
    PostListItem {
        id: id.to_string(),
        title: String::new(),
        fee_required: fee,
        published_datetime: 0,
        updated_datetime: updated,
        tags: vec![],
        comment_count: 0,
        is_restricted: restricted,
        creator_id: "alice".to_string(),
        has_adult_content: false,
        cover: None,
    }
}

#[test]
fn creators_merge_by_id_with_last_seen_fee() {
    let following = vec![creator("alice", "Alice", 0), creator("bob", "Bob", 0)];
    let supporting = vec![creator("alice", "Alice", 500)];
    let merged = merge_creators(following, supporting);
    assert_eq!(merged.len(), 2);
    assert_eq!(merged[0].creator_id, "alice");
    assert_eq!(merged[0].fee, 500);
    assert_eq!(merged[1].creator_id, "bob");
}

#[test]
fn creator_table_is_sorted_and_framed() {
    let creators = vec![creator("zoe", "Zoe", 1000), creator("amy", "Amy", 5)];
    let lines = display_creators(&creators);
    assert_eq!(lines.len(), 5);
    assert_eq!(lines[0], "+- CreatorId -+- Fee --+- Name ------- - -");
    assert_eq!(lines[1], format!("| {:<11} | {:>5}$ | {}", "amy", 5, "Amy"));
    assert_eq!(lines[2], format!("| {:<11} | {:>5}$ | {}", "zoe", 1000, "Zoe"));
    assert_eq!(
        lines[3],
        format!("+-{}-+-{}--+-------------- - -", "-".repeat(11), "-".repeat(5))
    );
    assert_eq!(lines[4], "");
}

#[test]
fn creator_filter_applies_lists_and_free_skip() {
    let mut cfg = config();
    assert!(cfg.filter_creator(&creator("alice", "Alice", 0)));
    cfg.skip_free = true;
    assert!(!cfg.filter_creator(&creator("alice", "Alice", 0)));
    assert!(cfg.filter_creator(&creator("alice", "Alice", 500)));
    cfg.skip_free = false;
    cfg.whitelist = vec!["bob".to_string()];
    assert!(!cfg.filter_creator(&creator("alice", "Alice", 500)));
    assert!(cfg.filter_creator(&creator("bob", "Bob", 0)));
    cfg.whitelist = vec![];
    cfg.blacklist = vec!["alice".to_string()];
    assert!(!cfg.filter_creator(&creator("alice", "Alice", 500)));
}

#[test]
fn post_filter_drops_restricted_and_optionally_free() {
    let mut cfg = config();
    assert!(cfg.filter_post(&post("1", 0, false, 0)));
    assert!(!cfg.filter_post(&post("2", 0, true, 0)));
    cfg.skip_free = true;
    assert!(!cfg.filter_post(&post("3", 0, false, 0)));
    assert!(cfg.filter_post(&post("4", 500, false, 0)));
}

#[test]
fn selection_respects_dedup_unless_forced() {
    let mut archived = ArchiveIndex::new();
    archived.record("https://alice.fanbox.cc/posts/1".to_string(), 1000);
    let cfg = config();
    let posts = vec![post("1", 0, false, 1000), post("2", 0, false, 2000)];
    let selected = select_posts(posts, &cfg, &archived);
    assert_eq!(selected.len(), 1);
    assert_eq!(selected[0].id, "2");

    let mut forced = config();
    forced.strategy = Strategy::Force;
    let posts = vec![post("1", 0, false, 1000), post("2", 0, false, 2000)];
    let selected = select_posts(posts, &forced, &archived);
    assert_eq!(selected.len(), 2);
}

#[test]
fn session_and_clearance_cookies_normalise() {
    let mut cfg = config();
    cfg.session = "abc".to_string();
    assert_eq!(cfg.session(), "FANBOXSESSID=abc");
    cfg.session = "FANBOXSESSID=abc".to_string();
    assert_eq!(cfg.session(), "FANBOXSESSID=abc");
    assert_eq!(cfg.clearance(), "cf_clearance=");
    cfg.clearance = Some("tok".to_string());
    assert_eq!(cfg.clearance(), "cf_clearance=tok");
    cfg.clearance = Some("cf_clearance=tok".to_string());
    assert_eq!(cfg.clearance(), "cf_clearance=tok");
}

#[test]
fn cookie_header_deduplicates_and_appends_session() {
    let mut cfg = config();
    cfg.session = "FANBOXSESSID=abc;".to_string();
    cfg.cookies = Some("a=1; b=2; a=3".to_string());
    assert_eq!(cfg.cookies(), "a=3;b=2;FANBOXSESSID=abc");
    cfg.cookies = None;
    assert_eq!(cfg.cookies(), "FANBOXSESSID=abc");
    cfg.cookies = Some("FANBOXSESSID=old; x=y".to_string());
    assert_eq!(cfg.cookies(), "FANBOXSESSID=abc;x=y");
}

#[test]
fn save_type_names_and_acceptance() {
    assert_eq!(SaveType::All.as_str(), "all");
    assert_eq!(SaveType::Following.as_str(), "following");
    assert_eq!(SaveType::Supporting.as_str(), "supporting");
    assert!(SaveType::All.accept_following());
    assert!(SaveType::All.accept_supporting());
    assert!(!SaveType::Supporting.accept_following());
    assert_eq!(SaveType::All.list(), vec!["following", "supporting"]);
    assert_eq!(SaveType::Following.list(), vec!["following"]);
}

#[test]
fn strategy_names() {
    assert_eq!(Strategy::Increment.as_str(), "increment");
    assert_eq!(Strategy::Full.as_str(), "full");
    assert_eq!(Strategy::Force.as_str(), "force");
}

#[test]
fn cache_location_respects_flags() {
    let mut cfg = config();
    assert_eq!(cfg.cache(), Some(".".to_string()));
    cfg.cache_path = Some("/tmp/cache".to_string());
    assert_eq!(cfg.cache(), Some("/tmp/cache".to_string()));
    cfg.no_cache = true;
    assert_eq!(cfg.cache(), None);
    cfg.no_cache = false;
    cfg.force = true;
    assert_eq!(cfg.cache(), None);
}

#[test]
fn cache_cleanup_queues_writes() {
    let mut cleanup = CacheCleanup::new();
    cleanup.push("postList.json".to_string(), vec![1, 2, 3]);
    assert_eq!(cleanup.pending.len(), 1);
    assert_eq!(cleanup.pending[0].0, "postList.json");
    assert_eq!(cleanup.pending[0].1, vec![1, 2, 3]);
}

#[test]
fn defaults_match_the_command_line_defaults() {
    assert_eq!(SaveType::default(), SaveType::Supporting);
    assert_eq!(Strategy::default(), Strategy::Increment);
}
