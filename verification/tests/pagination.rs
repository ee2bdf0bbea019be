use fanbox_archive::fanbox::PostListItem;
use fanbox_archive::pagination::flatten_pages;
use fanbox_archive::pagination::page_checkpoint_date;
use fanbox_archive::pagination::page_dates;
use fanbox_archive::pagination::plan_pages;

fn item(id: &str) -> PostListItem {
    PostListItem {
        id: id.to_string(),
        title: String::new(),
        fee_required: 0,
        published_datetime: 0,
        updated_datetime: 0,
        tags: vec![],
        comment_count: 0,
        is_restricted: false,
        creator_id: "alice".to_string(),
        has_adult_content: false,
        cover: None,
    }
}

#[test]
fn pages_at_or_before_checkpoint_are_skipped() {
    // newest first; checkpoint 1000 cuts the scan at the page dated 1000
    let dates = vec![Some(3000), Some(2000), Some(1000), Some(500)];
    let (fetched, last) = plan_pages(&dates, Some(1000));
    assert_eq!(fetched, 2);
    assert_eq!(last, 3000);
}

#[test]
fn checkpoint_equal_to_newest_page_fetches_nothing() {
    let dates = vec![Some(3000), Some(2000)];
    let (fetched, last) = plan_pages(&dates, Some(3000));
    assert_eq!(fetched, 0);
    assert_eq!(last, 3000);
}

#[test]
fn no_checkpoint_fetches_every_page() {
    let dates = vec![Some(3000), Some(2000), Some(1000)];
    let (fetched, last) = plan_pages(&dates, None);
    assert_eq!(fetched, 3);
    assert_eq!(last, 3000);
}

#[test]
fn unparsed_page_dates_never_trigger_the_skip() {
    let dates = vec![None, Some(2000), Some(500)];
    let (fetched, last) = plan_pages(&dates, Some(1000));
    assert_eq!(fetched, 2);
    // the first parsed date among the scanned pages is reported
    assert_eq!(last, 2000);
}

#[test]
fn empty_page_list_reports_zero() {
    let dates: Vec<Option<i64>> = vec![];
    let (fetched, last) = plan_pages(&dates, Some(1000));
    assert_eq!(fetched, 0);
    assert_eq!(last, 0);
}

#[test]
fn page_url_datetime_is_extracted_and_parsed() {
    let url = "https://api.fanbox.cc/post.listCreator?creatorId=alice&firstPublishedDatetime=2023-01-01%2010%3A00%3A00";
    assert_eq!(page_checkpoint_date(url), Some(1672567200));
}

#[test]
fn page_url_without_datetime_has_no_date() {
    let url = "https://api.fanbox.cc/post.listCreator?creatorId=alice";
    assert_eq!(page_checkpoint_date(url), None);
    assert_eq!(page_checkpoint_date("not a url at all"), None);
}

#[test]
fn page_url_with_bad_datetime_has_no_date() {
    let url = "https://api.fanbox.cc/post.listCreator?firstPublishedDatetime=tomorrow";
    assert_eq!(page_checkpoint_date(url), None);
}

#[test]
fn page_dates_maps_each_url() {
    let urls = vec![
        "https://x.example/?firstPublishedDatetime=2023-01-01%2000%3A00%3A00".to_string(),
        "https://x.example/?other=1".to_string(),
    ];
    let dates = page_dates(&urls);
    assert_eq!(dates, vec![Some(1672531200), None]);
}

#[test]
fn flatten_keeps_page_order() {
    let pages = vec![vec![item("a"), item("b")], vec![], vec![item("c")]];
    let flat = flatten_pages(pages);
    let ids: Vec<&str> = flat.iter().map(|p| p.id.as_str()).collect();
    assert_eq!(ids, vec!["a", "b", "c"]);
}
