//! The incremental pagination planner. A creator's post index arrives as a
//! list of page URLs, newest first, each carrying a `firstPublishedDatetime`
//! query parameter. Given a checkpoint timestamp, the planner decides which
//! prefix of pages to fetch — a page whose datetime is at or before the
//! checkpoint, and every older page after it, is skipped — and reports the
//! newest datetime observed, which advances the checkpoint.

use vstd::prelude::*;
use crate::context::CachedCreators;
use crate::context::spec_advance;
use crate::context::spec_last_updated;
use crate::fanbox::PostListItem;

verus! {

/// What chrono computes for the platform's `%Y-%m-%d %H:%M:%S` datetime
/// strings: the UTC epoch seconds, or nothing for an unparsable string.
pub uninterp spec fn spec_datetime_epoch(s: Seq<char>) -> Option<i64>;

/// Relies on chrono's `NaiveDateTime::parse_from_str` with the platform's
/// `%Y-%m-%d %H:%M:%S` format, then `and_utc().timestamp()`: the epoch
/// seconds depend on the characters of the string alone.
#[verifier::external_body]
fn parse_datetime_utc(s: &str) -> (r: Option<i64>)
    ensures
        r == spec_datetime_epoch(s@),
{
    match chrono::NaiveDateTime::parse_from_str(s, "%Y-%m-%d %H:%M:%S") {
        Ok(dt) => Some(dt.and_utc().timestamp()),
        Err(_) => None,
    }
}

/// What the url crate computes: the percent-decoded value of the first query
/// parameter named `key`, a function of the URL string and the key alone.
pub uninterp spec fn spec_query_param(url: Seq<char>, key: Seq<char>) -> Option<Seq<char>>;

/// Relies on `url::Url::parse` and `Url::query_pairs`: parsing and query
/// decoding depend on the two strings alone.
#[verifier::external_body]
fn url_query_param(url: &str, key: &str) -> (r: Option<String>)
    ensures
        match spec_query_param(url@, key@) {
            Some(v) => r matches Some(s) && s@ == v,
            None => r is None,
        },
{
    match url::Url::parse(url) {
        Ok(u) => u.query_pairs().find(|(k, _)| k.as_ref() == key).map(|(_, v)| v.into_owned()),
        Err(_) => None,
    }
}

/// The checkpoint datetime a page URL carries, as epoch seconds.
pub open spec fn spec_page_date(url: Seq<char>) -> Option<i64> {
    match spec_query_param(url, "firstPublishedDatetime"@) {
        Some(v) => spec_datetime_epoch(v),
        None => None,
    }
}

/// Extract and parse the `firstPublishedDatetime` parameter of a page URL.
pub fn page_checkpoint_date(url: &str) -> (r: Option<i64>)
    ensures
        r == spec_page_date(url@),
{
    match url_query_param(url, "firstPublishedDatetime") {
        Some(v) => parse_datetime_utc(v.as_str()),
        None => None,
    }
}

/// The dates of a whole page-URL list, in order.
pub fn page_dates(urls: &Vec<String>) -> (r: Vec<Option<i64>>)
    ensures
        r@.len() == urls@.len(),
        forall|i: int| 0 <= i < urls@.len() ==> r@[i] == spec_page_date(urls@[i]@),
{
    let mut out: Vec<Option<i64>> = Vec::new();
    let mut i: usize = 0;
    while i < urls.len()
        invariant
            i <= urls@.len(),
            out@.len() == i,
            forall|j: int| 0 <= j < i ==> out@[j] == spec_page_date(urls@[j]@),
        decreases urls@.len() - i,
    {
        out.push(page_checkpoint_date(urls[i].as_str()));
        i += 1;
    }
    out
}

/// A page stops the scan when its datetime is at or before the checkpoint.
pub open spec fn page_triggers_skip(date: Option<i64>, checkpoint: Option<i64>) -> bool {
    date matches Some(d) && checkpoint matches Some(c) && d <= c
}

/// How many pages, from the newest, are fetched: the longest prefix in which
/// no page triggers the skip.
pub open spec fn spec_fetch_count(dates: Seq<Option<i64>>, checkpoint: Option<i64>) -> int
    decreases dates.len(),
{
    if dates.len() == 0 {
        0
    } else if page_triggers_skip(dates[0], checkpoint) {
        0
    } else {
        1 + spec_fetch_count(dates.drop_first(), checkpoint)
    }
}

/// The first parsed date among a date list.
pub open spec fn spec_first_some(dates: Seq<Option<i64>>) -> Option<i64>
    decreases dates.len(),
{
    if dates.len() == 0 {
        None
    } else if dates[0] is Some {
        dates[0]
    } else {
        spec_first_some(dates.drop_first())
    }
}

/// How many pages the planner looks at: the fetched prefix plus the page
/// that triggered the skip, when there is one.
pub open spec fn spec_scanned(dates: Seq<Option<i64>>, checkpoint: Option<i64>) -> int {
    if spec_fetch_count(dates, checkpoint) < dates.len() {
        spec_fetch_count(dates, checkpoint) + 1
    } else {
        dates.len() as int
    }
}

/// The "last date" the listing reports: the first parsed date among the
/// scanned pages — pages are newest first, so this is the newest — or 0 when
/// none parsed.
pub open spec fn spec_plan_last_date(dates: Seq<Option<i64>>, checkpoint: Option<i64>) -> i64 {
    match spec_first_some(dates.take(spec_scanned(dates, checkpoint))) {
        Some(d) => d,
        None => 0,
    }
}

proof fn lemma_fetch_count_bounds(dates: Seq<Option<i64>>, checkpoint: Option<i64>)
    ensures
        0 <= spec_fetch_count(dates, checkpoint) <= dates.len(),
        forall|i: int|
            0 <= i < spec_fetch_count(dates, checkpoint) ==> !page_triggers_skip(
                #[trigger] dates[i],
                checkpoint,
            ),
        spec_fetch_count(dates, checkpoint) < dates.len() ==> page_triggers_skip(
            dates[spec_fetch_count(dates, checkpoint)],
            checkpoint,
        ),
    decreases dates.len(),
{
    if dates.len() > 0 && !page_triggers_skip(dates[0], checkpoint) {
        lemma_fetch_count_bounds(dates.drop_first(), checkpoint);
        assert forall|i: int| 0 <= i < spec_fetch_count(dates, checkpoint) implies
            !page_triggers_skip(#[trigger] dates[i], checkpoint) by {
            if i > 0 {
                assert(dates.drop_first()[i - 1] == dates[i]);
            }
        }
        if spec_fetch_count(dates, checkpoint) < dates.len() {
            assert(dates.drop_first()[spec_fetch_count(dates.drop_first(), checkpoint)]
                == dates[spec_fetch_count(dates, checkpoint)]);
        }
    }
}

/// Plan a creator's page scan: how many pages (newest first) to fetch, and
/// the newest datetime observed among the scanned pages. Every fetched page
/// has a datetime after the checkpoint (or none); the first page at or
/// before the checkpoint ends the scan but its date is still observed.
pub fn plan_pages(dates: &Vec<Option<i64>>, checkpoint: Option<i64>) -> (r: (usize, i64))
    ensures
        r.0 == spec_fetch_count(dates@, checkpoint),
        r.1 == spec_plan_last_date(dates@, checkpoint),
        forall|i: int|
            0 <= i < r.0 ==> !page_triggers_skip(#[trigger] dates@[i], checkpoint),
        r.0 < dates@.len() ==> page_triggers_skip(dates@[r.0 as int], checkpoint),
{
    proof {
        lemma_fetch_count_bounds(dates@, checkpoint);
    }
    let mut i: usize = 0;
    let mut last_date: Option<i64> = None;
    let mut skip = false;
    while i < dates.len() && !skip
        invariant
            i <= dates@.len(),
            !skip ==> i == spec_fetch_count(dates@.take(i as int), checkpoint)
                && spec_fetch_count(dates@, checkpoint) >= i,
            skip ==> i >= 1 && i - 1 == spec_fetch_count(dates@, checkpoint)
                && page_triggers_skip(dates@[i - 1], checkpoint),
            last_date == spec_first_some(dates@.take(i as int)),
        decreases dates@.len() - i + (if skip {
            0int
        } else {
            1int
        }),
    {
        let date = dates[i];
        if last_date.is_none() {
            last_date = date;
        }
        proof {
            lemma_first_some_step(dates@, i as int);
            lemma_fetch_count_take_step(dates@, checkpoint, i as int);
        }
        skip = match (date, checkpoint) {
            (Some(d), Some(c)) => d <= c,
            _ => false,
        };
        i += 1;
    }
    let fetched = if skip {
        i - 1
    } else {
        i
    };
    proof {
        if !skip {
            assert(dates@.take(i as int) =~= dates@);
            lemma_fetch_count_whole(dates@, checkpoint);
        }
        assert(dates@.take(spec_scanned(dates@, checkpoint)) =~= dates@.take(i as int));
    }
    let last = match last_date {
        Some(d) => d,
        None => 0,
    };
    (fetched, last)
}

proof fn lemma_first_some_step(dates: Seq<Option<i64>>, i: int)
    requires
        0 <= i < dates.len(),
    ensures
        spec_first_some(dates.take(i + 1)) == if spec_first_some(dates.take(i)) is Some {
            spec_first_some(dates.take(i))
        } else {
            dates[i]
        },
    decreases i,
{
    if i == 0 {
        assert(dates.take(1)[0] == dates[0]);
        if dates[0] is None {
            assert(dates.take(1).drop_first() =~= dates.take(0));
        }
    } else {
        assert(dates.take(i + 1)[0] == dates[0]);
        assert(dates.take(i)[0] == dates[0]);
        if dates[0] is None {
            assert(dates.take(i + 1).drop_first() =~= dates.drop_first().take(i));
            assert(dates.take(i).drop_first() =~= dates.drop_first().take(i - 1));
            assert(dates.drop_first()[i - 1] == dates[i]);
            lemma_first_some_step(dates.drop_first(), i - 1);
        }
    }
}

proof fn lemma_fetch_count_take_step(dates: Seq<Option<i64>>, checkpoint: Option<i64>, i: int)
    requires
        0 <= i < dates.len(),
        i == spec_fetch_count(dates.take(i), checkpoint),
        spec_fetch_count(dates, checkpoint) >= i,
    ensures
        !page_triggers_skip(dates[i], checkpoint) ==> i + 1 == spec_fetch_count(
            dates.take(i + 1),
            checkpoint,
        ) && spec_fetch_count(dates, checkpoint) >= i + 1,
        page_triggers_skip(dates[i], checkpoint) ==> i == spec_fetch_count(dates, checkpoint),
    decreases i,
{
    lemma_fetch_count_bounds(dates, checkpoint);
    lemma_fetch_count_bounds(dates.take(i + 1), checkpoint);
    if !page_triggers_skip(dates[i], checkpoint) {
        lemma_fetch_count_prefix_full(dates.take(i + 1), checkpoint);
        lemma_fetch_count_ge(dates, checkpoint, i + 1);
    } else {
        if spec_fetch_count(dates, checkpoint) > i {
            lemma_fetch_count_bounds(dates, checkpoint);
            assert(!page_triggers_skip(dates[i], checkpoint));
        }
    }
}

proof fn lemma_fetch_count_prefix_full(dates: Seq<Option<i64>>, checkpoint: Option<i64>)
    requires
        forall|j: int|
            0 <= j < dates.len() ==> !page_triggers_skip(#[trigger] dates[j], checkpoint),
    ensures
        spec_fetch_count(dates, checkpoint) == dates.len(),
    decreases dates.len(),
{
    if dates.len() > 0 {
        assert forall|j: int| 0 <= j < dates.drop_first().len() implies !page_triggers_skip(
            #[trigger] dates.drop_first()[j],
            checkpoint,
        ) by {
            assert(dates.drop_first()[j] == dates[j + 1]);
        }
        lemma_fetch_count_prefix_full(dates.drop_first(), checkpoint);
    }
}

proof fn lemma_fetch_count_ge(dates: Seq<Option<i64>>, checkpoint: Option<i64>, k: int)
    requires
        0 <= k <= dates.len(),
        forall|j: int| 0 <= j < k ==> !page_triggers_skip(#[trigger] dates[j], checkpoint),
    ensures
        spec_fetch_count(dates, checkpoint) >= k,
    decreases k,
{
    lemma_fetch_count_bounds(dates, checkpoint);
    if k > 0 {
        assert(!page_triggers_skip(dates[0], checkpoint));
        assert forall|j: int| 0 <= j < k - 1 implies !page_triggers_skip(
            #[trigger] dates.drop_first()[j],
            checkpoint,
        ) by {
            assert(dates.drop_first()[j] == dates[j + 1]);
        }
        lemma_fetch_count_ge(dates.drop_first(), checkpoint, k - 1);
    }
}

proof fn lemma_fetch_count_whole(dates: Seq<Option<i64>>, checkpoint: Option<i64>)
    requires
        spec_fetch_count(dates, checkpoint) >= dates.len(),
    ensures
        spec_scanned(dates, checkpoint) == dates.len(),
{
    lemma_fetch_count_bounds(dates, checkpoint);
}

/// Pagination skip correctness: with a checkpoint `T`, every fetched page's
/// datetime is after `T` — so every item of a page dated at or before `T` is
/// excluded — and, when the page dates arrive newest first, the reported
/// last date is the newest page date and bounds every fetched page's date.
pub proof fn lemma_pagination_skip_correct(dates: Seq<Option<i64>>, t: i64)
    ensures
        forall|i: int|
            0 <= i < spec_fetch_count(dates, Some(t)) ==> ((#[trigger] dates[i]) matches Some(d)
                ==> d > t),
        (dates.len() > 0 && dates[0] is Some && (forall|i: int, j: int|
            0 <= i <= j < dates.len() ==> date_ge(dates[i], dates[j]))) ==> {
            &&& spec_plan_last_date(dates, Some(t)) == dates[0]->0
            &&& forall|i: int|
                0 <= i < spec_fetch_count(dates, Some(t)) ==> ((#[trigger] dates[i]) matches Some(
                    d,
                ) ==> d <= dates[0]->0)
        },
{
    lemma_fetch_count_bounds(dates, Some(t));
    if dates.len() > 0 && dates[0] is Some && (forall|i: int, j: int|
        0 <= i <= j < dates.len() ==> date_ge(dates[i], dates[j])) {
        assert(dates.take(spec_scanned(dates, Some(t)))[0] == dates[0]);
        assert(spec_scanned(dates, Some(t)) >= 1);
        assert(spec_first_some(dates.take(spec_scanned(dates, Some(t)))) == dates[0]);
        assert forall|i: int|
            0 <= i < spec_fetch_count(dates, Some(t)) implies ((#[trigger] dates[i]) matches Some(
            d,
        ) ==> d <= dates[0]->0) by {
            assert(date_ge(dates[0], dates[i]));
        }
    }
}

/// Non-strict order on page dates: an absent date compares as oldest.
pub open spec fn date_ge(a: Option<i64>, b: Option<i64>) -> bool {
    match (a, b) {
        (Some(x), Some(y)) => x >= y,
        (Some(_), None) => true,
        (None, None) => true,
        (None, Some(_)) => false,
    }
}

/// Idempotence of discovery: once a run has advanced a creator's checkpoint
/// with the last date this planner reported, a second scan of the same
/// unchanged page list — at an unchanged fee — fetches no page at all, so it
/// yields no candidate post.
pub proof fn lemma_second_scan_is_empty(
    dates: Seq<Option<i64>>,
    checkpoint: Option<i64>,
    c: CachedCreators,
    fee: u32,
)
    requires
        dates.len() > 0,
        dates[0] is Some,
    ensures
        spec_fetch_count(
            dates,
            spec_last_updated(spec_advance(c, spec_plan_last_date(dates, checkpoint), fee), fee),
        ) == 0,
{
    lemma_fetch_count_bounds(dates, checkpoint);
    assert(dates.take(spec_scanned(dates, checkpoint))[0] == dates[0]);
    assert(spec_scanned(dates, checkpoint) >= 1);
    assert(spec_first_some(dates.take(spec_scanned(dates, checkpoint))) == dates[0]);
    let last = spec_plan_last_date(dates, checkpoint);
    let c2 = spec_advance(c, last, fee);
    assert(c2.updated >= last);
    assert(c2.fee >= fee);
    assert(spec_last_updated(c2, fee) == Some(c2.updated));
    assert(page_triggers_skip(dates[0], Some(c2.updated)));
}

/// Flatten fetched pages into the candidate item list, in page order.
pub fn flatten_pages(pages: Vec<Vec<PostListItem>>) -> (r: Vec<PostListItem>)
    ensures
        r@ == pages@.map_values(|p: Vec<PostListItem>| p@).flatten(),
{
    let mut out: Vec<PostListItem> = Vec::new();
    let mut rest = pages;
    let ghost all = rest@.map_values(|p: Vec<PostListItem>| p@);
    let mut i: usize = 0;
    proof {
        assert(all.take(0) =~= Seq::<Seq<PostListItem>>::empty());
        assert(out@ =~= all.take(0).flatten());
        assert(rest@.map_values(|p: Vec<PostListItem>| p@) =~= all.skip(0));
    }
    let initial_len = rest.len();
    proof {
        assert(all.len() == initial_len);
    }
    while rest.len() > 0
        invariant
            i + rest@.len() == all.len(),
            all.len() <= usize::MAX,
            rest@.map_values(|p: Vec<PostListItem>| p@) == all.skip(i as int),
            out@ == all.take(i as int).flatten(),
        decreases rest@.len(),
    {
        let ghost old_rest = rest@;
        let mut page = rest.remove(0);
        let ghost page_view = page@;
        proof {
            assert(old_rest.map_values(|p: Vec<PostListItem>| p@)[0] == page_view);
            assert(page_view == all[i as int]);
            assert(rest@.map_values(|p: Vec<PostListItem>| p@) =~= all.skip(i as int).drop_first());
            assert(all.skip(i as int).drop_first() =~= all.skip(i + 1));
        }
        out.append(&mut page);
        proof {
            assert(all.take(i as int).push(page_view) =~= all.take(i + 1));
            all.take(i as int).lemma_flatten_push(page_view);
        }
        i += 1;
    }
    proof {
        assert(all.take(i as int) =~= all);
    }
    out
}

} // verus!
