//! The cross-run checkpoint cache: per creator, the newest post-update
//! timestamp that was fully processed and the highest access-fee tier seen.
//! Both fields only ever move forward; a fee increase invalidates the stored
//! timestamp so that newly visible higher-tier posts are re-scanned.

use vstd::prelude::*;

verus! {

/// Per-creator checkpoint record.
#[derive(PartialEq, Eq, Structural, Clone, Copy, Debug)]
pub struct CachedCreators {
    pub updated: i64,
    pub fee: u32,
}

impl CachedCreators {
    /// A fresh checkpoint that accepts everything on the first pass.
    pub fn new() -> (r: CachedCreators)
        ensures
            r.updated == 0,
            r.fee == 0,
    {
        CachedCreators { updated: 0, fee: 0 }
    }

    /// The stored timestamp is usable only while the creator's current fee
    /// does not exceed the recorded tier; a fee increase invalidates it.
    pub fn last_updated(&self, fee: u32) -> (r: Option<i64>)
        ensures
            r == spec_last_updated(*self, fee),
    {
        let fee_unchanged = fee <= self.fee;
        if fee_unchanged {
            Some(self.updated)
        } else {
            None
        }
    }

    /// Monotonic max-update of both checkpoint fields; never rolls back.
    pub fn update(&mut self, updated: i64, fee: u32)
        ensures
            *final(self) == spec_advance(*old(self), updated, fee),
            old(self).updated <= final(self).updated,
            old(self).fee <= final(self).fee,
            updated <= final(self).updated,
            fee <= final(self).fee,
    {
        if updated > self.updated {
            self.updated = updated;
        }
        if fee > self.fee {
            self.fee = fee;
        }
    }
}

/// What `last_updated` answers: the stored timestamp, gated on the fee tier.
pub open spec fn spec_last_updated(c: CachedCreators, fee: u32) -> Option<i64> {
    if fee <= c.fee {
        Some(c.updated)
    } else {
        None
    }
}

/// What one `update` call does: max on each field independently.
pub open spec fn spec_advance(c: CachedCreators, updated: i64, fee: u32) -> CachedCreators {
    CachedCreators {
        updated: if updated > c.updated {
            updated
        } else {
            c.updated
        },
        fee: if fee > c.fee {
            fee
        } else {
            c.fee
        },
    }
}

/// The checkpoint after a whole sequence of `update` calls, applied in order.
pub open spec fn spec_advance_all(c: CachedCreators, calls: Seq<(i64, u32)>) -> CachedCreators
    decreases calls.len(),
{
    if calls.len() == 0 {
        c
    } else {
        spec_advance_all(spec_advance(c, calls[0].0, calls[0].1), calls.drop_first())
    }
}

/// Checkpoint monotonicity: however many `update` calls are applied, in
/// whatever order, the stored `updated` and `fee` never decrease, and once a
/// call's fee exceeds the fee a later `last_updated` query carries, that
/// query answers `None`.
pub proof fn lemma_checkpoint_monotonic(c: CachedCreators, calls: Seq<(i64, u32)>)
    ensures
        c.updated <= spec_advance_all(c, calls).updated,
        c.fee <= spec_advance_all(c, calls).fee,
        forall|i: int|
            0 <= i < calls.len() ==> #[trigger] calls[i].0 <= spec_advance_all(c, calls).updated,
        forall|i: int|
            0 <= i < calls.len() ==> #[trigger] calls[i].1 <= spec_advance_all(c, calls).fee,
    decreases calls.len(),
{
    if calls.len() > 0 {
        lemma_checkpoint_monotonic(spec_advance(c, calls[0].0, calls[0].1), calls.drop_first());
        assert forall|i: int| 0 <= i < calls.len() implies #[trigger] calls[i].0
            <= spec_advance_all(c, calls).updated by {
            if i > 0 {
                assert(calls.drop_first()[i - 1] == calls[i]);
            }
        }
        assert forall|i: int| 0 <= i < calls.len() implies #[trigger] calls[i].1
            <= spec_advance_all(c, calls).fee by {
            if i > 0 {
                assert(calls.drop_first()[i - 1] == calls[i]);
            }
        }
    }
}

/// A fee increase invalidates the checkpoint: if a query's fee is above the
/// stored tier, `last_updated` answers `None`, no matter how large the stored
/// timestamp is.
pub proof fn lemma_fee_increase_invalidates(c: CachedCreators, fee: u32)
    requires
        fee > c.fee,
    ensures
        spec_last_updated(c, fee) is None,
{
}

/// The cross-run state: per-creator checkpoints, and the ledger of posts
/// that failed in the previous run and are re-queued before fresh discovery.
/// It is loaded once at process start, shared by the discovery stages, and
/// persisted once at process end.
pub struct Context {
    pub creators: Vec<(String, CachedCreators)>,
    pub failed_posts: Vec<crate::fanbox::PostListItem>,
}

/// A context's checkpoint table after one `advance` call: the named
/// creator's record max-updated in place, or a fresh record appended.
pub open spec fn spec_advance_entry(
    entries: Seq<(Seq<char>, CachedCreators)>,
    id: Seq<char>,
    updated: i64,
    fee: u32,
) -> Seq<(Seq<char>, CachedCreators)>
    decreases entries.len(),
{
    if entries.len() == 0 {
        seq![(id, spec_advance(CachedCreators { updated: 0, fee: 0 }, updated, fee))]
    } else if entries[0].0 == id {
        seq![(entries[0].0, spec_advance(entries[0].1, updated, fee))] + entries.drop_first()
    } else {
        seq![entries[0]] + spec_advance_entry(entries.drop_first(), id, updated, fee)
    }
}

/// The pairs' views: creator id characters with the checkpoint record.
pub open spec fn entry_views(entries: Seq<(String, CachedCreators)>) -> Seq<
    (Seq<char>, CachedCreators),
> {
    entries.map_values(|e: (String, CachedCreators)| (e.0@, e.1))
}

impl Context {
    /// A fresh context: no checkpoints, an empty ledger.
    pub fn new() -> (r: Context)
        ensures
            r.creators@.len() == 0,
            r.failed_posts@.len() == 0,
    {
        Context { creators: Vec::new(), failed_posts: Vec::new() }
    }

    /// The checkpoint timestamp usable for a creator at its current fee:
    /// the stored record's answer, or a fresh record's answer when the
    /// creator was never seen.
    pub fn last_updated_for(&self, creator_id: &str, fee: u32) -> (r: Option<i64>)
        ensures
            r == spec_last_updated(
                match crate::fanbox::spec_lookup(self.creators@, creator_id@) {
                    Some(c) => c,
                    None => CachedCreators { updated: 0, fee: 0 },
                },
                fee,
            ),
    {
        let mut i: usize = 0;
        proof {
            assert(self.creators@.skip(0) =~= self.creators@);
        }
        while i < self.creators.len()
            invariant
                i <= self.creators@.len(),
                crate::fanbox::spec_lookup(self.creators@, creator_id@)
                    == crate::fanbox::spec_lookup(self.creators@.skip(i as int), creator_id@),
            decreases self.creators@.len() - i,
        {
            proof {
                assert(self.creators@.skip(i as int)[0] == self.creators@[i as int]);
                assert(self.creators@.skip(i as int).drop_first() =~= self.creators@.skip(i + 1));
            }
            if crate::strings::str_eq(self.creators[i].0.as_str(), creator_id) {
                return self.creators[i].1.last_updated(fee);
            }
            i += 1;
        }
        proof {
            assert(self.creators@.skip(self.creators@.len() as int) =~= Seq::<
                (String, CachedCreators),
            >::empty());
        }
        let fresh = CachedCreators::new();
        fresh.last_updated(fee)
    }

    /// Advance a creator's checkpoint: monotonic max-update of the stored
    /// record, creating it on first sight.
    pub fn advance(&mut self, creator_id: String, updated: i64, fee: u32)
        ensures
            entry_views(final(self).creators@) == spec_advance_entry(
                entry_views(old(self).creators@),
                creator_id@,
                updated,
                fee,
            ),
            final(self).failed_posts@ == old(self).failed_posts@,
    {
        let mut i: usize = 0;
        while i < self.creators.len()
            invariant
                i <= self.creators@.len(),
                self.creators@ == old(self).creators@,
                self.failed_posts@ == old(self).failed_posts@,
                forall|j: int| 0 <= j < i ==> (#[trigger] self.creators@[j]).0@ != creator_id@,
            decreases self.creators@.len() - i,
        {
            if crate::strings::str_eq(self.creators[i].0.as_str(), creator_id.as_str()) {
                let mut rec = self.creators[i].1;
                rec.update(updated, fee);
                let ghost before = self.creators@;
                self.creators.set(i, (creator_id, rec));
                proof {
                    lemma_advance_entry_found(entry_views(before), creator_id@, updated, fee, i as int);
                    assert(entry_views(self.creators@) =~= entry_views(before).update(
                        i as int,
                        (creator_id@, spec_advance(entry_views(before)[i as int].1, updated, fee)),
                    ));
                }
                return ;
            }
            i += 1;
        }
        let mut rec = CachedCreators::new();
        rec.update(updated, fee);
        let ghost before = self.creators@;
        self.creators.push((creator_id, rec));
        proof {
            lemma_advance_entry_missing(entry_views(before), creator_id@, updated, fee);
            assert(entry_views(self.creators@) =~= entry_views(before).push(
                (creator_id@, spec_advance(CachedCreators { updated: 0, fee: 0 }, updated, fee)),
            ));
        }
    }

    /// Drain the failed-post ledger for re-queueing at the start of a run.
    pub fn take_failed_posts(&mut self) -> (r: Vec<crate::fanbox::PostListItem>)
        ensures
            r@ == old(self).failed_posts@,
            final(self).failed_posts@.len() == 0,
            final(self).creators@ == old(self).creators@,
    {
        let mut out: Vec<crate::fanbox::PostListItem> = Vec::new();
        core::mem::swap(&mut out, &mut self.failed_posts);
        out
    }

    /// Replace the ledger with the posts that failed in this run.
    pub fn set_failed_posts(&mut self, posts: Vec<crate::fanbox::PostListItem>)
        ensures
            final(self).failed_posts@ == posts@,
            final(self).creators@ == old(self).creators@,
    {
        self.failed_posts = posts;
    }
}

proof fn lemma_advance_entry_found(
    entries: Seq<(Seq<char>, CachedCreators)>,
    id: Seq<char>,
    updated: i64,
    fee: u32,
    i: int,
)
    requires
        0 <= i < entries.len(),
        entries[i].0 == id,
        forall|j: int| 0 <= j < i ==> (#[trigger] entries[j]).0 != id,
    ensures
        spec_advance_entry(entries, id, updated, fee) == entries.update(
            i,
            (id, spec_advance(entries[i].1, updated, fee)),
        ),
    decreases i,
{
    if i == 0 {
        assert(spec_advance_entry(entries, id, updated, fee) =~= entries.update(
            0,
            (id, spec_advance(entries[0].1, updated, fee)),
        ));
    } else {
        assert(entries.drop_first()[i - 1] == entries[i]);
        assert forall|j: int| 0 <= j < i - 1 implies (#[trigger] entries.drop_first()[j]).0
            != id by {
            assert(entries.drop_first()[j] == entries[j + 1]);
        }
        lemma_advance_entry_found(entries.drop_first(), id, updated, fee, i - 1);
        assert(entries.update(i, (id, spec_advance(entries[i].1, updated, fee))).drop_first()
            =~= entries.drop_first().update(i - 1, (id, spec_advance(entries[i].1, updated, fee))));
        assert(spec_advance_entry(entries, id, updated, fee) =~= entries.update(
            i,
            (id, spec_advance(entries[i].1, updated, fee)),
        ));
    }
}

proof fn lemma_advance_entry_missing(
    entries: Seq<(Seq<char>, CachedCreators)>,
    id: Seq<char>,
    updated: i64,
    fee: u32,
)
    requires
        forall|j: int| 0 <= j < entries.len() ==> (#[trigger] entries[j]).0 != id,
    ensures
        spec_advance_entry(entries, id, updated, fee) == entries.push(
            (id, spec_advance(CachedCreators { updated: 0, fee: 0 }, updated, fee)),
        ),
    decreases entries.len(),
{
    if entries.len() == 0 {
        assert(spec_advance_entry(entries, id, updated, fee) =~= entries.push(
            (id, spec_advance(CachedCreators { updated: 0, fee: 0 }, updated, fee)),
        ));
    } else {
        assert forall|j: int| 0 <= j < entries.drop_first().len() implies (#[trigger] entries.drop_first()[j]).0
            != id by {
            assert(entries.drop_first()[j] == entries[j + 1]);
        }
        lemma_advance_entry_missing(entries.drop_first(), id, updated, fee);
        assert(entries.push(
            (id, spec_advance(CachedCreators { updated: 0, fee: 0 }, updated, fee)),
        ).drop_first() =~= entries.drop_first().push(
            (id, spec_advance(CachedCreators { updated: 0, fee: 0 }, updated, fee)),
        ));
        assert(spec_advance_entry(entries, id, updated, fee) =~= entries.push(
            (id, spec_advance(CachedCreators { updated: 0, fee: 0 }, updated, fee)),
        ));
    }
}

/// Build the fetch queue for a run: the previous run's failed posts first,
/// then the freshly discovered candidates, with nothing lost — so the
/// progress counter grows by exactly the ledger's length plus the fresh
/// batch's length.
pub fn queue_for_run(
    ledger: Vec<crate::fanbox::PostListItem>,
    fresh: Vec<crate::fanbox::PostListItem>,
) -> (r: Vec<crate::fanbox::PostListItem>)
    ensures
        r@ == ledger@ + fresh@,
        r@.len() == ledger@.len() + fresh@.len(),
        forall|i: int| 0 <= i < ledger@.len() ==> r@[i] == ledger@[i],
{
    let mut out = ledger;
    let mut rest = fresh;
    out.append(&mut rest);
    out
}

} // verus!
