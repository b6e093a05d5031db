//! The timer-driven side of the service: which categories to ask the store
//! about, how often, and what a round of answers amounts to.
//!
//! The poller asks nothing itself. Its owner queries the store once per
//! category on every tick and hands the answers over; a round in which any
//! answer is missing yields no snapshot at all.

use crate::models::{tallies, VoteStats};
use vstd::prelude::*;
use vstd::string::StringExecFns;

verus! {

/// Milliseconds between two ticks of the poller.
pub const STATS_UPDATE_INTERVAL: u64 = 1_000;

/// The poller as contracts see it.
pub struct PollerState {
    /// The labels of the known categories, in the order of every snapshot.
    pub categories: Seq<Seq<char>>,
    /// Milliseconds between two ticks.
    pub interval: u64,
    /// Set once the service shuts down.
    pub cancelled: bool,
}

/// Every category was answered, and each answer is a count.
pub open spec fn answered(categories: Seq<Seq<char>>, counts: Seq<Option<u64>>) -> bool {
    &&& counts.len() == categories.len()
    &&& forall|i: int| 0 <= i < counts.len() ==> (#[trigger] counts[i]) is Some
}

/// Each category with its count, in the order of the categories.
pub open spec fn paired(categories: Seq<Seq<char>>, counts: Seq<Option<u64>>) -> Seq<
    (Seq<char>, u64),
> {
    Seq::new(categories.len(), |i: int| (categories[i], counts[i]->0))
}

impl PollerState {
    /// The delay until the next tick, or `None` when no tick is scheduled any
    /// more.
    pub open spec fn next_tick(self) -> Option<u64> {
        if self.cancelled {
            None
        } else {
            Some(self.interval)
        }
    }

    /// What a round of answers amounts to: the snapshot built from them, or
    /// nothing when the poller is cancelled or an answer is missing.
    pub open spec fn snapshot(self, counts: Seq<Option<u64>>) -> Option<Seq<(Seq<char>, u64)>> {
        if !self.cancelled && answered(self.categories, counts) {
            Some(paired(self.categories, counts))
        } else {
            None
        }
    }
}

/// The labels in a list of categories.
pub open spec fn labels(categories: Seq<String>) -> Seq<Seq<char>> {
    categories.map_values(|label: String| label@)
}

/// The categories of the vote: `a` and `b`, in this order.
pub fn vote_variants() -> (categories: Vec<String>)
    ensures
        labels(categories@) == seq!["a"@, "b"@],
{
    let mut categories: Vec<String> = Vec::new();
    categories.push(String::from_str("a"));
    categories.push(String::from_str("b"));
    assert(labels(categories@) =~= seq!["a"@, "b"@]);
    categories
}

/// The periodic source of snapshots.
pub struct StatsPoller {
    categories: Vec<String>,
    interval: u64,
    cancelled: bool,
}

impl View for StatsPoller {
    type V = PollerState;

    closed spec fn view(&self) -> PollerState {
        PollerState {
            categories: labels(self.categories@),
            interval: self.interval,
            cancelled: self.cancelled,
        }
    }
}

impl StatsPoller {
    /// A running poller for these categories that ticks every `interval`
    /// milliseconds.
    pub fn new(categories: Vec<String>, interval: u64) -> (poller: StatsPoller)
        ensures
            poller@ == (PollerState { categories: labels(categories@), interval, cancelled: false }),
    {
        StatsPoller { categories, interval, cancelled: false }
    }

    /// The categories to ask the store about on every tick, in order.
    pub fn categories(&self) -> (categories: &Vec<String>)
        ensures
            labels(categories@) == self@.categories,
    {
        &self.categories
    }

    /// The delay until the next tick. A cancelled poller schedules none.
    pub fn next_tick(&self) -> (delay: Option<u64>)
        ensures
            delay == self@.next_tick(),
    {
        if self.cancelled {
            None
        } else {
            Some(self.interval)
        }
    }

    /// Stops the poller for good. Categories and interval stay as they are.
    pub fn cancel(&mut self)
        ensures
            final(self)@ == (PollerState { cancelled: true, ..old(self)@ }),
    {
        self.cancelled = true;
    }

    /// Builds the snapshot for one tick from the store's answers, one per
    /// category and in the order of the categories; `None` stands for a query
    /// that failed.
    ///
    /// There is a snapshot only if the poller is running and every category
    /// was answered with a count. It then holds every category once, in
    /// order, with the count given for it.
    pub fn snapshot(&self, counts: &Vec<Option<u64>>) -> (snapshot: Option<Vec<VoteStats>>)
        ensures
            match snapshot {
                Some(stats) => self@.snapshot(counts@) == Some(tallies(stats@)),
                None => self@.snapshot(counts@) is None,
            },
    {
        if self.cancelled || counts.len() != self.categories.len() {
            return None;
        }
        let mut stats: Vec<VoteStats> = Vec::new();
        let mut i: usize = 0;
        while i < counts.len()
            invariant
                counts.len() == self.categories.len(),
                i <= counts.len(),
                stats@.len() == i,
                forall|k: int| 0 <= k < i ==> (#[trigger] counts@[k]) is Some,
                forall|k: int|
                    0 <= k < i ==> (#[trigger] stats@[k])@ == (self.categories@[k]@, counts@[k]->0),
            decreases counts.len() - i,
        {
            match counts[i] {
                Some(quantity) => {
                    stats.push(VoteStats { vote: self.categories[i].clone(), quantity });
                },
                None => {
                    return None;
                },
            }
            i += 1;
        }
        assert(tallies(stats@) =~= paired(self@.categories, counts@));
        Some(stats)
    }
}

/// A tick on which a query failed yields no snapshot, and the tick after it is
/// none the worse: with every category answered it yields the snapshot of its
/// own answers.
pub proof fn lemma_failed_tick_skipped(
    poller: PollerState,
    failed: Seq<Option<u64>>,
    next: Seq<Option<u64>>,
)
    requires
        !poller.cancelled,
        !answered(poller.categories, failed),
        answered(poller.categories, next),
    ensures
        poller.snapshot(failed) is None,
        poller.snapshot(next) == Some(paired(poller.categories, next)),
        poller.next_tick() == Some(poller.interval),
{
}

/// A snapshot holds one entry per known category, in the order of the
/// categories, each with the count that was given for it.
pub proof fn lemma_snapshot_shape(poller: PollerState, counts: Seq<Option<u64>>)
    requires
        poller.snapshot(counts) is Some,
    ensures
        ({
            let snapshot = poller.snapshot(counts)->0;
            &&& snapshot.len() == poller.categories.len()
            &&& forall|i: int|
                0 <= i < snapshot.len() ==> #[trigger] snapshot[i] == (
                    poller.categories[i],
                    counts[i]->0,
                )
        }),
{
}

} // verus!
