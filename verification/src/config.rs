//! The settings that persist between runs.

use vstd::prelude::*;

verus! {

/// The column the achievement list is sorted by.
#[derive(Clone, Copy, PartialEq, Eq, Debug, Structural)]
pub enum SortColumn {
    Rarity,
    Name,
    State,
}

/// The direction of the sort.
#[derive(Clone, Copy, PartialEq, Eq, Debug, Structural)]
pub enum SortOrder {
    Ascending,
    Descending,
}

/// The label shown on the sort chip for a column.
pub open spec fn column_label(column: SortColumn) -> Seq<char> {
    match column {
        SortColumn::Rarity => "Rarity"@,
        SortColumn::Name => "Name"@,
        SortColumn::State => "State"@,
    }
}

impl SortColumn {
    pub fn label(self) -> (label: &'static str)
        ensures
            label@ == column_label(self),
    {
        match self {
            SortColumn::Rarity => "Rarity",
            SortColumn::Name => "Name",
            SortColumn::State => "State",
        }
    }
}

/// The last unlocked/total we saw for a game.
///
/// The Steam API initialises against one App ID at a time, so the sidebar
/// cannot read live counts for every installed game at once. We remember what
/// we saw the last time each game was opened and label those numbers as cached.
#[derive(Clone, Copy, Debug, PartialEq, Eq, Structural)]
pub struct CachedCounts {
    pub app_id: u32,
    pub unlocked: u32,
    pub total: u32,
}

/// The settings that persist between runs, apart from the window size, which
/// the window keeps beside them.
#[derive(Debug)]
pub struct Config {
    pub sort_column: SortColumn,
    pub sort_order: SortOrder,
    pub last_app_id: Option<u32>,
    /// The App IDs taken out of the sidebar, in the order they were removed.
    /// The list of games is rebuilt from disk on every launch, so removals
    /// have to be remembered here or the games would come straight back.
    pub removed: Vec<u32>,
    pub counts: Vec<CachedCounts>,
}

impl Default for Config {
    /// Rarity ascending puts the rarest achievements at the top; no game was
    /// open before and no counts are known.
    fn default() -> (c: Self)
        ensures
            c.sort_column == SortColumn::Rarity,
            c.sort_order == SortOrder::Ascending,
            c.last_app_id is None,
            c.removed@ == Seq::<u32>::empty(),
            c.counts@ == Seq::<CachedCounts>::empty(),
    {
        Config {
            sort_column: SortColumn::Rarity,
            sort_order: SortOrder::Ascending,
            last_app_id: None,
            removed: Vec::new(),
            counts: Vec::new(),
        }
    }
}

/// The position of the first entry for `app_id` at or after `i`.
pub open spec fn counts_index_from(counts: Seq<CachedCounts>, app_id: u32, i: int) -> Option<int>
    decreases counts.len() - i,
{
    if i < 0 || i >= counts.len() {
        None
    } else if counts[i].app_id == app_id {
        Some(i)
    } else {
        counts_index_from(counts, app_id, i + 1)
    }
}

/// The position of the first entry for `app_id`.
pub open spec fn counts_index(counts: Seq<CachedCounts>, app_id: u32) -> Option<int> {
    counts_index_from(counts, app_id, 0)
}

/// The counts remembered for `app_id`: the first entry with that App ID.
pub open spec fn lookup_counts(counts: Seq<CachedCounts>, app_id: u32) -> Option<CachedCounts> {
    match counts_index(counts, app_id) {
        Some(i) => Some(counts[i]),
        None => None,
    }
}

/// The entries after remembering `unlocked` of `total` for `app_id`: the
/// entry for that App ID is overwritten, or a new one is added at the end.
pub open spec fn remembered(
    counts: Seq<CachedCounts>,
    app_id: u32,
    unlocked: u32,
    total: u32,
) -> Seq<CachedCounts> {
    let entry = CachedCounts { app_id, unlocked, total };
    match counts_index(counts, app_id) {
        Some(i) => counts.update(i, entry),
        None => counts.push(entry),
    }
}

/// No App ID has two entries.
pub open spec fn ids_unique(counts: Seq<CachedCounts>) -> bool {
    forall|i: int, j: int|
        #![trigger counts[i], counts[j]]
        0 <= i < j < counts.len() ==> counts[i].app_id != counts[j].app_id
}

pub proof fn lemma_counts_index_from(counts: Seq<CachedCounts>, app_id: u32, i: int)
    requires
        0 <= i,
    ensures
        counts_index_from(counts, app_id, i) matches Some(k) ==> i <= k < counts.len()
            && counts[k].app_id == app_id && forall|j: int|
            i <= j < k ==> #[trigger] counts[j].app_id != app_id,
        counts_index_from(counts, app_id, i) is None ==> forall|j: int|
            i <= j < counts.len() ==> #[trigger] counts[j].app_id != app_id,
    decreases counts.len() - i,
{
    if i < counts.len() && counts[i].app_id != app_id {
        lemma_counts_index_from(counts, app_id, i + 1);
    }
}

impl Config {
    /// The position of the first remembered entry for `app_id`.
    fn position_of(&self, app_id: u32) -> (r: Option<usize>)
        ensures
            r matches Some(i) ==> i < self.counts@.len() && counts_index(self.counts@, app_id) == Some(
                i as int,
            ),
            r is None ==> counts_index(self.counts@, app_id) is None,
    {
        proof {
            lemma_counts_index_from(self.counts@, app_id, 0);
        }
        let mut i: usize = 0;
        while i < self.counts.len()
            invariant
                i <= self.counts@.len(),
                counts_index(self.counts@, app_id) == counts_index_from(
                    self.counts@,
                    app_id,
                    i as int,
                ),
            decreases self.counts@.len() - i,
        {
            if self.counts[i].app_id == app_id {
                return Some(i);
            }
            i = i + 1;
        }
        None
    }

    /// The counts last seen for a game, if it was ever opened.
    pub fn counts_for(&self, app_id: u32) -> (r: Option<&CachedCounts>)
        ensures
            lookup_counts(self.counts@, app_id) == (match r {
                Some(c) => Some(*c),
                None => None::<CachedCounts>,
            }),
    {
        proof {
            lemma_counts_index_from(self.counts@, app_id, 0);
        }
        match self.position_of(app_id) {
            Some(i) => Some(&self.counts[i]),
            None => None,
        }
    }

    /// Records what was just seen for a game, replacing what was seen before.
    pub fn remember_counts(&mut self, app_id: u32, unlocked: u32, total: u32)
        ensures
            final(self).counts@ == remembered(old(self).counts@, app_id, unlocked, total),
            final(self).sort_column == old(self).sort_column,
            final(self).sort_order == old(self).sort_order,
            final(self).last_app_id == old(self).last_app_id,
            final(self).removed == old(self).removed,
    {
        proof {
            lemma_counts_index_from(self.counts@, app_id, 0);
        }
        match self.position_of(app_id) {
            Some(i) => {
                self.counts.set(i, CachedCounts { app_id, unlocked, total });
            },
            None => {
                self.counts.push(CachedCounts { app_id, unlocked, total });
            },
        }
    }
}

/// Read after write: once counts are remembered for a game, they are what is
/// looked up for it.
pub proof fn law_lookup_after_remember(
    counts: Seq<CachedCounts>,
    app_id: u32,
    unlocked: u32,
    total: u32,
)
    ensures
        lookup_counts(remembered(counts, app_id, unlocked, total), app_id) == Some(
            CachedCounts { app_id, unlocked, total },
        ),
{
    let r = remembered(counts, app_id, unlocked, total);
    lemma_counts_index_from(counts, app_id, 0);
    lemma_counts_index_from(r, app_id, 0);
    match counts_index(counts, app_id) {
        Some(i) => {
            assert(r[i].app_id == app_id);
            assert(counts_index(r, app_id) == Some(i)) by {
                if counts_index(r, app_id) != Some(i) {
                    match counts_index(r, app_id) {
                        Some(k) => {
                            assert(k < i ==> r[k] == counts[k]);
                        },
                        None => {},
                    }
                }
            }
        },
        None => {
            let n = counts.len() as int;
            assert(r[n].app_id == app_id);
            match counts_index(r, app_id) {
                Some(k) => {
                    assert(k < n ==> r[k] == counts[k]);
                },
                None => {},
            }
        },
    }
}

/// Remembering counts for one game leaves what is looked up for every other
/// game as it was.
pub proof fn law_remember_keeps_others(
    counts: Seq<CachedCounts>,
    app_id: u32,
    unlocked: u32,
    total: u32,
    other: u32,
)
    requires
        other != app_id,
    ensures
        lookup_counts(remembered(counts, app_id, unlocked, total), other) == lookup_counts(
            counts,
            other,
        ),
{
    let r = remembered(counts, app_id, unlocked, total);
    lemma_counts_index_from(counts, other, 0);
    lemma_counts_index_from(r, other, 0);
    lemma_counts_index_from(counts, app_id, 0);
    assert(forall|j: int|
        0 <= j < counts.len() ==> (#[trigger] r[j].app_id == other <==> counts[j].app_id == other));
    match (counts_index(counts, other), counts_index(r, other)) {
        (Some(a), Some(b)) => {
            if a < b {
                assert(r[a].app_id == other);
            } else if b < a {
                assert(counts[b].app_id == other);
            }
            assert(r[a] == counts[a]);
        },
        (Some(a), None) => {
            assert(r[a].app_id == other);
        },
        (None, Some(b)) => {
            if b < counts.len() {
                assert(counts[b].app_id == other);
            }
        },
        (None, None) => {},
    }
}

/// Remembering counts never gives an App ID a second entry.
pub proof fn law_remember_keeps_ids_unique(
    counts: Seq<CachedCounts>,
    app_id: u32,
    unlocked: u32,
    total: u32,
)
    requires
        ids_unique(counts),
    ensures
        ids_unique(remembered(counts, app_id, unlocked, total)),
{
    let r = remembered(counts, app_id, unlocked, total);
    lemma_counts_index_from(counts, app_id, 0);
    assert forall|i: int, j: int|
        #![trigger r[i], r[j]]
        0 <= i < j < r.len() implies r[i].app_id != r[j].app_id by {
        match counts_index(counts, app_id) {
            Some(k) => {
                if i != k && j != k {
                    assert(r[i] == counts[i] && r[j] == counts[j]);
                } else if i == k {
                    assert(r[j] == counts[j]);
                    assert(counts[k].app_id == app_id);
                } else {
                    assert(r[i] == counts[i]);
                    assert(counts[k].app_id == app_id);
                }
            },
            None => {
                if j < counts.len() {
                    assert(r[i] == counts[i] && r[j] == counts[j]);
                } else {
                    assert(r[i] == counts[i]);
                }
            },
        }
    }
}

/// How long the settings may stay unsaved after they change, in
/// milliseconds: writes are batched, at most one every couple of seconds.
pub open spec fn save_delay_ms() -> int {
    2000
}

/// When the current run of unsaved changes began, after a frame at `now_ms`
/// where the settings are `dirty`: the earlier start if there is one, now if
/// they just became dirty, none while nothing is unsaved.
pub open spec fn next_dirty_since(dirty: bool, dirty_since_ms: Option<u64>, now_ms: u64) -> Option<
    u64,
> {
    if dirty && dirty_since_ms is None {
        Some(now_ms)
    } else {
        dirty_since_ms
    }
}

/// The settings are to be written: unsaved since `dirty_since_ms`, and two
/// seconds have passed.
pub open spec fn save_is_due(dirty_since_ms: Option<u64>, now_ms: u64) -> bool {
    dirty_since_ms matches Some(t) && now_ms >= t + save_delay_ms()
}

/// See [`next_dirty_since`].
pub fn dirty_since_after(dirty: bool, dirty_since_ms: Option<u64>, now_ms: u64) -> (r: Option<u64>)
    ensures
        r == next_dirty_since(dirty, dirty_since_ms, now_ms),
{
    if dirty && dirty_since_ms.is_none() {
        Some(now_ms)
    } else {
        dirty_since_ms
    }
}

/// Whether the settings are to be written now; see [`save_is_due`].
pub fn save_due(dirty_since_ms: Option<u64>, now_ms: u64) -> (b: bool)
    ensures
        b == save_is_due(dirty_since_ms, now_ms),
{
    match dirty_since_ms {
        Some(t) => now_ms >= t && now_ms - t >= 2000,
        None => false,
    }
}

/// Writes are batched, at most one every two seconds: after a write at
/// `written_ms` nothing is unsaved, and the next write, on a frame `now_ms`,
/// comes two seconds after a later frame `frame_ms` started a new run of
/// changes, whatever frames follow it.
pub proof fn law_writes_are_batched(
    dirty: bool,
    written_ms: u64,
    frame_ms: u64,
    later_dirty: bool,
    now_ms: u64,
)
    requires
        written_ms <= frame_ms,
    ensures
        save_is_due(
            next_dirty_since(later_dirty, next_dirty_since(dirty, None, frame_ms), now_ms),
            now_ms,
        ) ==> now_ms >= written_ms + save_delay_ms(),
{
}

} // verus!
