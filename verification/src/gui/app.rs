//! The window's state and event handling.
//!
//! The shape is a two column desktop app. Left is the Steam library, right is
//! the achievement list for whichever game is open. No Steam call happens
//! here: a change that needs Steam returns a [`Cmd`] for the worker thread,
//! and every reply comes back through [`Session::take_message`].

use vstd::prelude::*;

use crate::config::{
    column_label, law_lookup_after_remember, lookup_counts, remembered, CachedCounts, Config,
    SortColumn, SortOrder,
};
use crate::gui::widgets::Badge;
use crate::gui::worker::{Cmd, Msg};
use crate::library::{
    contains_app_id, has_app_id, placeholder, placeholder_name, text_key, text_key_of, Game,
};
use crate::order::{is_index_permutation, sorted_by_rank, stable_order};
use crate::search::{fuzzy, fuzzy_score, is_scorable, scorable};
use crate::steam::{key_of, key_of_bits, AchievementInfo};
use crate::text::{
    chars_of, decimal, lowercase, parse_u32, parse_u32_chars, push_chars, push_decimal,
    to_lowercase, trim, trim_chars,
};

verus! {

// ------------------------------------------------------------------ filter

/// Which achievements the list shows.
#[derive(Clone, Copy, PartialEq, Eq, Debug, Structural)]
pub enum Filter {
    All,
    Locked,
    Unlocked,
}

/// The label of a filter chip.
pub open spec fn filter_label(f: Filter) -> Seq<char> {
    match f {
        Filter::All => "All"@,
        Filter::Locked => "Locked"@,
        Filter::Unlocked => "Unlocked"@,
    }
}

impl Filter {
    pub fn label(self) -> (s: &'static str)
        ensures
            s@ == filter_label(self),
    {
        match self {
            Filter::All => "All",
            Filter::Locked => "Locked",
            Filter::Unlocked => "Unlocked",
        }
    }
}

// --------------------------------------------------------------------- rows

/// One achievement, plus what the user wants it to become.
#[derive(Debug)]
pub struct Row {
    pub api_name: String,
    pub title: String,
    pub description: String,
    /// What Steam reports right now.
    pub unlocked: bool,
    /// What the checkbox says it should be. Starts equal to `unlocked`.
    pub desired: bool,
    /// The bit pattern of the `f32` share of players who have it.
    pub percentage_bits: u32,
    /// Steam refused to write this one on the last apply.
    pub refused: bool,
}

/// A row as plain values.
pub struct RowModel {
    pub api_name: Seq<char>,
    pub title: Seq<char>,
    pub description: Seq<char>,
    pub unlocked: bool,
    pub desired: bool,
    pub percentage_bits: u32,
    pub refused: bool,
}

impl View for Row {
    type V = RowModel;

    open spec fn view(&self) -> RowModel {
        RowModel {
            api_name: self.api_name@,
            title: self.title@,
            description: self.description@,
            unlocked: self.unlocked,
            desired: self.desired,
            percentage_bits: self.percentage_bits,
            refused: self.refused,
        }
    }
}

impl Clone for Row {
    fn clone(&self) -> (r: Self)
        ensures
            r == *self,
    {
        Row {
            api_name: self.api_name.clone(),
            title: self.title.clone(),
            description: self.description.clone(),
            unlocked: self.unlocked,
            desired: self.desired,
            percentage_bits: self.percentage_bits,
            refused: self.refused,
        }
    }
}

/// The rows as plain values.
pub open spec fn rows_view(rows: Seq<Row>) -> Seq<RowModel> {
    rows.map_values(|r: Row| r@)
}

/// The row differs from Steam's current state.
pub open spec fn is_pending(r: RowModel) -> bool {
    r.desired != r.unlocked
}

/// The badge a row shows: a refusal first, then a pending change, then the
/// state Steam reports.
pub open spec fn badge_of(r: RowModel) -> Badge {
    if r.refused {
        Badge::Failed
    } else if r.desired && !r.unlocked {
        Badge::PendingUnlock
    } else if !r.desired && r.unlocked {
        Badge::PendingReset
    } else if r.unlocked {
        Badge::Unlocked
    } else {
        Badge::Locked
    }
}

impl Row {
    /// Whether the row differs from Steam's current state.
    pub fn pending(&self) -> (b: bool)
        ensures
            b == is_pending(self@),
    {
        self.desired != self.unlocked
    }

    /// The badge on the right of the row.
    pub fn badge(&self) -> (b: Badge)
        ensures
            b == badge_of(self@),
    {
        if self.refused {
            Badge::Failed
        } else if self.desired && !self.unlocked {
            Badge::PendingUnlock
        } else if !self.desired && self.unlocked {
            Badge::PendingReset
        } else if self.unlocked {
            Badge::Unlocked
        } else {
            Badge::Locked
        }
    }
}

/// Every row whose state is not what Steam reports is labelled as pending,
/// unless Steam refused it on the last apply.
pub proof fn law_pending_rows_are_labelled(r: RowModel)
    requires
        is_pending(r),
        !r.refused,
    ensures
        badge_of(r) == Badge::PendingUnlock || badge_of(r) == Badge::PendingReset,
{
}

/// The filter lets the row through.
pub open spec fn passes(r: RowModel, filter: Filter) -> bool {
    match filter {
        Filter::All => true,
        Filter::Locked => !r.unlocked,
        Filter::Unlocked => r.unlocked,
    }
}

/// The All filter shows every row, whatever Steam reports and whatever is
/// ticked: exactly what Locked and Unlocked show together. Locked shows the
/// rows Steam reports locked, Unlocked those it reports unlocked, and no row
/// is shown by both.
pub proof fn law_all_shows_every_row(r: RowModel)
    ensures
        passes(r, Filter::All),
        passes(r, Filter::All) == (passes(r, Filter::Locked) || passes(r, Filter::Unlocked)),
        passes(r, Filter::Locked) == !r.unlocked,
        passes(r, Filter::Unlocked) == r.unlocked,
        !(passes(r, Filter::Locked) && passes(r, Filter::Unlocked)),
{
}

/// Whether the list shows a row under a filter.
pub fn shows(row: &Row, filter: Filter) -> (b: bool)
    ensures
        b == passes(row@, filter),
{
    match filter {
        Filter::All => true,
        Filter::Locked => !row.unlocked,
        Filter::Unlocked => row.unlocked,
    }
}

/// The plural ending of a count.
pub open spec fn plural_of(count: nat) -> Seq<char> {
    if count == 1 {
        ""@
    } else {
        "s"@
    }
}

/// `"s"` unless the count is one.
pub fn plural(count: usize) -> (s: &'static str)
    ensures
        s@ == plural_of(count as nat),
{
    if count == 1 {
        ""
    } else {
        "s"
    }
}

/// How many rows differ from Steam's state.
pub open spec fn pending_count(rows: Seq<RowModel>) -> nat
    decreases rows.len(),
{
    if rows.len() == 0 {
        0
    } else {
        pending_count(rows.drop_last()) + if is_pending(rows.last()) {
            1nat
        } else {
            0nat
        }
    }
}

/// How many rows Steam reports unlocked.
pub open spec fn unlocked_count(rows: Seq<RowModel>) -> nat
    decreases rows.len(),
{
    if rows.len() == 0 {
        0
    } else {
        unlocked_count(rows.drop_last()) + if rows.last().unlocked {
            1nat
        } else {
            0nat
        }
    }
}

proof fn lemma_counts_bounded(rows: Seq<RowModel>)
    ensures
        pending_count(rows) <= rows.len(),
        unlocked_count(rows) <= rows.len(),
    decreases rows.len(),
{
    if rows.len() > 0 {
        lemma_counts_bounded(rows.drop_last());
    }
}

/// The unlocked count depends only on what Steam reports: two lists whose
/// rows agree on being unlocked have the same count, whatever is ticked.
pub proof fn law_unlocked_count_ignores_ticks(a: Seq<RowModel>, b: Seq<RowModel>)
    requires
        a.len() == b.len(),
        forall|i: int| 0 <= i < a.len() ==> a[i].unlocked == b[i].unlocked,
    ensures
        unlocked_count(a) == unlocked_count(b),
    decreases a.len(),
{
    if a.len() > 0 {
        law_unlocked_count_ignores_ticks(a.drop_last(), b.drop_last());
    }
}

/// The unlocked count is the number of rows Steam reports unlocked: the
/// length of the list when every row is, zero when none is, and one more
/// for each row added that is.
pub proof fn law_unlocked_count_counts_unlocked(rows: Seq<RowModel>, r: RowModel)
    ensures
        (forall|i: int| 0 <= i < rows.len() ==> rows[i].unlocked) ==> unlocked_count(rows)
            == rows.len(),
        (forall|i: int| 0 <= i < rows.len() ==> !rows[i].unlocked) ==> unlocked_count(rows) == 0,
        unlocked_count(rows.push(r)) == unlocked_count(rows) + (if r.unlocked {
            1int
        } else {
            0int
        }),
    decreases rows.len(),
{
    assert(rows.push(r).drop_last() =~= rows);
    if rows.len() > 0 {
        law_unlocked_count_counts_unlocked(rows.drop_last(), r);
        assert forall|i: int| 0 <= i < rows.drop_last().len() implies rows.drop_last()[i]
            == rows[i] by {}
    }
}

fn count_pending(rows: &Vec<Row>) -> (n: usize)
    ensures
        n == pending_count(rows_view(rows@)),
{
    let mut n: usize = 0;
    for i in 0..rows.len()
        invariant
            n == pending_count(rows_view(rows@).take(i as int)),
            n <= i,
    {
        assert(rows_view(rows@).take(i + 1).drop_last() == rows_view(rows@).take(i as int));
        if rows[i].desired != rows[i].unlocked {
            n = n + 1;
        }
    }
    assert(rows_view(rows@).take(rows@.len() as int) == rows_view(rows@));
    n
}

fn count_unlocked(rows: &Vec<Row>) -> (n: usize)
    ensures
        n == unlocked_count(rows_view(rows@)),
{
    let mut n: usize = 0;
    for i in 0..rows.len()
        invariant
            n == unlocked_count(rows_view(rows@).take(i as int)),
            n <= i,
    {
        assert(rows_view(rows@).take(i + 1).drop_last() == rows_view(rows@).take(i as int));
        if rows[i].unlocked {
            n = n + 1;
        }
    }
    assert(rows_view(rows@).take(rows@.len() as int) == rows_view(rows@));
    n
}

// --------------------------------------------------------------- connection

/// Whether Steam has answered us yet, which is the only honest way to report
/// the connection: the API does not tell us until we ask it for something.
#[derive(Clone, Copy, PartialEq, Eq, Debug, Structural)]
pub enum Link {
    Unknown,
    Connected,
    Unavailable,
}

/// The status line at the foot of the sidebar.
pub open spec fn link_text(link: Link) -> Seq<char> {
    match link {
        Link::Connected => "Steam connected"@,
        Link::Unavailable => "Steam not responding"@,
        Link::Unknown => "Waiting for Steam"@,
    }
}

impl Link {
    pub fn label(self) -> (s: &'static str)
        ensures
            s@ == link_text(self),
    {
        match self {
            Link::Connected => "Steam connected",
            Link::Unavailable => "Steam not responding",
            Link::Unknown => "Waiting for Steam",
        }
    }
}

// -------------------------------------------------------------- sorting

/// The key a row is sorted by under a column: the share's sort key (see
/// [`key_of`]) then the title, the title alone, or the state then the
/// title. Titles compare in lower case.
pub open spec fn row_key(r: RowModel, column: SortColumn) -> Seq<u64> {
    let title = text_key(lowercase(r.title));
    match column {
        SortColumn::Rarity => seq![key_of(r.percentage_bits) as u64] + title,
        SortColumn::Name => title,
        SortColumn::State => seq![
            if r.unlocked {
                1u64
            } else {
                0u64
            },
        ] + title,
    }
}

/// Titles sort ignoring case: two rows with the same share and state whose
/// titles are equal once lower-cased get the same key under every column,
/// so only their place in the list tells them apart.
pub proof fn law_title_case_ignored(r1: RowModel, r2: RowModel, column: SortColumn)
    requires
        lowercase(r1.title) == lowercase(r2.title),
        key_of(r1.percentage_bits) == key_of(r2.percentage_bits),
        r1.unlocked == r2.unlocked,
    ensures
        row_key(r1, column) == row_key(r2, column),
{
}

/// The keys of the rows, in list order.
pub open spec fn row_keys(rows: Seq<RowModel>, column: SortColumn) -> Seq<Seq<u64>> {
    rows.map_values(|r: RowModel| row_key(r, column))
}

/// The rows listed in `order`, reversed for a descending sort.
pub open spec fn arranged(rows: Seq<RowModel>, order: Seq<usize>, sort_order: SortOrder) -> Seq<
    RowModel,
> {
    let ascending = order.map_values(|i: usize| rows[i as int]);
    match sort_order {
        SortOrder::Ascending => ascending,
        SortOrder::Descending => ascending.reverse(),
    }
}

/// `after` is `before` sorted stably by the column's key, then reversed when
/// the order is descending.
pub open spec fn sorted_rows(
    before: Seq<RowModel>,
    after: Seq<RowModel>,
    column: SortColumn,
    sort_order: SortOrder,
) -> bool {
    exists|order: Seq<usize>|
        {
            &&& is_index_permutation(order, before.len())
            &&& sorted_by_rank(row_keys(before, column), order)
            &&& after == arranged(before, order, sort_order)
        }
}

/// The sort key of one row.
fn key_of_row(row: &Row, column: SortColumn) -> (k: Vec<u64>)
    ensures
        k@ == row_key(row@, column),
{
    let lower = to_lowercase(row.title.as_str());
    let mut title = text_key_of(lower.as_str());
    match column {
        SortColumn::Rarity => {
            let mut k = vec![key_of_bits(row.percentage_bits) as u64];
            k.append(&mut title);
            k
        },
        SortColumn::Name => title,
        SortColumn::State => {
            let mut k = vec![
                if row.unlocked {
                    1u64
                } else {
                    0u64
                },
            ];
            k.append(&mut title);
            k
        },
    }
}

/// The rows sorted stably by the column's key, reversed when descending.
pub fn sorted_by_column(rows: &Vec<Row>, column: SortColumn, sort_order: SortOrder) -> (r: Vec<
    Row,
>)
    ensures
        sorted_rows(rows_view(rows@), rows_view(r@), column, sort_order),
{
    let ghost before = rows_view(rows@);
    let mut keys: Vec<Vec<u64>> = Vec::new();
    for i in 0..rows.len()
        invariant
            before == rows_view(rows@),
            keys.deep_view() == row_keys(before, column).take(i as int),
    {
        let k = key_of_row(&rows[i], column);
        let ghost prev = keys.deep_view();
        keys.push(k);
        assert(keys.deep_view() =~~= prev.push(k@));
        assert(row_keys(before, column).take(i + 1) == row_keys(before, column).take(i as int).push(
            row_key(before[i as int], column),
        ));
    }
    assert(row_keys(before, column).take(rows@.len() as int) == row_keys(before, column));
    let order = stable_order(&keys);
    let ghost ascending = order@.map_values(|i: usize| before[i as int]);
    let mut r: Vec<Row> = Vec::new();
    let n = order.len();
    let descending = match sort_order {
        SortOrder::Descending => true,
        SortOrder::Ascending => false,
    };
    for j in 0..n
        invariant
            n == order@.len(),
            before == rows_view(rows@),
            is_index_permutation(order@, rows@.len()),
            ascending == order@.map_values(|i: usize| before[i as int]),
            rows_view(r@) == (if descending {
                ascending.reverse().take(j as int)
            } else {
                ascending.take(j as int)
            }),
    {
        let p = if descending {
            n - 1 - j
        } else {
            j
        };
        let row = rows[order[p]].clone();
        let ghost prev = rows_view(r@);
        r.push(row);
        assert(rows_view(r@) == prev.push(before[order@[p as int] as int]));
        if descending {
            assert(ascending.reverse().take(j + 1) == ascending.reverse().take(j as int).push(
                ascending[p as int],
            ));
        } else {
            assert(ascending.take(j + 1) == ascending.take(j as int).push(ascending[p as int]));
        }
    }
    proof {
        assert(ascending.reverse().take(n as int) == ascending.reverse());
        assert(ascending.take(n as int) == ascending);
        assert(rows_view(r@) == arranged(before, order@, sort_order));
    }
    r
}

// ------------------------------------------------------------------ session

/// Everything the window knows, apart from how it is drawn.
#[derive(Debug)]
pub struct Session {
    pub config: Config,
    /// The sidebar's games, in the order shown when the search box is empty.
    pub games: Vec<Game>,
    /// The text of the search box.
    pub query: String,
    /// The text of the App ID box.
    pub manual_id: String,
    /// The game on the right, if any.
    pub open: Option<u32>,
    pub rows: Vec<Row>,
    pub filter: Filter,
    /// A request to Steam is in flight.
    pub busy: bool,
    pub link: Link,
    pub error: Option<String>,
    pub notice: Option<String>,
    /// Names Steam refused last time, reapplied to rows after the reload.
    pub refused: Vec<String>,
    /// The chip above the list is on: removed games are shown too, faded.
    pub show_removed: bool,
    /// The settings changed since they were last written to disk.
    pub dirty: bool,
}

/// The App IDs without `id`.
pub open spec fn without_id(ids: Seq<u32>, id: u32) -> Seq<u32>
    decreases ids.len(),
{
    if ids.len() == 0 {
        ids
    } else {
        without_id(ids.drop_last(), id) + if ids.last() == id {
            Seq::<u32>::empty()
        } else {
            seq![ids.last()]
        }
    }
}

/// Restoring a game, by its **+** or by opening it by App ID, leaves it among
/// the removed games no more; restoring one that was not removed changes
/// nothing.
pub proof fn law_restored_game_is_listed_again(ids: Seq<u32>, id: u32)
    ensures
        !without_id(ids, id).contains(id),
        !ids.contains(id) ==> without_id(ids, id) == ids,
    decreases ids.len(),
{
    if ids.len() > 0 {
        law_restored_game_is_listed_again(ids.drop_last(), id);
        let w = without_id(ids.drop_last(), id);
        if ids.last() != id {
            assert(w.push(ids.last()) == w + seq![ids.last()]);
            if w.push(ids.last()).contains(id) {
                let k = choose|k: int| 0 <= k < w.len() + 1 && w.push(ids.last())[k] == id;
                assert(k < w.len() ==> w[k] == id);
            }
        } else {
            assert(w + Seq::<u32>::empty() == w);
        }
        if !ids.contains(id) {
            assert(!ids.drop_last().contains(id)) by {
                if ids.drop_last().contains(id) {
                    let k = choose|k: int| 0 <= k < ids.len() - 1 && ids.drop_last()[k] == id;
                    assert(ids[k] == id);
                }
            }
            assert(ids.drop_last().push(ids.last()) == ids);
        }
    }
}

/// Restoring a game undoes removing it: the removed list is as it was.
pub proof fn law_restore_undoes_remove(ids: Seq<u32>, id: u32)
    requires
        !ids.contains(id),
    ensures
        without_id(ids.push(id), id) == ids,
{
    law_restored_game_is_listed_again(ids, id);
    assert(ids.push(id).drop_last() == ids);
    assert(without_id(ids, id) + Seq::<u32>::empty() == ids);
}

/// Whether `id` is among `ids`.
fn contains_id(ids: &Vec<u32>, id: u32) -> (b: bool)
    ensures
        b == ids@.contains(id),
{
    for i in 0..ids.len()
        invariant
            forall|j: int| 0 <= j < i ==> ids@[j] != id,
    {
        if ids[i] == id {
            return true;
        }
    }
    false
}

/// The App IDs without `id`.
fn without(ids: &Vec<u32>, id: u32) -> (r: Vec<u32>)
    ensures
        r@ == without_id(ids@, id),
{
    let mut r: Vec<u32> = Vec::new();
    for i in 0..ids.len()
        invariant
            r@ == without_id(ids@.take(i as int), id),
    {
        assert(ids@.take(i + 1).drop_last() == ids@.take(i as int));
        if ids[i] != id {
            r.push(ids[i]);
        }
    }
    assert(ids@.take(ids.len() as int) == ids@);
    r
}

/// The message shown when the App ID box holds something else than a number.
pub open spec fn bad_app_id_text() -> Seq<char> {
    "An App ID is a number, for example 367520."@
}

impl Session {
    /// The state on start-up. A game passed on the command line wins over the
    /// last one opened, and is listed even if no manifest for it was found,
    /// so `sam --id 367520` works for anything you own. Naming a game by App
    /// ID is an explicit request to see it, so a requested game that was
    /// removed from the sidebar is restored. When a game is to be opened, the
    /// command that loads it is returned.
    pub fn new(config: Config, games: Vec<Game>, requested: Option<u32>) -> (r: (Session, Option<Cmd>))
        ensures
            ({
                let (s, cmd) = r;
                let open = match requested {
                    Some(id) => Some(id),
                    None => config.last_app_id,
                };
                &&& s.open == open
                &&& s.config.sort_column == config.sort_column
                &&& s.config.sort_order == config.sort_order
                &&& s.config.last_app_id == config.last_app_id
                &&& s.config.counts == config.counts
                &&& s.config.removed@ == (match requested {
                    Some(id) => without_id(config.removed@, id),
                    None => config.removed@,
                })
                &&& s.games@ == (match open {
                    Some(id) => if has_app_id(games@, id) {
                        games@
                    } else {
                        seq![Game { app_id: id, name: s.games@[0].name }] + games@
                    },
                    None => games@,
                })
                &&& (match open {
                    Some(id) => !has_app_id(games@, id) ==> s.games@[0].name@ == placeholder(id),
                    None => true,
                })
                &&& cmd == (match open {
                    Some(id) => Some(Cmd::Load { app_id: id }),
                    None => None::<Cmd>,
                })
                &&& s.busy == open is Some
                &&& s.query@ == Seq::<char>::empty()
                &&& s.manual_id@ == Seq::<char>::empty()
                &&& s.rows@ == Seq::<Row>::empty()
                &&& s.filter == Filter::All
                &&& s.link == Link::Unknown
                &&& s.error is None
                &&& s.notice is None
                &&& s.refused@ == Seq::<String>::empty()
                &&& !s.show_removed
                &&& s.dirty == (requested matches Some(id) && config.removed@.contains(id))
            }),
    {
        let mut games = games;
        let mut config = config;
        let mut dirty = false;
        if let Some(id) = requested {
            if contains_id(&config.removed, id) {
                dirty = true;
            }
            config.removed = without(&config.removed, id);
        }
        let open = match requested {
            Some(id) => Some(id),
            None => config.last_app_id,
        };
        let cmd = match open {
            Some(id) => {
                if !contains_app_id(&games, id) {
                    games.insert(0, Game { app_id: id, name: placeholder_name(id) });
                }
                Some(Cmd::Load { app_id: id })
            },
            None => None,
        };
        let s = Session {
            config,
            games,
            query: String::new(),
            manual_id: String::new(),
            open,
            rows: Vec::new(),
            filter: Filter::All,
            busy: open.is_some(),
            link: Link::Unknown,
            error: None,
            notice: None,
            refused: Vec::new(),
            show_removed: false,
            dirty,
        };
        (s, cmd)
    }

    /// How many rows differ from Steam's state.
    pub fn pending(&self) -> (n: usize)
        ensures
            n == pending_count(rows_view(self.rows@)),
    {
        count_pending(&self.rows)
    }

    /// How many rows Steam reports unlocked.
    pub fn unlocked(&self) -> (n: usize)
        ensures
            n == unlocked_count(rows_view(self.rows@)),
    {
        count_unlocked(&self.rows)
    }

    /// Notes that the settings changed.
    pub fn mark_dirty(&mut self)
        ensures
            final(self).dirty,
            final(self).config == old(self).config,
            final(self).games == old(self).games,
            final(self).query == old(self).query,
            final(self).manual_id == old(self).manual_id,
            final(self).open == old(self).open,
            final(self).rows == old(self).rows,
            final(self).filter == old(self).filter,
            final(self).busy == old(self).busy,
            final(self).link == old(self).link,
            final(self).error == old(self).error,
            final(self).notice == old(self).notice,
            final(self).refused == old(self).refused,
            final(self).show_removed == old(self).show_removed,
    {
        self.dirty = true;
    }

    /// Sorts the rows by the configured column and order.
    pub fn sort_rows(&mut self)
        ensures
            sorted_rows(
                rows_view(old(self).rows@),
                rows_view(final(self).rows@),
                old(self).config.sort_column,
                old(self).config.sort_order,
            ),
            final(self).config == old(self).config,
            final(self).games == old(self).games,
            final(self).query == old(self).query,
            final(self).manual_id == old(self).manual_id,
            final(self).open == old(self).open,
            final(self).filter == old(self).filter,
            final(self).busy == old(self).busy,
            final(self).link == old(self).link,
            final(self).error == old(self).error,
            final(self).notice == old(self).notice,
            final(self).refused == old(self).refused,
            final(self).show_removed == old(self).show_removed,
            final(self).dirty == old(self).dirty,
    {
        let sorted = sorted_by_column(&self.rows, self.config.sort_column, self.config.sort_order);
        self.rows = sorted;
    }

    /// Opens a game: clears what was shown, marks the settings to be saved,
    /// and returns the command that loads it. Clicking the game that is
    /// already open and loaded changes nothing, so pending changes survive.
    pub fn open_game(&mut self, app_id: u32) -> (cmd: Option<Cmd>)
        ensures
            opened(*old(self), *final(self), app_id, cmd),
            final(self).dirty == (old(self).dirty || cmd is Some),
            final(self).config.removed == old(self).config.removed,
            final(self).show_removed == old(self).show_removed,
            final(self).games == old(self).games,
            final(self).query == old(self).query,
            final(self).manual_id == old(self).manual_id,
    {
        if self.open == Some(app_id) && self.rows.len() > 0 {
            return None;
        }
        self.open = Some(app_id);
        self.rows.clear();
        self.refused.clear();
        self.error = None;
        self.notice = None;
        self.busy = true;
        self.config.last_app_id = Some(app_id);
        self.dirty = true;
        Some(Cmd::Load { app_id })
    }

    /// Opens the game whose App ID is typed in the box. The game is added to
    /// the top of the sidebar when it is not listed, restored when it was
    /// removed, and the box is cleared. Anything but a number leaves an error
    /// message instead.
    pub fn submit_manual_id(&mut self) -> (cmd: Option<Cmd>)
        ensures
            parse_u32(trim(old(self).manual_id@)) matches Some(id) ==> {
                &&& opened(*old(self), *final(self), id, cmd)
                &&& final(self).config.removed@ == without_id(old(self).config.removed@, id)
                &&& final(self).dirty == (old(self).dirty || cmd is Some
                    || old(self).config.removed@.contains(id))
                &&& final(self).show_removed == (old(self).show_removed && without_id(
                    old(self).config.removed@,
                    id,
                ).len() > 0)
                &&& final(self).manual_id@ == Seq::<char>::empty()
                &&& final(self).query == old(self).query
                &&& if has_app_id(old(self).games@, id) {
                    final(self).games == old(self).games
                } else {
                    &&& final(self).games@ == seq![
                        Game { app_id: id, name: final(self).games@[0].name },
                    ] + old(self).games@
                    &&& final(self).games@[0].name@ == placeholder(id)
                }
            },
            parse_u32(trim(old(self).manual_id@)) is None ==> {
                &&& cmd is None
                &&& final(self).error matches Some(e) && e@ == bad_app_id_text()
                &&& final(self).config == old(self).config
                &&& final(self).games == old(self).games
                &&& final(self).query == old(self).query
                &&& final(self).manual_id == old(self).manual_id
                &&& final(self).open == old(self).open
                &&& final(self).rows == old(self).rows
                &&& final(self).filter == old(self).filter
                &&& final(self).busy == old(self).busy
                &&& final(self).link == old(self).link
                &&& final(self).notice == old(self).notice
                &&& final(self).refused == old(self).refused
                &&& final(self).show_removed == old(self).show_removed
                &&& final(self).dirty == old(self).dirty
            },
    {
        let typed = chars_of(self.manual_id.as_str());
        let trimmed = trim_chars(&typed);
        match parse_u32_chars(&trimmed) {
            Some(app_id) => {
                if !contains_app_id(&self.games, app_id) {
                    self.games.insert(0, Game { app_id, name: placeholder_name(app_id) });
                }
                self.manual_id = String::new();
                self.restore_game(app_id);
                self.open_game(app_id)
            },
            None => {
                self.error = Some(String::from_str("An App ID is a number, for example 367520."));
                None
            },
        }
    }

    /// Whether the game was taken out of the sidebar.
    pub fn is_removed(&self, app_id: u32) -> (b: bool)
        ensures
            b == self.config.removed@.contains(app_id),
    {
        contains_id(&self.config.removed, app_id)
    }

    /// Whether the sidebar leaves the game out as things stand.
    fn hides(&self, app_id: u32) -> (b: bool)
        ensures
            b == hidden_ids(*self).contains(app_id),
    {
        !self.show_removed && contains_id(&self.config.removed, app_id)
    }

    /// Takes a game out of the sidebar, the **x** on its row. Nothing else
    /// changes: a game that is open stays open with its pending changes.
    pub fn remove_game(&mut self, app_id: u32)
        ensures
            final(self).config.removed@ == (if old(self).config.removed@.contains(app_id) {
                old(self).config.removed@
            } else {
                old(self).config.removed@.push(app_id)
            }),
            final(self).dirty == (old(self).dirty || !old(self).config.removed@.contains(app_id)),
            final(self).config.sort_column == old(self).config.sort_column,
            final(self).config.sort_order == old(self).config.sort_order,
            final(self).config.last_app_id == old(self).config.last_app_id,
            final(self).config.counts == old(self).config.counts,
            final(self).games == old(self).games,
            final(self).query == old(self).query,
            final(self).manual_id == old(self).manual_id,
            final(self).open == old(self).open,
            final(self).rows == old(self).rows,
            final(self).filter == old(self).filter,
            final(self).busy == old(self).busy,
            final(self).link == old(self).link,
            final(self).error == old(self).error,
            final(self).notice == old(self).notice,
            final(self).refused == old(self).refused,
            final(self).show_removed == old(self).show_removed,
    {
        if !contains_id(&self.config.removed, app_id) {
            self.config.removed.push(app_id);
            self.dirty = true;
        }
    }

    /// Puts a removed game back in the sidebar, the **+** on its faded row.
    /// Once nothing is removed any more, the chip that shows removed games
    /// goes off.
    pub fn restore_game(&mut self, app_id: u32)
        ensures
            final(self).config.removed@ == without_id(old(self).config.removed@, app_id),
            final(self).dirty == (old(self).dirty || old(self).config.removed@.contains(app_id)),
            final(self).show_removed == (old(self).show_removed && without_id(
                old(self).config.removed@,
                app_id,
            ).len() > 0),
            final(self).config.sort_column == old(self).config.sort_column,
            final(self).config.sort_order == old(self).config.sort_order,
            final(self).config.last_app_id == old(self).config.last_app_id,
            final(self).config.counts == old(self).config.counts,
            final(self).games == old(self).games,
            final(self).query == old(self).query,
            final(self).manual_id == old(self).manual_id,
            final(self).open == old(self).open,
            final(self).rows == old(self).rows,
            final(self).filter == old(self).filter,
            final(self).busy == old(self).busy,
            final(self).link == old(self).link,
            final(self).error == old(self).error,
            final(self).notice == old(self).notice,
            final(self).refused == old(self).refused,
    {
        if contains_id(&self.config.removed, app_id) {
            self.dirty = true;
        }
        self.config.removed = without(&self.config.removed, app_id);
        if self.config.removed.len() == 0 {
            self.show_removed = false;
        }
    }

    /// The chip above the list: shows the removed games, faded, or hides
    /// them again.
    pub fn toggle_show_removed(&mut self)
        ensures
            final(self).show_removed == !old(self).show_removed,
            final(self).config == old(self).config,
            final(self).games == old(self).games,
            final(self).query == old(self).query,
            final(self).manual_id == old(self).manual_id,
            final(self).open == old(self).open,
            final(self).rows == old(self).rows,
            final(self).filter == old(self).filter,
            final(self).busy == old(self).busy,
            final(self).link == old(self).link,
            final(self).error == old(self).error,
            final(self).notice == old(self).notice,
            final(self).refused == old(self).refused,
            final(self).dirty == old(self).dirty,
    {
        self.show_removed = !self.show_removed;
    }

    /// Reloads the open game, as Refresh and F5 do.
    pub fn reload(&mut self) -> (cmd: Option<Cmd>)
        ensures
            old(self).open is None ==> cmd is None && *final(self) == *old(self),
            old(self).open matches Some(id) ==> {
                &&& cmd == Some(Cmd::Load { app_id: id })
                &&& final(self).busy
                &&& final(self).error is None
                &&& final(self).notice is None
                &&& final(self).config == old(self).config
                &&& final(self).games == old(self).games
                &&& final(self).query == old(self).query
                &&& final(self).manual_id == old(self).manual_id
                &&& final(self).open == old(self).open
                &&& final(self).rows == old(self).rows
                &&& final(self).filter == old(self).filter
                &&& final(self).link == old(self).link
                &&& final(self).refused == old(self).refused
                &&& final(self).show_removed == old(self).show_removed
                &&& final(self).dirty == old(self).dirty
            },
    {
        match self.open {
            Some(app_id) => {
                self.busy = true;
                self.error = None;
                self.notice = None;
                Some(Cmd::Load { app_id })
            },
            None => None,
        }
    }

    /// Gathers the pending changes and returns the command that writes them.
    /// Nothing happens without an open game or without a pending change.
    pub fn apply(&mut self) -> (cmd: Option<Cmd>)
        ensures
            old(self).open is None || pending_count(rows_view(old(self).rows@)) == 0 ==> {
                &&& cmd is None
                &&& *final(self) == *old(self)
            },
            old(self).open is Some && pending_count(rows_view(old(self).rows@)) > 0 ==> {
                &&& cmd matches Some(Cmd::Apply { app_id, unlock, reset }) && old(self).open == Some(
                    app_id,
                )
                    && unlock.deep_view() == unlock_names(rows_view(old(self).rows@))
                    && reset.deep_view() == reset_names(rows_view(old(self).rows@))
                &&& final(self).busy
                &&& final(self).error is None
                &&& final(self).notice is None
                &&& final(self).refused@ == Seq::<String>::empty()
                &&& final(self).config == old(self).config
                &&& final(self).games == old(self).games
                &&& final(self).query == old(self).query
                &&& final(self).manual_id == old(self).manual_id
                &&& final(self).open == old(self).open
                &&& final(self).rows == old(self).rows
                &&& final(self).filter == old(self).filter
                &&& final(self).link == old(self).link
                &&& final(self).show_removed == old(self).show_removed
                &&& final(self).dirty == old(self).dirty
            },
    {
        let app_id = match self.open {
            Some(id) => id,
            None => return None,
        };
        let ghost rv = rows_view(self.rows@);
        let mut unlock: Vec<String> = Vec::new();
        let mut reset: Vec<String> = Vec::new();
        for i in 0..self.rows.len()
            invariant
                rv == rows_view(self.rows@),
                unlock.deep_view() == unlock_names(rv.take(i as int)),
                reset.deep_view() == reset_names(rv.take(i as int)),
        {
            assert(rv.take(i + 1).drop_last() == rv.take(i as int));
            let ghost u0 = unlock.deep_view();
            let ghost r0 = reset.deep_view();
            if self.rows[i].desired && !self.rows[i].unlocked {
                unlock.push(self.rows[i].api_name.clone());
                assert(unlock.deep_view() =~~= u0.push(rv[i as int].api_name));
            } else if !self.rows[i].desired && self.rows[i].unlocked {
                reset.push(self.rows[i].api_name.clone());
                assert(reset.deep_view() =~~= r0.push(rv[i as int].api_name));
            }
            assert(unlock_names(rv.take(i + 1)) == unlock_names(rv.take(i as int)) + if rv[i as int].desired
                && !rv[i as int].unlocked {
                seq![rv[i as int].api_name]
            } else {
                Seq::<Seq<char>>::empty()
            });
        }
        assert(rv.take(self.rows@.len() as int) == rv);
        proof {
            law_apply_writes_every_pending_change(rv);
        }
        if unlock.len() == 0 && reset.len() == 0 {
            return None;
        }
        self.busy = true;
        self.error = None;
        self.notice = None;
        self.refused.clear();
        Some(Cmd::Apply { app_id, unlock, reset })
    }

    /// Ticks or unticks one row, and forgets that Steam refused it.
    pub fn toggle(&mut self, index: usize)
        requires
            index < old(self).rows@.len(),
        ensures
            rows_view(final(self).rows@) == rows_view(old(self).rows@).update(
                index as int,
                toggled(rows_view(old(self).rows@)[index as int]),
            ),
            final(self).config == old(self).config,
            final(self).games == old(self).games,
            final(self).query == old(self).query,
            final(self).manual_id == old(self).manual_id,
            final(self).open == old(self).open,
            final(self).filter == old(self).filter,
            final(self).busy == old(self).busy,
            final(self).link == old(self).link,
            final(self).error == old(self).error,
            final(self).notice == old(self).notice,
            final(self).refused == old(self).refused,
            final(self).show_removed == old(self).show_removed,
            final(self).dirty == old(self).dirty,
    {
        let mut row = self.rows[index].clone();
        row.desired = !row.desired;
        row.refused = false;
        self.rows.set(index, row);
        assert(rows_view(self.rows@) =~= rows_view(old(self).rows@).update(
            index as int,
            toggled(rows_view(old(self).rows@)[index as int]),
        ));
    }

    /// Returns every row to Steam's current state, throwing the pending
    /// changes away.
    pub fn discard(&mut self)
        ensures
            rows_view(final(self).rows@) == rows_view(old(self).rows@).map_values(
                |r: RowModel| with_desired(r, r.unlocked),
            ),
            final(self).config == old(self).config,
            final(self).games == old(self).games,
            final(self).query == old(self).query,
            final(self).manual_id == old(self).manual_id,
            final(self).open == old(self).open,
            final(self).filter == old(self).filter,
            final(self).busy == old(self).busy,
            final(self).link == old(self).link,
            final(self).error == old(self).error,
            final(self).notice == old(self).notice,
            final(self).refused == old(self).refused,
            final(self).show_removed == old(self).show_removed,
            final(self).dirty == old(self).dirty,
    {
        let ghost before = rows_view(self.rows@);
        let n = self.rows.len();
        for i in 0..n
            invariant
                n == before.len(),
                before.len() == self.rows@.len(),
                forall|j: int|
                    0 <= j < i ==> (#[trigger] self.rows@[j])@ == with_desired(
                        before[j],
                        before[j].unlocked,
                    ),
                forall|j: int| i <= j < before.len() ==> (#[trigger] self.rows@[j])@ == before[j],
                self.config == old(self).config,
                self.games == old(self).games,
                self.query == old(self).query,
                self.manual_id == old(self).manual_id,
                self.open == old(self).open,
                self.filter == old(self).filter,
                self.busy == old(self).busy,
                self.link == old(self).link,
                self.error == old(self).error,
                self.notice == old(self).notice,
                self.refused == old(self).refused,
                self.show_removed == old(self).show_removed,
                self.dirty == old(self).dirty,
        {
            assert(self.rows@[i as int]@ == before[i as int]);
            let mut row = self.rows[i].clone();
            row.desired = row.unlocked;
            self.rows.set(i, row);
        }
        assert(rows_view(self.rows@) =~= before.map_values(
            |r: RowModel| with_desired(r, r.unlocked),
        ));
    }

    /// Ticks every row the current filter shows.
    pub fn unlock_all_shown(&mut self)
        ensures
            rows_view(final(self).rows@) == rows_view(old(self).rows@).map_values(
                |r: RowModel|
                    if passes(r, old(self).filter) {
                        with_desired(r, true)
                    } else {
                        r
                    },
            ),
            final(self).config == old(self).config,
            final(self).games == old(self).games,
            final(self).query == old(self).query,
            final(self).manual_id == old(self).manual_id,
            final(self).open == old(self).open,
            final(self).filter == old(self).filter,
            final(self).busy == old(self).busy,
            final(self).link == old(self).link,
            final(self).error == old(self).error,
            final(self).notice == old(self).notice,
            final(self).refused == old(self).refused,
            final(self).show_removed == old(self).show_removed,
            final(self).dirty == old(self).dirty,
    {
        let ghost before = rows_view(self.rows@);
        let filter = self.filter;
        let n = self.rows.len();
        for i in 0..n
            invariant
                n == before.len(),
                before.len() == self.rows@.len(),
                filter == old(self).filter,
                forall|j: int|
                    0 <= j < i ==> (#[trigger] self.rows@[j])@ == (if passes(
                        before[j],
                        filter,
                    ) {
                        with_desired(before[j], true)
                    } else {
                        before[j]
                    }),
                forall|j: int| i <= j < before.len() ==> (#[trigger] self.rows@[j])@ == before[j],
                self.config == old(self).config,
                self.games == old(self).games,
                self.query == old(self).query,
                self.manual_id == old(self).manual_id,
                self.open == old(self).open,
                self.filter == old(self).filter,
                self.busy == old(self).busy,
                self.link == old(self).link,
                self.error == old(self).error,
                self.notice == old(self).notice,
                self.refused == old(self).refused,
                self.show_removed == old(self).show_removed,
                self.dirty == old(self).dirty,
        {
            assert(self.rows@[i as int]@ == before[i as int]);
            if shows(&self.rows[i], filter) {
                let mut row = self.rows[i].clone();
                row.desired = true;
                self.rows.set(i, row);
            }
        }
        assert(rows_view(self.rows@) =~= before.map_values(
            |r: RowModel|
                if passes(r, filter) {
                    with_desired(r, true)
                } else {
                    r
                },
        ));
    }

    /// Shows only the achievements the filter lets through.
    pub fn set_filter(&mut self, filter: Filter)
        ensures
            final(self).filter == filter,
            final(self).config == old(self).config,
            final(self).games == old(self).games,
            final(self).query == old(self).query,
            final(self).manual_id == old(self).manual_id,
            final(self).open == old(self).open,
            final(self).rows == old(self).rows,
            final(self).busy == old(self).busy,
            final(self).link == old(self).link,
            final(self).error == old(self).error,
            final(self).notice == old(self).notice,
            final(self).refused == old(self).refused,
            final(self).show_removed == old(self).show_removed,
            final(self).dirty == old(self).dirty,
    {
        self.filter = filter;
    }

    /// Moves the sort to the next column (rarity, name, state, and round
    /// again), re-sorts, and marks the settings to be saved.
    pub fn cycle_sort(&mut self)
        ensures
            final(self).config.sort_column == next_column(old(self).config.sort_column),
            sorted_rows(
                rows_view(old(self).rows@),
                rows_view(final(self).rows@),
                next_column(old(self).config.sort_column),
                old(self).config.sort_order,
            ),
            final(self).dirty,
            final(self).config.sort_order == old(self).config.sort_order,
            final(self).config.last_app_id == old(self).config.last_app_id,
            final(self).config.counts == old(self).config.counts,
            final(self).config.removed == old(self).config.removed,
            final(self).games == old(self).games,
            final(self).query == old(self).query,
            final(self).manual_id == old(self).manual_id,
            final(self).open == old(self).open,
            final(self).filter == old(self).filter,
            final(self).busy == old(self).busy,
            final(self).link == old(self).link,
            final(self).error == old(self).error,
            final(self).notice == old(self).notice,
            final(self).refused == old(self).refused,
            final(self).show_removed == old(self).show_removed,
    {
        self.config.sort_column = match self.config.sort_column {
            SortColumn::Rarity => SortColumn::Name,
            SortColumn::Name => SortColumn::State,
            SortColumn::State => SortColumn::Rarity,
        };
        self.sort_rows();
        self.dirty = true;
    }

    /// Turns the sort direction around, re-sorts, and marks the settings to
    /// be saved.
    pub fn flip_order(&mut self)
        ensures
            final(self).config.sort_order == flipped(old(self).config.sort_order),
            sorted_rows(
                rows_view(old(self).rows@),
                rows_view(final(self).rows@),
                old(self).config.sort_column,
                flipped(old(self).config.sort_order),
            ),
            final(self).dirty,
            final(self).config.sort_column == old(self).config.sort_column,
            final(self).config.last_app_id == old(self).config.last_app_id,
            final(self).config.counts == old(self).config.counts,
            final(self).config.removed == old(self).config.removed,
            final(self).games == old(self).games,
            final(self).query == old(self).query,
            final(self).manual_id == old(self).manual_id,
            final(self).open == old(self).open,
            final(self).filter == old(self).filter,
            final(self).busy == old(self).busy,
            final(self).link == old(self).link,
            final(self).error == old(self).error,
            final(self).notice == old(self).notice,
            final(self).refused == old(self).refused,
            final(self).show_removed == old(self).show_removed,
    {
        self.config.sort_order = match self.config.sort_order {
            SortOrder::Ascending => SortOrder::Descending,
            SortOrder::Descending => SortOrder::Ascending,
        };
        self.sort_rows();
        self.dirty = true;
    }

    /// Takes in a freshly read achievement list: builds the rows, sorts them,
    /// marks the ones Steam refused last time, records the counts for the
    /// sidebar and the game as the last one opened.
    pub fn adopt(&mut self, app_id: u32, achievements: Vec<AchievementInfo>)
        ensures
            adopted(*old(self), *final(self), app_id, achievements@),
    {
        let ghost refused = self.refused.deep_view();
        let ghost built = built_rows(achievements@, refused);
        let mut rows: Vec<Row> = Vec::new();
        for i in 0..achievements.len()
            invariant
                refused == self.refused.deep_view(),
                built == built_rows(achievements@, refused),
                rows_view(rows@) == built.take(i as int),
        {
            let a = &achievements[i];
            let description = if trim_chars(&chars_of(a.description.as_str())).len() == 0 {
                if a.hidden && !a.unlocked {
                    String::from_str("Hidden until unlocked")
                } else {
                    String::new()
                }
            } else {
                a.description.clone()
            };
            let was_refused = contains_name(&self.refused, &a.api_name);
            let row = Row {
                refused: was_refused,
                api_name: a.api_name.clone(),
                title: a.display_name.clone(),
                description,
                unlocked: a.unlocked,
                desired: a.unlocked,
                percentage_bits: a.percentage_bits,
            };
            let ghost prev = rows_view(rows@);
            rows.push(row);
            assert(rows_view(rows@) == prev.push(row@));
            assert(built.take(i + 1) == built.take(i as int).push(built[i as int]));
        }
        assert(built.take(achievements@.len() as int) == built);
        let unlocked = count_unlocked(&rows);
        let total = rows.len();
        self.rows = rows;
        self.sort_rows();
        self.busy = false;
        self.link = Link::Connected;
        self.error = None;
        self.config.remember_counts(app_id, unlocked as u32, total as u32);
        self.config.last_app_id = Some(app_id);
        self.dirty = true;
    }

    /// Takes in one reply from the Steam thread and returns the command it
    /// calls for. A reply about a game other than the open one is stale and
    /// changes nothing. After writes, the game is read again: Steam is the
    /// only authority on what is actually unlocked. A failed call, read or
    /// write, leaves the status line at "Steam not responding".
    pub fn take_message(&mut self, msg: Msg) -> (cmd: Option<Cmd>)
        ensures
            Some(msg_app_id(msg)) != old(self).open ==> cmd is None && *final(self) == *old(
                self,
            ),
            Some(msg_app_id(msg)) == old(self).open ==> match msg {
                Msg::Loaded { app_id, achievements } => {
                    &&& cmd is None
                    &&& adopted(*old(self), *final(self), app_id, achievements@)
                },
                Msg::LoadFailed { app_id, error } => {
                    &&& cmd is None
                    &&& final(self).rows@ == Seq::<Row>::empty()
                    &&& !final(self).busy
                    &&& final(self).link == Link::Unavailable
                    &&& final(self).notice is None
                    &&& final(self).error == Some(error)
                    &&& final(self).config == old(self).config
                    &&& final(self).games == old(self).games
                    &&& final(self).query == old(self).query
                    &&& final(self).manual_id == old(self).manual_id
                    &&& final(self).open == old(self).open
                    &&& final(self).filter == old(self).filter
                    &&& final(self).refused == old(self).refused
                    &&& final(self).show_removed == old(self).show_removed
                    &&& final(self).dirty == old(self).dirty
                },
                Msg::Applied { app_id, written, failed } => {
                    &&& cmd == Some(Cmd::Load { app_id })
                    &&& final(self).refused == failed
                    &&& final(self).notice matches Some(n) && n@ == applied_text(
                        written as nat,
                        failed@.len(),
                    )
                    &&& final(self).error is None
                    &&& final(self).config == old(self).config
                    &&& final(self).games == old(self).games
                    &&& final(self).query == old(self).query
                    &&& final(self).manual_id == old(self).manual_id
                    &&& final(self).open == old(self).open
                    &&& final(self).rows == old(self).rows
                    &&& final(self).filter == old(self).filter
                    &&& final(self).busy == old(self).busy
                    &&& final(self).link == old(self).link
                    &&& final(self).show_removed == old(self).show_removed
                    &&& final(self).dirty == old(self).dirty
                },
                Msg::ApplyFailed { app_id, error } => {
                    &&& cmd is None
                    &&& !final(self).busy
                    &&& final(self).notice is None
                    &&& final(self).error == Some(error)
                    &&& final(self).config == old(self).config
                    &&& final(self).games == old(self).games
                    &&& final(self).query == old(self).query
                    &&& final(self).manual_id == old(self).manual_id
                    &&& final(self).open == old(self).open
                    &&& final(self).rows == old(self).rows
                    &&& final(self).filter == old(self).filter
                    &&& final(self).link == Link::Unavailable
                    &&& final(self).refused == old(self).refused
                    &&& final(self).show_removed == old(self).show_removed
                    &&& final(self).dirty == old(self).dirty
                },
            },
    {
        match msg {
            Msg::Loaded { app_id, achievements } => {
                if Some(app_id) != self.open {
                    return None;
                }
                self.adopt(app_id, achievements);
                None
            },
            Msg::LoadFailed { app_id, error } => {
                if Some(app_id) != self.open {
                    return None;
                }
                self.rows.clear();
                self.busy = false;
                self.link = Link::Unavailable;
                self.notice = None;
                self.error = Some(error);
                None
            },
            Msg::Applied { app_id, written, failed } => {
                if Some(app_id) != self.open {
                    return None;
                }
                self.refused = failed;
                self.notice = Some(applied_notice(written, self.refused.len()));
                self.error = None;
                Some(Cmd::Load { app_id })
            },
            Msg::ApplyFailed { app_id, error } => {
                if Some(app_id) != self.open {
                    return None;
                }
                self.busy = false;
                self.link = Link::Unavailable;
                self.notice = None;
                self.error = Some(error);
                None
            },
        }
    }

    /// The sidebar's games matching the search box, best match first, as
    /// positions in `games`. With an empty box every game is listed in order.
    /// Both sides are folded to lower case before matching, and a game is
    /// matched by its App ID when its name does not match. Games with equal
    /// scores keep their order. Removed games are left out unless the chip
    /// that shows them is on.
    pub fn visible_games(&self) -> (r: Vec<usize>)
        ensures
            trim(self.query@).len() == 0 ==> r@ == listed(self.games@, hidden_ids(*self)),
            trim(self.query@).len() > 0 && !scorable(lowercase(trim(self.query@))) ==> r@.len()
                == 0,
            trim(self.query@).len() > 0 && scorable(lowercase(trim(self.query@))) ==> {
                let found = scored(self.games@, lowercase(trim(self.query@)), hidden_ids(*self));
                exists|order: Seq<usize>|
                    {
                        &&& is_index_permutation(order, found.len())
                        &&& sorted_by_rank(found.map_values(|p: (int, usize)| score_key(p.0)), order)
                        &&& r@ == order.map_values(|k: usize| found[k as int].1)
                    }
            },
    {
        let ghost games = self.games@;
        let ghost hidden = hidden_ids(*self);
        let typed = chars_of(self.query.as_str());
        let trimmed = trim_chars(&typed);
        if trimmed.len() == 0 {
            let mut all: Vec<usize> = Vec::new();
            for i in 0..self.games.len()
                invariant
                    games == self.games@,
                    hidden == hidden_ids(*self),
                    all@ == listed(games.take(i as int), hidden),
            {
                assert(games.take(i + 1).drop_last() == games.take(i as int));
                assert(games.take(i + 1).last() == games[i as int]);
                if !self.hides(self.games[i].app_id) {
                    all.push(i);
                }
            }
            assert(games.take(games.len() as int) == games);
            return all;
        }
        let mut folded_input = String::new();
        push_chars(&mut folded_input, &trimmed);
        let needle = to_lowercase(folded_input.as_str());
        if !is_scorable(needle.as_str()) {
            return Vec::new();
        }
        let ghost nv = needle@;
        let mut keys: Vec<Vec<u64>> = Vec::new();
        let mut positions: Vec<usize> = Vec::new();
        for i in 0..self.games.len()
            invariant
                games == self.games@,
                hidden == hidden_ids(*self),
                nv == needle@,
                scorable(nv),
                keys.deep_view() == scored(games.take(i as int), nv, hidden).map_values(
                    |p: (int, usize)| score_key(p.0),
                ),
                positions@ == scored(games.take(i as int), nv, hidden).map_values(
                    |p: (int, usize)| p.1,
                ),
        {
            assert(games.take(i + 1).drop_last() == games.take(i as int));
            assert(games.take(i + 1).last() == games[i as int]);
            let ghost k0 = keys.deep_view();
            let ghost p0 = positions@;
            let hidden_here = self.hides(self.games[i].app_id);
            let found_score = if hidden_here {
                None
            } else {
                score_game(&self.games[i], needle.as_str())
            };
            match found_score {
                Some(score) => {
                    let inverted = (9223372036854775807i128 - score as i128) as u64;
                    let key = vec![inverted];
                    keys.push(key);
                    positions.push(i);
                    assert(keys.deep_view() =~~= k0.push(score_key(score as int)));
                    assert(scored(games.take(i + 1), nv, hidden) == scored(
                        games.take(i as int),
                        nv,
                        hidden,
                    ).push((score as int, i)));
                },
                None => {
                    assert(scored(games.take(i + 1), nv, hidden) == scored(
                        games.take(i as int),
                        nv,
                        hidden,
                    ));
                },
            }
        }
        assert(games.take(games.len() as int) == games);
        let order = stable_order(&keys);
        let ghost found = scored(games, nv, hidden);
        let mut r: Vec<usize> = Vec::new();
        for j in 0..order.len()
            invariant
                is_index_permutation(order@, keys@.len()),
                keys@.len() == found.len(),
                positions@ == found.map_values(|p: (int, usize)| p.1),
                r@ == order@.take(j as int).map_values(|k: usize| found[k as int].1),
        {
            r.push(positions[order[j]]);
            assert(order@.take(j + 1).map_values(|k: usize| found[k as int].1) == order@.take(
                j as int,
            ).map_values(|k: usize| found[k as int].1).push(found[order@[j as int] as int].1));
        }
        assert(order@.take(order@.len() as int) == order@);
        r
    }

    /// The line under a game in the sidebar: live counts for the open game,
    /// "Reading…" while it loads, otherwise what was seen last time, or that
    /// it was never opened.
    pub fn game_subtitle(&self, app_id: u32, selected: bool) -> (s: String)
        ensures
            s@ == subtitle_text(*self, app_id, selected),
    {
        let mut s = String::new();
        if selected && self.rows.len() > 0 {
            let unlocked = count_unlocked(&self.rows);
            push_decimal(&mut s, unlocked as u64);
            s.append(" / ");
            push_decimal(&mut s, self.rows.len() as u64);
            s.append(" unlocked");
            return s;
        }
        if selected && self.busy {
            s.append("Reading\u{2026}");
            return s;
        }
        match self.config.counts_for(app_id) {
            Some(c) => {
                push_decimal(&mut s, c.unlocked as u64);
                s.append(" / ");
                push_decimal(&mut s, c.total as u64);
                s.append(" last seen");
            },
            None => {
                s.append("Not opened yet");
            },
        }
        s
    }

    /// The title over the achievement list: the open game's name, else "Sam".
    pub fn header_title(&self) -> (s: String)
        ensures
            s@ == title_text(*self),
    {
        match self.open {
            Some(id) => match first_game_index(&self.games, id) {
                Some(k) => self.games[k].name.clone(),
                None => String::from_str("Sam"),
            },
            None => String::from_str("Sam"),
        }
    }

    /// The line under the title: the App ID, and how many achievements are
    /// unlocked once they are known.
    pub fn header_subtitle(&self) -> (s: String)
        ensures
            s@ == header_subtitle_text(*self),
    {
        let mut s = String::new();
        match self.open {
            Some(id) => {
                s.append("App ID ");
                push_decimal(&mut s, id as u64);
                if self.rows.len() > 0 {
                    let unlocked = count_unlocked(&self.rows);
                    s.append(" \u{b7} ");
                    push_decimal(&mut s, unlocked as u64);
                    s.append(" of ");
                    push_decimal(&mut s, self.rows.len() as u64);
                    s.append(" achievements unlocked");
                } else if self.busy {
                    s.append(" \u{b7} reading\u{2026}");
                }
            },
            None => {
                s.append("No game open");
            },
        }
        s
    }

    /// The Apply button can be pressed: something is pending and no request
    /// is in flight.
    pub fn can_apply(&self) -> (b: bool)
        ensures
            b == (pending_count(rows_view(self.rows@)) > 0 && !self.busy),
    {
        self.pending() > 0 && !self.busy
    }

    /// The Refresh button can be pressed: a game is open and no request is in
    /// flight.
    pub fn can_refresh(&self) -> (b: bool)
        ensures
            b == (self.open is Some && !self.busy),
    {
        self.open.is_some() && !self.busy
    }

    /// The large message shown in place of the list, with its hint, when
    /// there are no rows to show.
    pub fn empty_message(&self) -> (m: Option<(&'static str, &'static str)>)
        ensures
            match m {
                None => self.open is Some && self.rows@.len() > 0,
                Some((title, hint)) => (title@, hint@) == empty_texts(*self),
            },
    {
        if self.open.is_none() {
            return Some(("Pick a game", "Choose one from the library on the left, or type an App ID."));
        }
        if self.rows.len() > 0 {
            return None;
        }
        if self.busy {
            Some(("Reading achievements", "Steam is answering. This takes a moment the first time."))
        } else if self.error.is_some() {
            Some(("Nothing to show", "Fix the problem above, then press Refresh."))
        } else {
            Some(("No achievements", "This game does not have any."))
        }
    }

    /// What the sidebar says when no game is listed: that none was found, or
    /// that none matches the search.
    pub fn empty_library_message(&self) -> (s: &'static str)
        ensures
            s@ == (if self.games@.len() == 0 {
                "No installed games found. Use the App ID box below."@
            } else {
                "Nothing matches that search."@
            }),
    {
        if self.games.len() == 0 {
            "No installed games found. Use the App ID box below."
        } else {
            "Nothing matches that search."
        }
    }
}

/// `post` is `pre` after opening `app_id`, with `cmd` returned: nothing that
/// is shown changes when that game is already open and loaded; otherwise the
/// list is cleared, a load is requested and the game is remembered as last
/// opened. Whether the settings are to be saved, and the removed games with
/// their chip, are stated by the callers.
pub open spec fn opened(pre: Session, post: Session, app_id: u32, cmd: Option<Cmd>) -> bool {
    &&& post.config.counts == pre.config.counts
    &&& post.config.sort_column == pre.config.sort_column
    &&& post.config.sort_order == pre.config.sort_order
    &&& post.filter == pre.filter
    &&& post.link == pre.link
    &&& if pre.open == Some(app_id) && pre.rows@.len() > 0 {
        &&& cmd is None
        &&& post.config.last_app_id == pre.config.last_app_id
        &&& post.open == pre.open
        &&& post.rows == pre.rows
        &&& post.busy == pre.busy
        &&& post.error == pre.error
        &&& post.notice == pre.notice
        &&& post.refused == pre.refused
    } else {
        &&& cmd == Some(Cmd::Load { app_id })
        &&& post.open == Some(app_id)
        &&& post.rows@ == Seq::<Row>::empty()
        &&& post.refused@ == Seq::<String>::empty()
        &&& post.error is None
        &&& post.notice is None
        &&& post.busy
        &&& post.config.last_app_id == Some(app_id)
    }
}

/// The column after `c` on the sort chip.
pub open spec fn next_column(c: SortColumn) -> SortColumn {
    match c {
        SortColumn::Rarity => SortColumn::Name,
        SortColumn::Name => SortColumn::State,
        SortColumn::State => SortColumn::Rarity,
    }
}

/// The other direction.
pub open spec fn flipped(o: SortOrder) -> SortOrder {
    match o {
        SortOrder::Ascending => SortOrder::Descending,
        SortOrder::Descending => SortOrder::Ascending,
    }
}

/// Pressing the sort chip three times comes back to the same column, and
/// flipping the direction twice to the same direction.
pub proof fn law_sort_chips_come_round(c: SortColumn, o: SortOrder)
    ensures
        next_column(next_column(next_column(c))) == c,
        next_column(c) != c,
        flipped(flipped(o)) == o,
        flipped(o) != o,
{
}


/// The row with its tick flipped and its refusal forgotten.
pub open spec fn toggled(r: RowModel) -> RowModel {
    RowModel {
        api_name: r.api_name,
        title: r.title,
        description: r.description,
        unlocked: r.unlocked,
        desired: !r.desired,
        percentage_bits: r.percentage_bits,
        refused: false,
    }
}

/// The row with its tick set to `desired`.
pub open spec fn with_desired(r: RowModel, desired: bool) -> RowModel {
    RowModel {
        api_name: r.api_name,
        title: r.title,
        description: r.description,
        unlocked: r.unlocked,
        desired,
        percentage_bits: r.percentage_bits,
        refused: r.refused,
    }
}

/// The API names to unlock: ticked rows Steam reports locked, in list order.
pub open spec fn unlock_names(rows: Seq<RowModel>) -> Seq<Seq<char>>
    decreases rows.len(),
{
    if rows.len() == 0 {
        seq![]
    } else {
        unlock_names(rows.drop_last()) + if rows.last().desired && !rows.last().unlocked {
            seq![rows.last().api_name]
        } else {
            Seq::<Seq<char>>::empty()
        }
    }
}

/// The API names to reset: unticked rows Steam reports unlocked, in list
/// order.
pub open spec fn reset_names(rows: Seq<RowModel>) -> Seq<Seq<char>>
    decreases rows.len(),
{
    if rows.len() == 0 {
        seq![]
    } else {
        reset_names(rows.drop_last()) + if !rows.last().desired && rows.last().unlocked {
            seq![rows.last().api_name]
        } else {
            Seq::<Seq<char>>::empty()
        }
    }
}

/// Apply writes exactly the pending changes: as many unlocks and resets
/// together as there are pending rows.
pub proof fn law_apply_writes_every_pending_change(rows: Seq<RowModel>)
    ensures
        unlock_names(rows).len() + reset_names(rows).len() == pending_count(rows),
    decreases rows.len(),
{
    if rows.len() > 0 {
        law_apply_writes_every_pending_change(rows.drop_last());
    }
}

proof fn lemma_no_pending_row(rows: Seq<RowModel>)
    requires
        forall|i: int| 0 <= i < rows.len() ==> !is_pending(#[trigger] rows[i]),
    ensures
        pending_count(rows) == 0,
    decreases rows.len(),
{
    if rows.len() > 0 {
        let t = rows.drop_last();
        assert(forall|i: int| 0 <= i < t.len() ==> t[i] == rows[i]);
        lemma_no_pending_row(t);
        assert(!is_pending(rows[rows.len() - 1]));
    }
}

/// What Steam reports is what the list shows after a load: no row of a
/// freshly loaded game is pending.
pub proof fn law_loaded_rows_have_nothing_pending(
    pre: Session,
    post: Session,
    app_id: u32,
    achievements: Seq<AchievementInfo>,
)
    requires
        adopted(pre, post, app_id, achievements),
    ensures
        pending_count(rows_view(post.rows@)) == 0,
{
    let built = built_rows(achievements, pre.refused.deep_view());
    let after = rows_view(post.rows@);
    let order = choose|order: Seq<usize>|
        {
            &&& is_index_permutation(order, built.len())
            &&& sorted_by_rank(row_keys(built, pre.config.sort_column), order)
            &&& after == arranged(built, order, pre.config.sort_order)
        };
    let ascending = order.map_values(|i: usize| built[i as int]);
    assert forall|j: int| 0 <= j < after.len() implies !is_pending(#[trigger] after[j]) by {
        match pre.config.sort_order {
            SortOrder::Ascending => {
                assert(after[j] == built[order[j] as int]);
            },
            SortOrder::Descending => {
                let k = ascending.len() - 1 - j;
                assert(after[j] == ascending[k]);
                assert(ascending[k] == built[order[k] as int]);
            },
        }
    }
    lemma_no_pending_row(after);
}

/// What the sidebar shows as "last seen" for a game is what its latest load
/// found: the unlocked count and the total of the loaded achievements.
pub proof fn law_load_records_counts(
    pre: Session,
    post: Session,
    app_id: u32,
    achievements: Seq<AchievementInfo>,
)
    requires
        adopted(pre, post, app_id, achievements),
    ensures
        ({
            let built = built_rows(achievements, pre.refused.deep_view());
            lookup_counts(post.config.counts@, app_id) == Some(
                CachedCounts {
                    app_id,
                    unlocked: unlocked_count(built) as u32,
                    total: built.len() as u32,
                },
            )
        }),
{
    let built = built_rows(achievements, pre.refused.deep_view());
    law_lookup_after_remember(
        pre.config.counts@,
        app_id,
        unlocked_count(built) as u32,
        built.len() as u32,
    );
}

/// After Discard nothing is pending.
pub proof fn law_discard_leaves_nothing_pending(rows: Seq<RowModel>)
    ensures
        pending_count(rows.map_values(|r: RowModel| with_desired(r, r.unlocked))) == 0,
    decreases rows.len(),
{
    if rows.len() > 0 {
        let f = |r: RowModel| with_desired(r, r.unlocked);
        law_discard_leaves_nothing_pending(rows.drop_last());
        assert(rows.map_values(f).drop_last() == rows.drop_last().map_values(f));
    }
}

/// The game a reply is about.
pub open spec fn msg_app_id(msg: Msg) -> u32 {
    match msg {
        Msg::Loaded { app_id, .. } => app_id,
        Msg::LoadFailed { app_id, .. } => app_id,
        Msg::Applied { app_id, .. } => app_id,
        Msg::ApplyFailed { app_id, .. } => app_id,
    }
}

/// The description a row shows: Steam's, or for a secret achievement not yet
/// earned and without one, a note that it is hidden.
pub open spec fn shown_description(a: AchievementInfo) -> Seq<char> {
    if trim(a.description@).len() == 0 {
        if a.hidden && !a.unlocked {
            "Hidden until unlocked"@
        } else {
            Seq::<char>::empty()
        }
    } else {
        a.description@
    }
}

/// A loaded row shows Steam's description whenever it is not blank once
/// trimmed. Only a blank one is replaced: by the note that the achievement
/// is hidden for a secret one not yet earned, else by nothing.
pub proof fn law_description_kept_unless_blank(
    achievements: Seq<AchievementInfo>,
    refused: Seq<Seq<char>>,
    i: int,
)
    requires
        0 <= i < achievements.len(),
    ensures
        trim(achievements[i].description@).len() > 0 ==> built_rows(achievements, refused)[i].description
            == achievements[i].description@,
        trim(achievements[i].description@).len() == 0 ==> built_rows(
            achievements,
            refused,
        )[i].description == (if achievements[i].hidden && !achievements[i].unlocked {
            "Hidden until unlocked"@
        } else {
            Seq::<char>::empty()
        }),
{
}

/// The row for an achievement: nothing pending, and marked when its API name
/// is among the names Steam refused.
pub open spec fn row_from(a: AchievementInfo, refused: Seq<Seq<char>>) -> RowModel {
    RowModel {
        api_name: a.api_name@,
        title: a.display_name@,
        description: shown_description(a),
        unlocked: a.unlocked,
        desired: a.unlocked,
        percentage_bits: a.percentage_bits,
        refused: refused.contains(a.api_name@),
    }
}

/// The rows for a list of achievements, in the list's order.
pub open spec fn built_rows(achievements: Seq<AchievementInfo>, refused: Seq<Seq<char>>) -> Seq<
    RowModel,
> {
    achievements.map_values(|a: AchievementInfo| row_from(a, refused))
}

/// `post` is `pre` after taking in `achievements` for `app_id`.
pub open spec fn adopted(
    pre: Session,
    post: Session,
    app_id: u32,
    achievements: Seq<AchievementInfo>,
) -> bool {
    let built = built_rows(achievements, pre.refused.deep_view());
    &&& sorted_rows(built, rows_view(post.rows@), pre.config.sort_column, pre.config.sort_order)
    &&& !post.busy
    &&& post.link == Link::Connected
    &&& post.error is None
    &&& post.config.counts@ == remembered(
        pre.config.counts@,
        app_id,
        unlocked_count(built) as u32,
        built.len() as u32,
    )
    &&& post.config.last_app_id == Some(app_id)
    &&& post.config.sort_column == pre.config.sort_column
    &&& post.config.sort_order == pre.config.sort_order
    &&& post.config.removed == pre.config.removed
    &&& post.dirty
    &&& post.games == pre.games
    &&& post.query == pre.query
    &&& post.manual_id == pre.manual_id
    &&& post.open == pre.open
    &&& post.filter == pre.filter
    &&& post.notice == pre.notice
    &&& post.refused == pre.refused
    &&& post.show_removed == pre.show_removed
}

/// Whether `name` is among `names`.
fn contains_name(names: &Vec<String>, name: &String) -> (b: bool)
    ensures
        b == names.deep_view().contains(name@),
{
    let ghost nv = names.deep_view();
    for i in 0..names.len()
        invariant
            nv == names.deep_view(),
            forall|j: int| 0 <= j < i ==> #[trigger] nv[j] != name@,
    {
        assert(nv[i as int] == names@[i as int]@);
        if names[i] == *name {
            assert(nv[i as int] == name@);
            return true;
        }
    }
    false
}

/// The notice after writes: how many went through and how many Steam refused.
pub open spec fn applied_text(written: nat, refused: nat) -> Seq<char> {
    if written == 0 && refused == 0 {
        "Nothing to write"@
    } else if refused == 0 {
        "Wrote "@ + decimal(written) + " change"@ + plural_of(written)
    } else if written == 0 {
        "Steam refused "@ + decimal(refused) + " change"@ + plural_of(refused)
    } else {
        "Wrote "@ + decimal(written) + " change"@ + plural_of(written) + ", Steam refused "@
            + decimal(refused)
    }
}

/// The notice after writes.
pub fn applied_notice(written: usize, refused: usize) -> (s: String)
    ensures
        s@ == applied_text(written as nat, refused as nat),
{
    let mut s = String::new();
    if written == 0 && refused == 0 {
        s.append("Nothing to write");
    } else if refused == 0 {
        s.append("Wrote ");
        push_decimal(&mut s, written as u64);
        s.append(" change");
        s.append(plural(written));
    } else if written == 0 {
        s.append("Steam refused ");
        push_decimal(&mut s, refused as u64);
        s.append(" change");
        s.append(plural(refused));
    } else {
        s.append("Wrote ");
        push_decimal(&mut s, written as u64);
        s.append(" change");
        s.append(plural(written));
        s.append(", Steam refused ");
        push_decimal(&mut s, refused as u64);
    }
    s
}

/// The score of a game against the folded needle: its lower-case name, or
/// its App ID when the name does not match. A text too long to score matches
/// nothing.
pub open spec fn game_score(g: Game, needle: Seq<char>) -> Option<int> {
    let name = lowercase(g.name@);
    let id = decimal(g.app_id as nat);
    let by_name = if scorable(name) {
        fuzzy(name, needle)
    } else {
        None
    };
    match by_name {
        Some(x) => Some(x),
        None => if scorable(id) {
            fuzzy(id, needle)
        } else {
            None
        },
    }
}

/// The matching games that are not hidden, as (score, position) pairs, in
/// list order.
pub open spec fn scored(games: Seq<Game>, needle: Seq<char>, hidden: Seq<u32>) -> Seq<(int, usize)>
    decreases games.len(),
{
    if games.len() == 0 {
        seq![]
    } else {
        scored(games.drop_last(), needle, hidden) + if hidden.contains(games.last().app_id) {
            Seq::<(int, usize)>::empty()
        } else {
            match game_score(games.last(), needle) {
                Some(x) => seq![(x, (games.len() - 1) as usize)],
                None => Seq::<(int, usize)>::empty(),
            }
        }
    }
}

/// The positions of the games that are not hidden, in list order.
pub open spec fn listed(games: Seq<Game>, hidden: Seq<u32>) -> Seq<usize>
    decreases games.len(),
{
    if games.len() == 0 {
        seq![]
    } else {
        listed(games.drop_last(), hidden) + if hidden.contains(games.last().app_id) {
            Seq::<usize>::empty()
        } else {
            seq![(games.len() - 1) as usize]
        }
    }
}

/// The App IDs the sidebar leaves out: the removed games, unless the chip
/// that shows them is on.
pub open spec fn hidden_ids(s: Session) -> Seq<u32> {
    if s.show_removed {
        Seq::<u32>::empty()
    } else {
        s.config.removed@
    }
}

/// The sort key of a score: higher scores come first.
pub open spec fn score_key(x: int) -> Seq<u64> {
    seq![(i64::MAX - x) as u64]
}

/// Scores one game against a folded needle.
fn score_game(g: &Game, needle: &str) -> (r: Option<i64>)
    requires
        scorable(needle@),
    ensures
        game_score(*g, needle@) == (match r {
            Some(v) => Some(v as int),
            None => None::<int>,
        }),
{
    let name = to_lowercase(g.name.as_str());
    let by_name = if is_scorable(name.as_str()) {
        fuzzy_score(name.as_str(), needle)
    } else {
        None
    };
    match by_name {
        Some(v) => Some(v),
        None => {
            let mut id = String::new();
            push_decimal(&mut id, g.app_id as u64);
            if is_scorable(id.as_str()) {
                fuzzy_score(id.as_str(), needle)
            } else {
                None
            }
        },
    }
}

/// The sidebar line of a game; see [`Session::game_subtitle`].
pub open spec fn subtitle_text(s: Session, app_id: u32, selected: bool) -> Seq<char> {
    if selected && s.rows@.len() > 0 {
        decimal(unlocked_count(rows_view(s.rows@))) + " / "@ + decimal(s.rows@.len()) + " unlocked"@
    } else if selected && s.busy {
        "Reading\u{2026}"@
    } else {
        match lookup_counts(s.config.counts@, app_id) {
            Some(c) => decimal(c.unlocked as nat) + " / "@ + decimal(c.total as nat) + " last seen"@,
            None => "Not opened yet"@,
        }
    }
}

/// The position of the first game with the App ID at or after `i`.
pub open spec fn game_index_from(games: Seq<Game>, app_id: u32, i: int) -> Option<int>
    decreases games.len() - i,
{
    if i < 0 || i >= games.len() {
        None
    } else if games[i].app_id == app_id {
        Some(i)
    } else {
        game_index_from(games, app_id, i + 1)
    }
}

/// The position of the first game with the App ID.
fn first_game_index(games: &Vec<Game>, app_id: u32) -> (r: Option<usize>)
    ensures
        r matches Some(k) ==> k < games@.len() && game_index_from(games@, app_id, 0) == Some(
            k as int,
        ),
        r is None ==> game_index_from(games@, app_id, 0) is None,
{
    let mut i: usize = 0;
    while i < games.len()
        invariant
            i <= games@.len(),
            game_index_from(games@, app_id, 0) == game_index_from(games@, app_id, i as int),
        decreases games@.len() - i,
    {
        if games[i].app_id == app_id {
            return Some(i);
        }
        i = i + 1;
    }
    None
}

/// The title over the list; see [`Session::header_title`].
pub open spec fn title_text(s: Session) -> Seq<char> {
    match s.open {
        Some(id) => match game_index_from(s.games@, id, 0) {
            Some(k) => s.games@[k].name@,
            None => "Sam"@,
        },
        None => "Sam"@,
    }
}

/// The line under the title; see [`Session::header_subtitle`].
pub open spec fn header_subtitle_text(s: Session) -> Seq<char> {
    match s.open {
        Some(id) => if s.rows@.len() > 0 {
            "App ID "@ + decimal(id as nat) + " \u{b7} "@ + decimal(
                unlocked_count(rows_view(s.rows@)),
            ) + " of "@ + decimal(s.rows@.len()) + " achievements unlocked"@
        } else if s.busy {
            "App ID "@ + decimal(id as nat) + " \u{b7} reading\u{2026}"@
        } else {
            "App ID "@ + decimal(id as nat)
        },
        None => "No game open"@,
    }
}

/// The message in place of the list and its hint.
pub open spec fn empty_texts(s: Session) -> (Seq<char>, Seq<char>) {
    if s.open is None {
        ("Pick a game"@, "Choose one from the library on the left, or type an App ID."@)
    } else if s.busy {
        ("Reading achievements"@, "Steam is answering. This takes a moment the first time."@)
    } else if s.error is Some {
        ("Nothing to show"@, "Fix the problem above, then press Refresh."@)
    } else {
        ("No achievements"@, "This game does not have any."@)
    }
}

/// The Apply button's text.
pub open spec fn apply_text(pending: nat) -> Seq<char> {
    if pending > 0 {
        "Apply "@ + decimal(pending) + " change"@ + plural_of(pending)
    } else {
        "Apply changes"@
    }
}

/// `Apply <n> change(s)`, or `Apply changes` when nothing is pending.
pub fn apply_label(pending: usize) -> (s: String)
    ensures
        s@ == apply_text(pending as nat),
{
    let mut s = String::new();
    if pending > 0 {
        s.append("Apply ");
        push_decimal(&mut s, pending as u64);
        s.append(" change");
        s.append(plural(pending));
    } else {
        s.append("Apply changes");
    }
    s
}

/// `<n> pending`, shown beside Discard.
pub fn pending_label(pending: usize) -> (s: String)
    ensures
        s@ == decimal(pending as nat) + " pending"@,
{
    let mut s = String::new();
    push_decimal(&mut s, pending as u64);
    s.append(" pending");
    s
}

/// `<n> game(s)`, the count over the sidebar list.
pub fn games_label(count: usize) -> (s: String)
    ensures
        s@ == decimal(count as nat) + " game"@ + plural_of(count as nat),
{
    let mut s = String::new();
    push_decimal(&mut s, count as u64);
    s.append(" game");
    s.append(plural(count));
    s
}

/// `Sort: <column>`, the text of the sort chip.
pub fn sort_chip_label(column: SortColumn) -> (s: String)
    ensures
        s@ == "Sort: "@ + column_label(column),
{
    let mut s = String::new();
    s.append("Sort: ");
    s.append(column.label());
    s
}

/// `Asc` or `Desc`, the text of the direction chip.
pub fn order_chip_label(order: SortOrder) -> (s: &'static str)
    ensures
        s@ == (match order {
            SortOrder::Ascending => "Asc"@,
            SortOrder::Descending => "Desc"@,
        }),
{
    match order {
        SortOrder::Ascending => "Asc",
        SortOrder::Descending => "Desc",
    }
}


/// The chip above the sidebar that shows the removed games: "3 removed".
pub fn removed_label(count: usize) -> (s: String)
    ensures
        s@ == decimal(count as nat) + " removed"@,
{
    let mut s = String::new();
    push_decimal(&mut s, count as u64);
    s.append(" removed");
    s
}

} // verus!
