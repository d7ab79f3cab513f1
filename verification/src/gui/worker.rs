//! What goes to the thread that talks to Steam, and what comes back.
//!
//! `Client::init_app` initialises the Steam API against a single App ID for
//! the process and its calls block, so every Steam call is queued onto one
//! worker thread and run in order. The window sends `Cmd`s and reads `Msg`s.
//! The thread itself is part of the program; the replies it builds are made
//! here.

use vstd::prelude::*;

use crate::steam::{AchievementInfo, ProcessResult};

verus! {

/// A request to the Steam thread.
#[derive(Debug)]
pub enum Cmd {
    /// Read every achievement for this game.
    Load { app_id: u32 },
    /// Write the pending changes back to Steam, then re-read.
    Apply { app_id: u32, unlock: Vec<String>, reset: Vec<String> },
    /// Let the thread finish when the window closes.
    Quit,
}

/// A reply from the Steam thread.
#[derive(Debug)]
pub enum Msg {
    Loaded { app_id: u32, achievements: Vec<AchievementInfo> },
    LoadFailed { app_id: u32, error: String },
    /// `failed` holds the API names Steam refused, so the rows can say so.
    Applied { app_id: u32, written: usize, failed: Vec<String> },
    ApplyFailed { app_id: u32, error: String },
}

/// The names of the writes Steam refused, in order.
pub open spec fn refused_in(results: Seq<ProcessResult>) -> Seq<Seq<char>>
    decreases results.len(),
{
    if results.len() == 0 {
        seq![]
    } else {
        refused_in(results.drop_last()) + if results.last().success {
            Seq::<Seq<char>>::empty()
        } else {
            seq![results.last().name@]
        }
    }
}

/// Adds the names of the refused writes in `results` to `failed`.
pub fn note_refused(failed: &mut Vec<String>, results: Vec<ProcessResult>)
    ensures
        final(failed).deep_view() == old(failed).deep_view() + refused_in(results@),
{
    let ghost start = failed.deep_view();
    let ghost rs = results@;
    let mut i: usize = 0;
    let mut results = results;
    let mut taken: Vec<ProcessResult> = Vec::new();
    while i < results.len()
        invariant
            results@ == rs,
            i <= rs.len(),
            failed.deep_view() == start + refused_in(rs.take(i as int)),
        decreases rs.len() - i,
    {
        assert(rs.take(i + 1).drop_last() == rs.take(i as int));
        if !results[i].success {
            let name = results[i].name.clone();
            let ghost before = failed.deep_view();
            failed.push(name);
            assert(failed.deep_view() =~~= before.push(rs[i as int].name@));
        } else {
            assert(start + refused_in(rs.take(i + 1)) == start + refused_in(rs.take(i as int)));
        }
        i = i + 1;
    }
    assert(rs.take(rs.len() as int) == rs);
}

/// The reply after a batch of writes: how many of the `requested` went
/// through, and which were refused.
pub fn applied(app_id: u32, requested: usize, failed: Vec<String>) -> (m: Msg)
    requires
        failed@.len() <= requested,
    ensures
        m == (Msg::Applied { app_id, written: (requested - failed@.len()) as usize, failed }),
{
    let written = requested - failed.len();
    Msg::Applied { app_id, written, failed }
}

/// The message shown when the Steamworks bindings crash while doing `what`.
pub open spec fn crash_text(what: Seq<char>) -> Seq<char> {
    "Steam crashed while "@ + what
        + ". Make sure Steam is running and you are signed in, then try again."@
}

/// `Steam crashed while <what>. Make sure ...`
pub fn crash_message(what: &str) -> (s: String)
    ensures
        s@ == crash_text(what@),
{
    let mut s = String::new();
    s.append("Steam crashed while ");
    s.append(what);
    s.append(". Make sure Steam is running and you are signed in, then try again.");
    s
}

/// The writes of an Apply, in the order they go to Steam: the unlocks, then
/// the resets, each a batch of its own since they are separate Steam calls,
/// and an empty list sends nothing. `true` marks the batch of resets.
pub open spec fn batches(unlock: Seq<String>, reset: Seq<String>) -> Seq<(Seq<String>, bool)> {
    (if unlock.len() > 0 {
        seq![(unlock, false)]
    } else {
        Seq::<(Seq<String>, bool)>::empty()
    }) + (if reset.len() > 0 {
        seq![(reset, true)]
    } else {
        Seq::<(Seq<String>, bool)>::empty()
    })
}

/// The writes of an Apply as batches; see [`batches`].
pub fn write_batches(unlock: Vec<String>, reset: Vec<String>) -> (r: Vec<(Vec<String>, bool)>)
    ensures
        r@.map_values(|b: (Vec<String>, bool)| (b.0@, b.1)) == batches(unlock@, reset@),
{
    let ghost u = unlock@;
    let ghost z = reset@;
    let mut r: Vec<(Vec<String>, bool)> = Vec::new();
    if unlock.len() > 0 {
        r.push((unlock, false));
    }
    if reset.len() > 0 {
        r.push((reset, true));
    }
    assert(r@.map_values(|b: (Vec<String>, bool)| (b.0@, b.1)) =~= batches(u, z));
    r
}

} // verus!
