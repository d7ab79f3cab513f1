//! The games Steam has installed locally.
//!
//! Steam offers no "list my library" call to a game client, so the list is
//! read from Steam's own files:
//!
//!   <steam>/steamapps/libraryfolders.vdf   -> where the library folders are
//!   <library>/steamapps/appmanifest_*.acf  -> one file per installed game
//!
//! Reading the files is the caller's business. This module holds what is done
//! with their text: the `"key"  "value"` lines both formats share, the folder
//! list, the manifest of one game, which entries are not games, and the order
//! of the final list.

use vstd::prelude::*;

use crate::order::{is_index_permutation, sorted_by_rank, stable_order};
use crate::text::{
    ascii_lowercase, ascii_lowercase_chars, chars_end_with, chars_equal, chars_of,
    chars_start_with, decimal, ends_with, find_char, find_from, lemma_find_from_bounds, lowercase,
    parse_u32, parse_u32_chars, push_decimal, starts_with, string_of, subrange_chars, to_lowercase,
    trim, trim_chars,
};

verus! {

/// An installed game: its App ID and the name its manifest gives.
#[derive(Debug)]
pub struct Game {
    pub app_id: u32,
    pub name: String,
}

impl Clone for Game {
    fn clone(&self) -> (r: Self)
        ensures
            r == *self,
    {
        Game { app_id: self.app_id, name: self.name.clone() }
    }
}

impl PartialEq for Game {
    fn eq(&self, other: &Self) -> (r: bool) {
        self.app_id == other.app_id && self.name == other.name
    }
}

impl Eq for Game {

}

impl vstd::std_specs::cmp::PartialEqSpecImpl for Game {
    open spec fn obeys_eq_spec() -> bool {
        true
    }

    open spec fn eq_spec(&self, other: &Self) -> bool {
        self.app_id == other.app_id && self.name@ == other.name@
    }
}

// ------------------------------------------------------------ key / value

/// `"\\"` written twice stands for one backslash in VDF text; what
/// `str::replace("\\\\", "\\")` returns, matching left to right.
pub open spec fn unescape(s: Seq<char>) -> Seq<char>
    decreases s.len(),
{
    if s.len() == 0 {
        s
    } else if s.len() >= 2 && s[0] == '\\' && s[1] == '\\' {
        seq!['\\'] + unescape(s.skip(2))
    } else {
        seq![s[0]] + unescape(s.drop_first())
    }
}

/// The `"key"  "value"` pair of a VDF or ACF line. The line is cut at every
/// `"`: the key is the second piece, the value the fourth (running to the end
/// of the line when no closing quote follows). There is no pair when the
/// line has fewer than three quotes or the key is empty. The key is returned
/// in ASCII lower case and the value with its doubled backslashes undone.
pub open spec fn line_pair(line: Seq<char>) -> Option<(Seq<char>, Seq<char>)> {
    match find_from(line, '"', 0) {
        None => None,
        Some(q0) => match find_from(line, '"', q0 + 1) {
            None => None,
            Some(q1) => match find_from(line, '"', q1 + 1) {
                None => None,
                Some(q2) => {
                    let key = line.subrange(q0 + 1, q1);
                    let end = match find_from(line, '"', q2 + 1) {
                        Some(q3) => q3,
                        None => line.len() as int,
                    };
                    if key.len() == 0 {
                        None
                    } else {
                        Some((ascii_lowercase(key), unescape(line.subrange(q2 + 1, end))))
                    }
                },
            },
        },
    }
}

fn unescape_range(s: &Vec<char>, from: usize, to: usize) -> (r: Vec<char>)
    requires
        from <= to <= s@.len(),
    ensures
        r@ == unescape(s@.subrange(from as int, to as int)),
{
    let mut out: Vec<char> = Vec::new();
    let mut i = from;
    while i < to
        invariant
            from <= i <= to <= s@.len(),
            out@ + unescape(s@.subrange(i as int, to as int)) == unescape(
                s@.subrange(from as int, to as int),
            ),
        decreases to - i,
    {
        let ghost t = s@.subrange(i as int, to as int);
        if i + 1 < to && s[i] == '\\' && s[i + 1] == '\\' {
            assert(t.skip(2) == s@.subrange(i + 2, to as int));
            assert(out@.push('\\') + unescape(t.skip(2)) == out@ + unescape(t));
            out.push('\\');
            i = i + 2;
        } else {
            assert(t.drop_first() == s@.subrange(i + 1, to as int));
            assert(out@.push(s@[i as int]) + unescape(t.drop_first()) == out@ + unescape(t));
            out.push(s[i]);
            i = i + 1;
        }
    }
    assert(out@ + unescape(s@.subrange(to as int, to as int)) == out@);
    out
}

/// The pair of a line, as characters.
fn line_pair_chars(line: &Vec<char>) -> (r: Option<(Vec<char>, Vec<char>)>)
    ensures
        line_pair(line@) == (match r {
            Some((k, v)) => Some((k@, v@)),
            None => None::<(Seq<char>, Seq<char>)>,
        }),
{
    let q0 = match find_char(line, '"', 0) {
        Some(q) => q,
        None => return None,
    };
    let q1 = match find_char(line, '"', q0 + 1) {
        Some(q) => q,
        None => return None,
    };
    let q2 = match find_char(line, '"', q1 + 1) {
        Some(q) => q,
        None => return None,
    };
    let end = match find_char(line, '"', q2 + 1) {
        Some(q) => q,
        None => line.len(),
    };
    if q1 == q0 + 1 {
        return None;
    }
    let key = subrange_chars(line, q0 + 1, q1);
    let value = unescape_range(line, q2 + 1, end);
    Some((ascii_lowercase_chars(&key), value))
}

/// Pulls `"key"  "value"` out of a VDF/ACF line. Both formats use the same shape.
pub fn key_value(line: &str) -> (r: Option<(String, String)>)
    ensures
        line_pair(line@) == (match r {
            Some((k, v)) => Some((k@, v@)),
            None => None::<(Seq<char>, Seq<char>)>,
        }),
{
    let chars = chars_of(line);
    match line_pair_chars(&chars) {
        Some((k, v)) => Some((string_of(&k), string_of(&v))),
        None => None,
    }
}

// ------------------------------------------------------------------ lines

/// A line without the `\r` of a `\r\n` ending.
pub open spec fn strip_cr(l: Seq<char>) -> Seq<char> {
    if l.len() > 0 && l.last() == '\r' {
        l.drop_last()
    } else {
        l
    }
}

/// The lines of `s` from position `start` on, as `str::lines` gives them:
/// cut at each `\n`, a `\r` before it dropped, no empty line after a final
/// `\n`.
pub open spec fn lines_from(s: Seq<char>, start: int) -> Seq<Seq<char>>
    decreases s.len() - start,
{
    if start < 0 || start >= s.len() {
        seq![]
    } else {
        proof {
            lemma_find_from_bounds(s, '\n', start);
        }
        match find_from(s, '\n', start) {
            None => seq![s.subrange(start, s.len() as int)],
            Some(i) => {
                seq![strip_cr(s.subrange(start, i))] + lines_from(s, i + 1)
            },
        }
    }
}

/// The lines of a text, as `str::lines` gives them.
pub open spec fn lines(s: Seq<char>) -> Seq<Seq<char>> {
    lines_from(s, 0)
}

/// Splits a text into its lines.
pub fn split_lines(s: &Vec<char>) -> (r: Vec<Vec<char>>)
    ensures
        r.deep_view() == lines(s@),
{
    let mut out: Vec<Vec<char>> = Vec::new();
    let mut start: usize = 0;
    while start < s.len()
        invariant
            start <= s@.len(),
            out.deep_view() + lines_from(s@, start as int) == lines(s@),
        decreases s@.len() - start,
    {
        proof {
            lemma_find_from_bounds(s@, '\n', start as int);
        }
        match find_char(s, '\n', start) {
            None => {
                let line = subrange_chars(s, start, s.len());
                let ghost before = out.deep_view();
                out.push(line);
                assert(out.deep_view() =~~= before.push(line@));
                assert(lines_from(s@, s@.len() as int) == Seq::<Seq<char>>::empty());
                start = s.len();
            },
            Some(i) => {
                let mut line = subrange_chars(s, start, i);
                if line.len() > 0 && line[line.len() - 1] == '\r' {
                    line.pop();
                }
                let ghost before = out.deep_view();
                out.push(line);
                assert(out.deep_view() =~~= before.push(line@));
                start = i + 1;
            },
        }
    }
    assert(lines_from(s@, start as int) == Seq::<Seq<char>>::empty());
    out
}

// -------------------------------------------------------- library folders

/// The `path` values of the given lines, in order: the library folders that
/// `libraryfolders.vdf` lists.
pub open spec fn path_values(ls: Seq<Seq<char>>) -> Seq<Seq<char>>
    decreases ls.len(),
{
    if ls.len() == 0 {
        seq![]
    } else {
        path_values(ls.drop_last()) + match line_pair(ls.last()) {
            Some((k, v)) => if k == "path"@ {
                seq![v]
            } else {
                seq![]
            },
            None => seq![],
        }
    }
}

/// The library folders named in the text of a `libraryfolders.vdf`, in the
/// order they appear, backslash escapes undone.
pub fn library_paths(text: &str) -> (r: Vec<String>)
    ensures
        r.deep_view() == path_values(lines(text@)),
{
    let chars = chars_of(text);
    let ls = split_lines(&chars);
    let ghost lsv = ls.deep_view();
    let mut out: Vec<String> = Vec::new();
    for i in 0..ls.len()
        invariant
            lsv == ls.deep_view(),
            lsv == lines(text@),
            out.deep_view() == path_values(lsv.take(i as int)),
    {
        assert(lsv.take(i + 1).drop_last() == lsv.take(i as int));
        assert(lsv[i as int] == ls@[i as int]@);
        let ghost before = out.deep_view();
        match line_pair_chars(&ls[i]) {
            Some((k, v)) => {
                if chars_equal(&k, "path") {
                    out.push(string_of(&v));
                    assert(out.deep_view() =~~= before.push(v@));
                } else {
                    assert(before + seq![] == before);
                }
            },
            None => {
                assert(before + seq![] == before);
            },
        }
    }
    assert(lsv.take(ls.len() as int) == lsv);
    out
}

// --------------------------------------------------------------- manifests

/// The name a game gets when its manifest has none: `App <id>`.
pub open spec fn placeholder(app_id: u32) -> Seq<char> {
    "App "@ + decimal(app_id as nat)
}

/// `App <id>`, the name shown for a game whose name is not known.
pub fn placeholder_name(app_id: u32) -> (s: String)
    ensures
        s@ == placeholder(app_id),
{
    let mut s = String::new();
    s.append("App ");
    push_decimal(&mut s, app_id as u64);
    s
}

/// Reads manifest lines from position `i` on, with the App ID and name seen
/// so far: an `appid` line sets the App ID to its trimmed value parsed as a
/// number (or to nothing when that fails), a `name` line sets the name, and
/// reading stops once both are known.
pub open spec fn manifest_scan(
    ls: Seq<Seq<char>>,
    i: int,
    app_id: Option<u32>,
    name: Option<Seq<char>>,
) -> (Option<u32>, Option<Seq<char>>)
    decreases ls.len() - i,
{
    if i < 0 || i >= ls.len() {
        (app_id, name)
    } else {
        let (a, n) = match line_pair(ls[i]) {
            Some((k, v)) => if k == "appid"@ {
                (parse_u32(trim(v)), name)
            } else if k == "name"@ {
                (app_id, Some(v))
            } else {
                (app_id, name)
            },
            None => (app_id, name),
        };
        if a is Some && n is Some {
            (a, n)
        } else {
            manifest_scan(ls, i + 1, a, n)
        }
    }
}

/// The game an `appmanifest_*.acf` text describes: none without an App ID;
/// named `App <id>` when the manifest gives no name.
pub open spec fn manifest_game(text: Seq<char>) -> Option<(u32, Seq<char>)> {
    let (a, n) = manifest_scan(lines(text), 0, None, None);
    match a {
        None => None,
        Some(id) => Some(
            (
                id,
                match n {
                    Some(v) => v,
                    None => placeholder(id),
                },
            ),
        ),
    }
}

/// The game described by the text of an `appmanifest_*.acf` file.
pub fn game_from_manifest(text: &str) -> (r: Option<Game>)
    ensures
        manifest_game(text@) == (match r {
            Some(g) => Some((g.app_id, g.name@)),
            None => None::<(u32, Seq<char>)>,
        }),
{
    let chars = chars_of(text);
    let ls = split_lines(&chars);
    let ghost lsv = ls.deep_view();
    let mut app_id: Option<u32> = None;
    let mut name: Option<Vec<char>> = None;
    let mut done = false;
    let mut i: usize = 0;
    while i < ls.len() && !done
        invariant
            i <= ls@.len(),
            lsv == ls.deep_view(),
            lsv == lines(text@),
            manifest_scan(lsv, 0, None, None) == if done {
                (
                    app_id,
                    match &name {
                        Some(v) => Some(v@),
                        None => None::<Seq<char>>,
                    },
                )
            } else {
                manifest_scan(
                    lsv,
                    i as int,
                    app_id,
                    match &name {
                        Some(v) => Some(v@),
                        None => None::<Seq<char>>,
                    },
                )
            },
        decreases ls@.len() - i,
    {
        assert(lsv[i as int] == ls@[i as int]@);
        match line_pair_chars(&ls[i]) {
            Some((k, v)) => {
                if chars_equal(&k, "appid") {
                    let t = trim_chars(&v);
                    app_id = parse_u32_chars(&t);
                } else if chars_equal(&k, "name") {
                    name = Some(v);
                }
            },
            None => {},
        }
        if app_id.is_some() && name.is_some() {
            done = true;
        }
        i = i + 1;
    }
    match app_id {
        None => None,
        Some(id) => {
            let n = match name {
                Some(v) => string_of(&v),
                None => placeholder_name(id),
            };
            Some(Game { app_id: id, name: n })
        },
    }
}

/// The file name of a game manifest: `appmanifest_` at the start, `.acf` at
/// the end.
pub open spec fn manifest_file_name(name: Seq<char>) -> bool {
    starts_with(name, "appmanifest_"@) && ends_with(name, ".acf"@)
}

/// Whether a file in a `steamapps` folder is a game manifest.
pub fn is_manifest_file(name: &str) -> (b: bool)
    ensures
        b == manifest_file_name(name@),
{
    let chars = chars_of(name);
    chars_start_with(&chars, "appmanifest_") && chars_end_with(&chars, ".acf")
}

// ------------------------------------------------------------ not games

/// Things that show up as "installed" but are not games: the Steamworks
/// Common Redistributables, the Steam Linux Runtimes 1.0, 2.0 (soldier) and
/// 3.0 (sniper), Proton Experimental and Proton Hotfix.
pub open spec fn skipped_id(id: u32) -> bool {
    id == 228980 || id == 1070560 || id == 1391110 || id == 1628350 || id == 1493710 || id
        == 2180100
}

/// Names of entries that are tools rather than games.
pub open spec fn tool_name(name: Seq<char>) -> bool {
    starts_with(name, "Steamworks"@) || starts_with(name, "Steam Linux Runtime"@) || starts_with(
        name,
        "Proton"@,
    )
}

/// An entry that does not belong in the list of games.
pub open spec fn not_a_game(app_id: u32, name: Seq<char>) -> bool {
    skipped_id(app_id) || tool_name(name)
}

/// Whether an installed entry is a redistributable, a runtime or Proton
/// rather than a game.
pub fn is_not_a_game(game: &Game) -> (b: bool)
    ensures
        b == not_a_game(game.app_id, game.name@),
{
    let id = game.app_id;
    if id == 228980 || id == 1070560 || id == 1391110 || id == 1628350 || id == 1493710 || id
        == 2180100 {
        return true;
    }
    let chars = chars_of(game.name.as_str());
    chars_start_with(&chars, "Steamworks") || chars_start_with(&chars, "Steam Linux Runtime")
        || chars_start_with(&chars, "Proton")
}

/// Some game in the list has this App ID.
pub open spec fn has_app_id(games: Seq<Game>, app_id: u32) -> bool {
    exists|i: int| 0 <= i < games.len() && #[trigger] games[i].app_id == app_id
}

/// Whether some game in the list has this App ID.
pub fn contains_app_id(games: &Vec<Game>, app_id: u32) -> (b: bool)
    ensures
        b == has_app_id(games@, app_id),
{
    for i in 0..games.len()
        invariant
            forall|j: int| 0 <= j < i ==> #[trigger] games@[j].app_id != app_id,
    {
        if games[i].app_id == app_id {
            return true;
        }
    }
    false
}

/// The list after a game found on disk is offered to it: unchanged when
/// the entry is not a game or its App ID is already listed, else with the
/// game at the end.
pub open spec fn with_installed(games: Seq<Game>, game: Game) -> Seq<Game> {
    if not_a_game(game.app_id, game.name@) || has_app_id(games, game.app_id) {
        games
    } else {
        games.push(game)
    }
}

/// Adds a game found on disk, unless it is not a game or its App ID is
/// already listed (the first manifest found for an App ID wins).
pub fn add_installed(games: &mut Vec<Game>, game: Game)
    ensures
        final(games)@ == with_installed(old(games)@, game),
{
    if is_not_a_game(&game) {
        return;
    }
    if contains_app_id(games, game.app_id) {
        return;
    }
    games.push(game);
}

/// A list of installed games as the sidebar wants it: no redistributables,
/// runtimes or Proton, and no App ID twice.
pub open spec fn clean_list(games: Seq<Game>) -> bool {
    &&& forall|i: int| 0 <= i < games.len() ==> !not_a_game(#[trigger] games[i].app_id, games[i].name@)
    &&& forall|i: int, j: int|
        #![trigger games[i], games[j]]
        0 <= i < j < games.len() ==> games[i].app_id != games[j].app_id
}

/// Offering games one by one keeps the list clean: what is not a game stays
/// out, and each App ID is listed once.
pub proof fn law_installed_list_stays_clean(games: Seq<Game>, game: Game)
    requires
        clean_list(games),
    ensures
        clean_list(with_installed(games, game)),
{
    let r = with_installed(games, game);
    if r != games {
        assert forall|i: int, j: int|
            #![trigger r[i], r[j]]
            0 <= i < j < r.len() implies r[i].app_id != r[j].app_id by {
            if j == games.len() {
                assert(r[i] == games[i]);
                if r[i].app_id == game.app_id {
                    assert(has_app_id(games, game.app_id));
                }
            } else {
                assert(r[i] == games[i] && r[j] == games[j]);
            }
        }
        assert forall|i: int| 0 <= i < r.len() implies !not_a_game(#[trigger] r[i].app_id, r[i].name@) by {
            if i < games.len() {
                assert(r[i] == games[i]);
            }
        }
    }
}

// ------------------------------------------------------------------ order

/// The sort key of a text: its characters as numbers, so that keys compare
/// as the texts do.
pub open spec fn text_key(s: Seq<char>) -> Seq<u64> {
    s.map_values(|c: char| c as u64)
}

/// The sort key of a text.
pub fn text_key_of(s: &str) -> (k: Vec<u64>)
    ensures
        k@ == text_key(s@),
{
    let chars = chars_of(s);
    let mut k: Vec<u64> = Vec::new();
    for i in 0..chars.len()
        invariant
            chars@ == s@,
            k@ == text_key(s@.take(i as int)),
    {
        k.push(chars[i] as u64);
        assert(text_key(s@.take(i + 1)) == text_key(s@.take(i as int)).push(s@[i as int] as u64));
    }
    assert(s@.take(chars.len() as int) == s@);
    k
}

/// The key a game is listed by: its name in lower case.
pub open spec fn name_key(g: Game) -> Seq<u64> {
    text_key(lowercase(g.name@))
}

/// The games' keys, in list order.
pub open spec fn name_keys(games: Seq<Game>) -> Seq<Seq<u64>> {
    games.map_values(|g: Game| name_key(g))
}

/// Sorts games by name, ignoring case; games whose names fold to the same
/// text keep their order. The result is the same games, each once, listed so
/// that each ranks before the next by lower-case name, then by where it stood.
pub fn sort_by_name(games: Vec<Game>) -> (r: Vec<Game>)
    ensures
        exists|order: Seq<usize>|
            {
                &&& is_index_permutation(order, games@.len())
                &&& sorted_by_rank(name_keys(games@), order)
                &&& r@ == order.map_values(|i: usize| games@[i as int])
            },
{
    let mut keys: Vec<Vec<u64>> = Vec::new();
    for i in 0..games.len()
        invariant
            keys.deep_view() == name_keys(games@).take(i as int),
    {
        let lower = to_lowercase(games[i].name.as_str());
        let k = text_key_of(lower.as_str());
        let ghost before = keys.deep_view();
        keys.push(k);
        assert(keys.deep_view() =~~= before.push(k@));
        assert(name_keys(games@).take(i + 1) == name_keys(games@).take(i as int).push(
            name_key(games@[i as int]),
        ));
    }
    assert(name_keys(games@).take(games@.len() as int) == name_keys(games@));
    let order = stable_order(&keys);
    let mut r: Vec<Game> = Vec::new();
    for j in 0..order.len()
        invariant
            is_index_permutation(order@, games@.len()),
            r@ == order@.take(j as int).map_values(|i: usize| games@[i as int]),
    {
        let g = games[order[j]].clone();
        r.push(g);
        assert(order@.take(j + 1).map_values(|i: usize| games@[i as int]) == order@.take(
            j as int,
        ).map_values(|i: usize| games@[i as int]).push(games@[order@[j as int] as int]));
    }
    assert(order@.take(order@.len() as int) == order@);
    r
}

} // verus!
