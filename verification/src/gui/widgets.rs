//! What the painted pieces say.

use vstd::prelude::*;

use crate::text::{
    chars_of, is_white_space, push_char, push_chars, to_uppercase, uppercase, white_space,
};

verus! {

/// What a row's right-hand badge says.
#[derive(Clone, Copy, PartialEq, Eq, Debug, Structural)]
pub enum Badge {
    Unlocked,
    Locked,
    PendingUnlock,
    PendingReset,
    Failed,
}

/// The text of a badge.
pub open spec fn badge_text(b: Badge) -> Seq<char> {
    match b {
        Badge::Unlocked => "Unlocked"@,
        Badge::Locked => "Locked"@,
        Badge::PendingUnlock => "Pending unlock"@,
        Badge::PendingReset => "Pending reset"@,
        Badge::Failed => "Steam refused"@,
    }
}

impl Badge {
    /// The text painted on the badge.
    pub fn label(self) -> (s: &'static str)
        ensures
            s@ == badge_text(self),
    {
        match self {
            Badge::Unlocked => "Unlocked",
            Badge::Locked => "Locked",
            Badge::PendingUnlock => "Pending unlock",
            Badge::PendingReset => "Pending reset",
            Badge::Failed => "Steam refused",
        }
    }
}

/// Position `i` starts a word: it is not white space and the character
/// before it, if any, is.
pub open spec fn starts_word(s: Seq<char>, i: int) -> bool {
    &&& 0 <= i < s.len()
    &&& !is_white_space(s[i])
    &&& (i == 0 || is_white_space(s[i - 1]))
}

/// The first character of every word, in order, as `split_whitespace`
/// finds the words.
pub open spec fn word_initials(s: Seq<char>) -> Seq<char>
    decreases s.len(),
{
    if s.len() == 0 {
        seq![]
    } else {
        word_initials(s.drop_last()) + if starts_word(s, s.len() - 1) {
            seq![s.last()]
        } else {
            seq![]
        }
    }
}

/// What stands in for a game's capsule art: the initials of its first two
/// words, in capitals.
pub open spec fn tile_initials(title: Seq<char>) -> Seq<char> {
    let firsts = word_initials(title);
    uppercase(if firsts.len() > 2 {
        firsts.take(2)
    } else {
        firsts
    })
}

/// The two initials painted on a game's tile.
pub fn initials(title: &str) -> (r: String)
    ensures
        r@ == tile_initials(title@),
{
    let chars = chars_of(title);
    let ghost s = chars@;
    let mut firsts: Vec<char> = Vec::new();
    for i in 0..chars.len()
        invariant
            s == chars@,
            firsts@ == (if word_initials(s.take(i as int)).len() > 2 {
                word_initials(s.take(i as int)).take(2)
            } else {
                word_initials(s.take(i as int))
            }),
    {
        let ghost t = s.take(i + 1);
        assert(t.drop_last() == s.take(i as int));
        assert(starts_word(t, i as int) == starts_word(s, i as int));
        let starts = !white_space(chars[i]) && (i == 0 || white_space(chars[i - 1]));
        if starts && firsts.len() < 2 {
            firsts.push(chars[i]);
        }
        assert(word_initials(t).take(2) == word_initials(s.take(i as int)).take(2) || word_initials(
            s.take(i as int),
        ).len() < 2);
    }
    assert(s.take(chars.len() as int) == s);
    let mut joined = String::new();
    push_chars(&mut joined, &firsts);
    to_uppercase(joined.as_str())
}

/// `s` without the spaces and commas at its end.
pub open spec fn without_trailing_separators(s: Seq<char>) -> Seq<char>
    decreases s.len(),
{
    if s.len() > 0 && (s.last() == ' ' || s.last() == ',') {
        without_trailing_separators(s.drop_last())
    } else {
        s
    }
}

/// `text` cut to a budget of characters: unchanged when it fits, else its
/// first `budget - 1` characters, without spaces or commas at the end, and
/// an ellipsis.
pub open spec fn shortened(text: Seq<char>, budget: nat) -> Seq<char> {
    if text.len() <= budget {
        text
    } else {
        let keep = if budget >= 1 {
            (budget - 1) as nat
        } else {
            0
        };
        without_trailing_separators(text.take(keep as int)) + seq!['\u{2026}']
    }
}

/// Cuts a title to the characters that fit, once the painter has worked out
/// how many do; see [`shortened`].
pub fn shorten_to(text: &str, budget: usize) -> (s: String)
    ensures
        s@ == shortened(text@, budget as nat),
{
    let chars = chars_of(text);
    if chars.len() <= budget {
        let mut whole = String::new();
        push_chars(&mut whole, &chars);
        return whole;
    }
    let keep = if budget >= 1 {
        budget - 1
    } else {
        0
    };
    let mut out: Vec<char> = Vec::new();
    for i in 0..keep
        invariant
            keep < chars@.len(),
            out@ == chars@.take(i as int),
    {
        out.push(chars[i]);
        assert(chars@.take(i + 1) == chars@.take(i as int).push(chars@[i as int]));
    }
    let ghost cut = out@;
    while out.len() > 0 && (out[out.len() - 1] == ' ' || out[out.len() - 1] == ',')
        invariant
            without_trailing_separators(out@) == without_trailing_separators(cut),
        decreases out.len(),
    {
        out.pop();
    }
    let mut s = String::new();
    push_chars(&mut s, &out);
    push_char(&mut s, '\u{2026}');
    s
}

} // verus!
