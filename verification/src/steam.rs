//! What Steam's answers mean.
//!
//! The calls into the Steamworks API talk to the running Steam client and are
//! made by the program around this library. What it hands back (an
//! achievement's attributes, which writes Steam accepted, whether the stats
//! were stored) is turned into the program's own values here.

use vstd::prelude::*;

use crate::text::{chars_of, chars_equal, decimal, push_decimal, trim, trim_chars};

verus! {

/// One achievement as Steam reports it.
#[derive(Debug)]
pub struct AchievementInfo {
    /// The internal Steam key, e.g. "DefeatMorpha". This is what gets set/cleared.
    pub api_name: String,
    /// The player-facing title, e.g. "Nailed it". Falls back to `api_name`.
    pub display_name: String,
    /// The player-facing description. Empty when Steam withholds or omits it.
    pub description: String,
    /// Steam hides the title and description of these until they are earned.
    pub hidden: bool,
    pub unlocked: bool,
    /// The share of players who have it: the bit pattern of the `f32`
    /// percentage Steam reported (see [`key_of`] for how it sorts).
    pub percentage_bits: u32,
}

/// Every achievement of a game.
#[derive(Debug)]
pub struct AchievementData {
    pub achievements: Vec<AchievementInfo>,
}

/// Whether Steam accepted the write of one achievement.
#[derive(Debug)]
pub struct ProcessResult {
    pub name: String,
    pub success: bool,
}

/// Accepts whatever shape `get_achievement_display_attribute` returns.
///
/// That call has been spelled `&str`, `Option<&str>` and `Result<&str, _>`
/// across steamworks releases. One trait for all of them means the call site
/// reads the same whichever one is in use.
pub trait OptStr: Sized {
    /// The text the value carries, if any.
    spec fn text(&self) -> Option<Seq<char>>;

    fn opt(self) -> (r: Option<String>)
        ensures
            self.text() == (match r {
                Some(s) => Some(s@),
                None => None::<Seq<char>>,
            }),
    ;
}

impl<'a> OptStr for &'a str {
    open spec fn text(&self) -> Option<Seq<char>> {
        Some(self@)
    }

    fn opt(self) -> (r: Option<String>) {
        Some(String::from_str(self))
    }
}

impl OptStr for String {
    open spec fn text(&self) -> Option<Seq<char>> {
        Some(self@)
    }

    fn opt(self) -> (r: Option<String>) {
        Some(self)
    }
}

impl<'a> OptStr for Option<&'a str> {
    open spec fn text(&self) -> Option<Seq<char>> {
        match self {
            Some(s) => Some(s@),
            None => None,
        }
    }

    fn opt(self) -> (r: Option<String>) {
        match self {
            Some(s) => Some(String::from_str(s)),
            None => None,
        }
    }
}

impl OptStr for Option<String> {
    open spec fn text(&self) -> Option<Seq<char>> {
        match self {
            Some(s) => Some(s@),
            None => None,
        }
    }

    fn opt(self) -> (r: Option<String>) {
        self
    }
}

impl<'a, E> OptStr for Result<&'a str, E> {
    open spec fn text(&self) -> Option<Seq<char>> {
        match self {
            Ok(s) => Some(s@),
            Err(_) => None,
        }
    }

    fn opt(self) -> (r: Option<String>) {
        match self {
            Ok(s) => Some(String::from_str(s)),
            Err(_) => None,
        }
    }
}

impl<E> OptStr for Result<String, E> {
    open spec fn text(&self) -> Option<Seq<char>> {
        match self {
            Ok(s) => Some(s@),
            Err(_) => None,
        }
    }

    fn opt(self) -> (r: Option<String>) {
        match self {
            Ok(s) => Some(s),
            Err(_) => None,
        }
    }
}

/// The title shown for an achievement: the `name` attribute unless it is
/// missing or blank, else the API name.
pub open spec fn title_of(api_name: Seq<char>, name_attr: Option<Seq<char>>) -> Seq<char> {
    match name_attr {
        Some(n) => if trim(n).len() > 0 {
            n
        } else {
            api_name
        },
        None => api_name,
    }
}

/// The `hidden` attribute reads `1`, spaces aside.
pub open spec fn hidden_of(hidden_attr: Option<Seq<char>>) -> bool {
    match hidden_attr {
        Some(h) => trim(h) == "1"@,
        None => false,
    }
}

/// Builds an achievement from what Steam returned for it: the unlocked flag
/// (false when the read failed), the bit pattern of the percentage, and the `name`, `desc`
/// and `hidden` display attributes.
pub fn achievement_info(
    api_name: String,
    unlocked: Option<bool>,
    percentage_bits: u32,
    name_attr: Option<String>,
    desc_attr: Option<String>,
    hidden_attr: Option<String>,
) -> (a: AchievementInfo)
    ensures
        a.api_name@ == api_name@,
        a.display_name@ == title_of(
            api_name@,
            match name_attr {
                Some(s) => Some(s@),
                None => None::<Seq<char>>,
            },
        ),
        a.description@ == (match desc_attr {
            Some(s) => s@,
            None => Seq::<char>::empty(),
        }),
        a.hidden == hidden_of(
            match hidden_attr {
                Some(s) => Some(s@),
                None => None::<Seq<char>>,
            },
        ),
        a.unlocked == (match unlocked {
            Some(b) => b,
            None => false,
        }),
        a.percentage_bits == percentage_bits,
{
    let display_name = match name_attr {
        Some(n) => {
            let chars = chars_of(n.as_str());
            let t = trim_chars(&chars);
            if t.len() > 0 {
                n
            } else {
                api_name.clone()
            }
        },
        None => api_name.clone(),
    };
    let description = match desc_attr {
        Some(d) => d,
        None => String::new(),
    };
    let hidden = match hidden_attr {
        Some(h) => {
            let chars = chars_of(h.as_str());
            let t = trim_chars(&chars);
            chars_equal(&t, "1")
        },
        None => false,
    };
    let unlocked = match unlocked {
        Some(b) => b,
        None => false,
    };
    AchievementInfo { api_name, display_name, description, hidden, unlocked, percentage_bits }
}

/// The error when Steam cannot be initialised for an App ID.
pub open spec fn not_in_library_text(app_id: u32) -> Seq<char> {
    "App "@ + decimal(app_id as nat) + " not in your library"@
}

/// `App <id> not in your library`.
pub fn not_in_library(app_id: u32) -> (s: String)
    ensures
        s@ == not_in_library_text(app_id),
{
    let mut s = String::new();
    s.append("App ");
    push_decimal(&mut s, app_id as u64);
    s.append(" not in your library");
    s
}

/// The error when Steam does not give the achievement names of a game.
pub open spec fn names_failed_text(app_id: u32) -> Seq<char> {
    "Failed to get achievement names for app "@ + decimal(app_id as nat)
}

/// `Failed to get achievement names for app <id>`.
pub fn names_failed(app_id: u32) -> (s: String)
    ensures
        s@ == names_failed_text(app_id),
{
    let mut s = String::new();
    s.append("Failed to get achievement names for app ");
    push_decimal(&mut s, app_id as u64);
    s
}

/// The achievement names Steam listed for a game, or the error when it
/// listed none: an achievement count Steam could not give (`count_known`
/// false) or a missing list. An empty list is a valid answer, not an error.
pub fn listed_names(app_id: u32, count_known: bool, names: Option<Vec<String>>) -> (r: Result<
    Vec<String>,
    String,
>)
    ensures
        count_known && names is Some ==> r is Ok && r->Ok_0@ == names->Some_0@,
        !(count_known && names is Some) ==> r is Err && r->Err_0@ == names_failed_text(app_id),
{
    if !count_known {
        return Err(names_failed(app_id));
    }
    match names {
        Some(v) => Ok(v),
        None => Err(names_failed(app_id)),
    }
}

/// The error when Steam accepted the writes but did not store them.
pub open spec fn store_failed_text() -> Seq<char> {
    "Failed to store stats to Steam"@
}

/// What a batch of writes comes to: the per-achievement results when Steam
/// stored the stats, an error when it did not. Refused writes are not an
/// error; their results say so.
pub fn store_outcome(results: Vec<ProcessResult>, stored: bool) -> (r: Result<
    Vec<ProcessResult>,
    String,
>)
    ensures
        stored ==> r is Ok && r->Ok_0@ == results@,
        !stored ==> r is Err && r->Err_0@ == store_failed_text(),
{
    if stored {
        Ok(results)
    } else {
        Err(String::from_str("Failed to store stats to Steam"))
    }
}

/// Whether the `f32` with bit pattern `bits` is a NaN: every exponent bit
/// set and some fraction bit set.
pub open spec fn is_nan_bits(bits: u32) -> bool {
    bits & 0x7F80_0000 == 0x7F80_0000 && bits & 0x007F_FFFF != 0
}

/// Whether the `f32` with bit pattern `bits` is a zero, of either sign.
pub open spec fn is_zero_bits(bits: u32) -> bool {
    bits & 0x7FFF_FFFF == 0
}

/// The sort key of a percentage from the bit pattern of its `f32`. Both
/// zeros get the key of `+0.0`; any other non-negative number gets its bits
/// with the sign bit set, a negative one every bit flipped. For numbers
/// other than NaN, keys then compare as the numbers do; a NaN, which is
/// unordered against every number, gets a key above `+inf` when its sign
/// bit is clear and below `-inf` when it is set.
pub open spec fn key_of(bits: u32) -> u32 {
    if bits == 0x8000_0000 {
        0x8000_0000
    } else if bits & 0x8000_0000 != 0 {
        !bits
    } else {
        bits | 0x8000_0000
    }
}

/// The sort key of the percentage whose `f32` has the bit pattern `bits`.
pub fn key_of_bits(bits: u32) -> (k: u32)
    ensures
        k == key_of(bits),
{
    if bits == 0x8000_0000 {
        0x8000_0000
    } else if bits & 0x8000_0000 != 0 {
        !bits
    } else {
        bits | 0x8000_0000
    }
}

/// Two percentages get the same key exactly when they have the same bits or
/// are both zeros: `-0.0` and `+0.0`, equal as numbers, sort as one.
pub proof fn law_key_same_number(a: u32, b: u32)
    ensures
        key_of(a) == key_of(b) <==> (a == b || (is_zero_bits(a) && is_zero_bits(b))),
{
    let ka = key_of(a);
    let kb = key_of(b);
    assert(ka == kb <==> (a == b || (a & 0x7FFF_FFFF == 0 && b & 0x7FFF_FFFF == 0))) by (bit_vector)
        requires
            ka == (if a == 0x8000_0000 {
                0x8000_0000
            } else if a & 0x8000_0000 != 0 {
                !a
            } else {
                a | 0x8000_0000
            }),
            kb == (if b == 0x8000_0000 {
                0x8000_0000
            } else if b & 0x8000_0000 != 0 {
                !b
            } else {
                b | 0x8000_0000
            }),
    ;
}

/// Among numbers of one sign, keys keep the order of the magnitudes: for
/// non-negative numbers the larger bit pattern is the larger number and gets
/// the larger key, for negative ones the larger bit pattern is the smaller
/// number and gets the smaller key, and every negative number other than
/// `-0.0` keys below every non-negative one.
pub proof fn law_key_order(a: u32, b: u32)
    ensures
        (a < b && b < 0x8000_0000) ==> key_of(a) < key_of(b),
        (0x8000_0000 < a && a < b) ==> key_of(b) < key_of(a),
        (0x8000_0000 < a && b < 0x8000_0000) ==> key_of(a) < key_of(b),
{
    let ka = key_of(a);
    let kb = key_of(b);
    assert({
        &&& (a < b && b < 0x8000_0000) ==> ka < kb
        &&& (0x8000_0000 < a && a < b) ==> kb < ka
        &&& (0x8000_0000 < a && b < 0x8000_0000) ==> ka < kb
    }) by (bit_vector)
        requires
            ka == (if a == 0x8000_0000 {
                0x8000_0000
            } else if a & 0x8000_0000 != 0 {
                !a
            } else {
                a | 0x8000_0000
            }),
            kb == (if b == 0x8000_0000 {
                0x8000_0000
            } else if b & 0x8000_0000 != 0 {
                !b
            } else {
                b | 0x8000_0000
            }),
    ;
}

/// The bit patterns of the numbers above zero, infinity included: the sign
/// bit clear, some other bit set, and no NaN.
pub open spec fn above_zero(bits: u32) -> bool {
    0 < bits && bits <= 0x7F80_0000
}

/// How long to pump Steam's callbacks for the global percentages before
/// reading them anyway, in milliseconds.
pub open spec fn percentage_wait_ms() -> u64 {
    1500
}

/// Whether to keep pumping Steam's callbacks for the global percentages,
/// `elapsed_ms` after the request and with the bit pattern of the first
/// achievement's share read back as `probe_bits`. The wait ends when a real number lands (a share
/// above zero; before it arrives every share reads 0.0%) or after a second
/// and a half. No share read back counts as not yet arrived.
pub fn keep_waiting(elapsed_ms: u64, probe_bits: Option<u32>) -> (b: bool)
    ensures
        b == (elapsed_ms < percentage_wait_ms() && !(probe_bits matches Some(k) && above_zero(k))),
{
    let arrived = match probe_bits {
        Some(k) => 0 < k && k <= 0x7F80_0000,
        None => false,
    };
    elapsed_ms < 1500 && !arrived
}

/// The pause between two pumps of the callbacks, in milliseconds.
pub fn poll_interval_ms() -> (ms: u64)
    ensures
        ms == 40,
{
    40
}

} // verus!
