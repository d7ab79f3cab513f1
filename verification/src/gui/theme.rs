//! Rarity bands and the tint of a game's tile.

use vstd::prelude::*;

use crate::steam::{is_nan_bits, key_of, key_of_bits};

verus! {

/// The conventional five rarity bands.
#[derive(Clone, Copy, PartialEq, Eq, Debug, Structural)]
pub enum Tier {
    Legendary,
    Epic,
    Rare,
    Uncommon,
    Common,
}

/// The sort keys (see [`key_of`]) of 1.0, 10.0, 25.0 and 50.0.
pub open spec fn key_one_percent() -> u32 {
    0xBF80_0000
}

pub open spec fn key_ten_percent() -> u32 {
    0xC120_0000
}

pub open spec fn key_quarter() -> u32 {
    0xC1C8_0000
}

pub open spec fn key_half() -> u32 {
    0xC248_0000
}

/// The band of an achievement held by the share of players whose `f32` has
/// the bit pattern `bits`: 1% or below is Legendary, 10% or below Epic, 25%
/// or below Rare, 50% or below Uncommon, above that Common. A NaN is below
/// no bound, so it is Common.
pub open spec fn tier_of(bits: u32) -> Tier {
    if is_nan_bits(bits) {
        Tier::Common
    } else if key_of(bits) <= key_one_percent() {
        Tier::Legendary
    } else if key_of(bits) <= key_ten_percent() {
        Tier::Epic
    } else if key_of(bits) <= key_quarter() {
        Tier::Rare
    } else if key_of(bits) <= key_half() {
        Tier::Uncommon
    } else {
        Tier::Common
    }
}

/// The rarity band of an achievement, from the bit pattern of its
/// percentage.
pub fn tier(percentage_bits: u32) -> (t: Tier)
    ensures
        t == tier_of(percentage_bits),
        is_nan_bits(percentage_bits) ==> t == Tier::Common,
{
    if percentage_bits & 0x7F80_0000 == 0x7F80_0000 && percentage_bits & 0x007F_FFFF != 0 {
        return Tier::Common;
    }
    let key = key_of_bits(percentage_bits);
    if key <= 0xBF80_0000 {
        Tier::Legendary
    } else if key <= 0xC120_0000 {
        Tier::Epic
    } else if key <= 0xC1C8_0000 {
        Tier::Rare
    } else if key <= 0xC248_0000 {
        Tier::Uncommon
    } else {
        Tier::Common
    }
}

/// The name of a band.
pub open spec fn tier_name(t: Tier) -> Seq<char> {
    match t {
        Tier::Legendary => "Legendary"@,
        Tier::Epic => "Epic"@,
        Tier::Rare => "Rare"@,
        Tier::Uncommon => "Uncommon"@,
        Tier::Common => "Common"@,
    }
}

impl Tier {
    /// The name of the band, shown in a row's tooltip.
    pub fn label(self) -> (s: &'static str)
        ensures
            s@ == tier_name(self),
    {
        match self {
            Tier::Legendary => "Legendary",
            Tier::Epic => "Epic",
            Tier::Rare => "Rare",
            Tier::Uncommon => "Uncommon",
            Tier::Common => "Common",
        }
    }
}

/// The bands are ordered: an achievement at least as rare as another is in
/// a band at least as rare.
pub open spec fn tier_rank(t: Tier) -> int {
    match t {
        Tier::Legendary => 0,
        Tier::Epic => 1,
        Tier::Rare => 2,
        Tier::Uncommon => 3,
        Tier::Common => 4,
    }
}

/// A rarer achievement is never in a commoner band: of two shares that are
/// not NaN, the one with the smaller key is in a band at least as rare.
pub proof fn law_tier_monotone(a: u32, b: u32)
    requires
        !is_nan_bits(a),
        !is_nan_bits(b),
        key_of(a) <= key_of(b),
    ensures
        tier_rank(tier_of(a)) <= tier_rank(tier_of(b)),
{
}

/// The number of colours a game's tile can take.
pub open spec fn tint_count() -> nat {
    6
}

/// Which of the six tile colours a game gets; the same game always gets the
/// same colour.
pub fn tint_slot(app_id: u32) -> (i: usize)
    ensures
        i == app_id as nat % tint_count(),
{
    (app_id % 6) as usize
}

} // verus!
