//! Meal tags and the fixed table that maps a marker's code to a tag.

use vstd::prelude::*;
use crate::text::{str_eq, trim, trim_str};

verus! {

/// A traffic-light rating.
#[derive(Clone, Copy, Debug, Hash, PartialEq, Eq, Structural)]
pub enum Color {
    Green,
    Orange,
    Red,
}

/// A dietary, sourcing or sustainability attribute of a meal.
#[derive(Clone, Copy, Debug, Hash, PartialEq, Eq, Structural)]
pub enum MealTag {
    Vegetarian,
    Vegan,
    Fairtrade,
    ClimateFood,
    SustainableFarming,
    SustainableFishing,
    Frozen,
    Co2(Color),
    WaterUsage(Color),
    Quality(Color),
}

/// The tag that a marker code stands for: the code is trimmed, then matched
/// exactly (case-sensitively) against the table; any other code has no tag.
pub open spec fn tag_of(code: Seq<char>) -> Option<MealTag> {
    let c = trim(code);
    if c == "gruen"@ {
        Some(MealTag::Quality(Color::Green))
    } else if c == "gelb"@ {
        Some(MealTag::Quality(Color::Orange))
    } else if c == "rot"@ {
        Some(MealTag::Quality(Color::Red))
    } else if c == "vegetarisch"@ {
        Some(MealTag::Vegetarian)
    } else if c == "vegan"@ {
        Some(MealTag::Vegan)
    } else if c == "bio"@ {
        Some(MealTag::SustainableFarming)
    } else if c == "klima"@ {
        Some(MealTag::ClimateFood)
    } else if c == "msc"@ {
        Some(MealTag::SustainableFishing)
    } else if c == "CO2_bewertung_A"@ {
        Some(MealTag::Co2(Color::Green))
    } else if c == "CO2_bewertung_B"@ {
        Some(MealTag::Co2(Color::Orange))
    } else if c == "CO2_bewertung_C"@ {
        Some(MealTag::Co2(Color::Red))
    } else if c == "H2O_bewertung_A"@ {
        Some(MealTag::WaterUsage(Color::Green))
    } else if c == "H2O_bewertung_B"@ {
        Some(MealTag::WaterUsage(Color::Orange))
    } else if c == "H2O_bewertung_C"@ {
        Some(MealTag::WaterUsage(Color::Red))
    } else {
        None
    }
}

impl MealTag {
    /// Classifies a marker code; unknown codes give `None`.
    pub fn from_name(v: &str) -> (r: Option<MealTag>)
        ensures
            r == tag_of(v@),
    {
        let t = trim_str(v);
        let c = t.as_str();
        if str_eq(c, "gruen") {
            Some(MealTag::Quality(Color::Green))
        } else if str_eq(c, "gelb") {
            Some(MealTag::Quality(Color::Orange))
        } else if str_eq(c, "rot") {
            Some(MealTag::Quality(Color::Red))
        } else if str_eq(c, "vegetarisch") {
            Some(MealTag::Vegetarian)
        } else if str_eq(c, "vegan") {
            Some(MealTag::Vegan)
        } else if str_eq(c, "bio") {
            Some(MealTag::SustainableFarming)
        } else if str_eq(c, "klima") {
            Some(MealTag::ClimateFood)
        } else if str_eq(c, "msc") {
            Some(MealTag::SustainableFishing)
        } else if str_eq(c, "CO2_bewertung_A") {
            Some(MealTag::Co2(Color::Green))
        } else if str_eq(c, "CO2_bewertung_B") {
            Some(MealTag::Co2(Color::Orange))
        } else if str_eq(c, "CO2_bewertung_C") {
            Some(MealTag::Co2(Color::Red))
        } else if str_eq(c, "H2O_bewertung_A") {
            Some(MealTag::WaterUsage(Color::Green))
        } else if str_eq(c, "H2O_bewertung_B") {
            Some(MealTag::WaterUsage(Color::Orange))
        } else if str_eq(c, "H2O_bewertung_C") {
            Some(MealTag::WaterUsage(Color::Red))
        } else {
            None
        }
    }
}

} // verus!
