use mensa::{Color, MealTag};

#[test]
fn classify_every_known_code() {
    let table = [
        ("gruen", MealTag::Quality(Color::Green)),
        ("gelb", MealTag::Quality(Color::Orange)),
        ("rot", MealTag::Quality(Color::Red)),
        ("vegetarisch", MealTag::Vegetarian),
        ("vegan", MealTag::Vegan),
        ("bio", MealTag::SustainableFarming),
        ("klima", MealTag::ClimateFood),
        ("msc", MealTag::SustainableFishing),
        ("CO2_bewertung_A", MealTag::Co2(Color::Green)),
        ("CO2_bewertung_B", MealTag::Co2(Color::Orange)),
        ("CO2_bewertung_C", MealTag::Co2(Color::Red)),
        ("H2O_bewertung_A", MealTag::WaterUsage(Color::Green)),
        ("H2O_bewertung_B", MealTag::WaterUsage(Color::Orange)),
        ("H2O_bewertung_C", MealTag::WaterUsage(Color::Red)),
    ];
    for (code, tag) in table {
        assert_eq!(MealTag::from_name(code), Some(tag), "code {code}");
    }
}

#[test]
fn classify_trims_surrounding_whitespace() {
    assert_eq!(MealTag::from_name("  vegan\n"), Some(MealTag::Vegan));
    assert_eq!(MealTag::from_name("\tCO2_bewertung_B "), Some(MealTag::Co2(Color::Orange)));
}

#[test]
fn classify_rejects_other_codes() {
    assert_eq!(MealTag::from_name(""), None);
    assert_eq!(MealTag::from_name("   "), None);
    assert_eq!(MealTag::from_name("Vegan"), None);
    assert_eq!(MealTag::from_name("GRUEN"), None);
    assert_eq!(MealTag::from_name("co2_bewertung_a"), None);
    assert_eq!(MealTag::from_name("ve gan"), None);
    assert_eq!(MealTag::from_name("fairtrade"), None);
    assert_eq!(MealTag::from_name("<b>vegan</b>"), None);
}
