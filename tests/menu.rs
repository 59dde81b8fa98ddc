use mensa::{
    normalize_text, trim_str, GroupSource, MealGroup, MealPrice, MealSource, MealTag, MenuError,
    MensaMenu, MenuSelectors,
};

fn day() -> chrono::NaiveDate {
    chrono::NaiveDate::from_ymd_opt(2024, 5, 6).unwrap()
}

fn extract(html: &str) -> Result<MensaMenu, MenuError> {
    let sels = MenuSelectors::new().expect("selectors compile");
    MensaMenu::extract(html, day(), &sels)
}

fn meal_markup(name: &str, tags: &[&str], price: &str) -> String {
    let mut s = format!("<div class=\"splMeal\"><span class=\"bold\">{name}</span>");
    for t in tags {
        s.push_str(&format!("<span role=\"tooltip\">{t}</span>"));
    }
    s.push_str(&format!("<div class=\"text-right\">{price}</div></div>"));
    s
}

fn group_markup(label: &str, meals: &[String]) -> String {
    format!(
        "<div class=\"splGroupWrapper\"><div class=\"splGroup\">{label}</div>{}</div>",
        meals.concat()
    )
}

fn page(groups: &[String]) -> String {
    format!("<html><body>{}</body></html>", groups.concat())
}

fn pieces(v: &[&str]) -> Vec<String> {
    v.iter().map(|s| s.to_string()).collect()
}

#[test]
fn trim_str_strips_unicode_whitespace() {
    assert_eq!(trim_str(" \t\u{A0}Suppe\u{3000}\n"), "Suppe");
    assert_eq!(trim_str("   "), "");
    assert_eq!(trim_str("a b"), "a b");
}

#[test]
fn normalize_text_trims_and_joins() {
    assert_eq!(normalize_text(&pieces(&["  Linsen ", "\n suppe  "])), "Linsen suppe");
    assert_eq!(normalize_text(&pieces(&[" ", "Brot", "  "])), "Brot");
    assert_eq!(normalize_text(&pieces(&[])), "");
}

#[test]
fn one_meal_with_one_known_tag() {
    let html = page(&[group_markup(
        "Suppen",
        &[meal_markup("Linsensuppe", &["vegan", "unbekannt"], "Preis 1,25/2,40/3,10")],
    )]);
    let menu = extract(&html).unwrap();
    assert_eq!(menu.date, day());
    assert_eq!(menu.groups.len(), 1);
    let group = &menu.groups[0];
    assert_eq!(group.name, "Suppen");
    assert_eq!(group.meals.len(), 1);
    let meal = &group.meals[0];
    assert_eq!(meal.name, "Linsensuppe");
    assert_eq!(meal.price, MealPrice { student: 125, medium: 240, expensive: 310 });
    assert_eq!(meal.tags, vec![MealTag::Vegan]);
}

#[test]
fn missing_label_fails_whole_page() {
    let good = group_markup("Suppen", &[meal_markup("Linsensuppe", &[], "Preis 1/2/3")]);
    let bad = format!(
        "<div class=\"splGroupWrapper\">{}</div>",
        meal_markup("Brot", &[], "Preis 1/2/3")
    );
    let r = extract(&page(&[good, bad]));
    assert!(matches!(r, Err(MenuError::CategoryNameNotFound)));
}

#[test]
fn missing_price_fails_whole_page() {
    let meal = "<div class=\"splMeal\"><span class=\"bold\">Brot</span>\
                <span role=\"tooltip\">vegan</span></div>"
        .to_string();
    let good = group_markup("Suppen", &[meal_markup("Linsensuppe", &[], "Preis 1/2/3")]);
    let r = extract(&page(&[good, group_markup("Beilagen", &[meal])]));
    assert!(matches!(r, Err(MenuError::MealPriceNotFound)));
}

#[test]
fn malformed_price_fails_whole_page() {
    let html = page(&[group_markup("Suppen", &[meal_markup("Linsensuppe", &[], "Preis 1,50")])]);
    assert!(matches!(extract(&html), Err(MenuError::MealPriceNotFound)));
}

#[test]
fn missing_name_fails_whole_page() {
    let meal = "<div class=\"splMeal\"><div class=\"text-right\">Preis 1/2/3</div></div>";
    let html = page(&[group_markup("Suppen", &[meal.to_string()])]);
    assert!(matches!(extract(&html), Err(MenuError::MealNameNotFound)));
}

#[test]
fn first_error_in_page_order_wins() {
    let no_name = "<div class=\"splMeal\"><div class=\"text-right\">x 1/2/3</div></div>";
    let first = group_markup("Suppen", &[no_name.to_string()]);
    let second = "<div class=\"splGroupWrapper\"></div>".to_string();
    assert!(matches!(extract(&page(&[first, second])), Err(MenuError::MealNameNotFound)));
}

#[test]
fn page_order_is_kept() {
    let html = page(&[
        group_markup(
            "Vorspeisen",
            &[
                meal_markup("Salat", &["vegan"], "x 1/2/3"),
                meal_markup("Suppe", &["bio"], "x 4/5/6"),
            ],
        ),
        group_markup("Desserts", &[meal_markup("Pudding", &[], "x 7/8/9")]),
    ]);
    let menu = extract(&html).unwrap();
    let names: Vec<(&str, Vec<&str>)> = menu
        .groups
        .iter()
        .map(|g| (g.name.as_str(), g.meals.iter().map(|m| m.name.as_str()).collect()))
        .collect();
    assert_eq!(names, vec![("Vorspeisen", vec!["Salat", "Suppe"]), ("Desserts", vec!["Pudding"])]);
    assert_eq!(menu.groups[0].meals[1].price.student, 400);
    assert_eq!(menu.groups[1].meals[0].price.expensive, 900);
}

#[test]
fn extraction_is_repeatable() {
    let html = page(&[group_markup(
        "Suppen",
        &[meal_markup("Linsen <i>suppe</i>", &["gruen", "vegan", "gruen"], "x 1,10/2/3")],
    )]);
    let a = extract(&html).unwrap();
    let b = extract(&html).unwrap();
    assert_eq!(format!("{a:?}"), format!("{b:?}"));
}

#[test]
fn name_text_is_normalized_and_label_keeps_markup() {
    let html = page(&[group_markup(
        "<b>Haupt</b>gerichte",
        &[meal_markup("  Linsen <i> suppe</i>\n ", &[" vegan "], "  Preis  <b>1,10/2/3</b>")],
    )]);
    let menu = extract(&html).unwrap();
    assert_eq!(menu.groups[0].name, "<b>Haupt</b>gerichte");
    assert_eq!(menu.groups[0].meals[0].name, "Linsen suppe");
    assert_eq!(menu.groups[0].meals[0].tags, vec![MealTag::Vegan]);
    assert_eq!(menu.groups[0].meals[0].price.student, 110);
}

#[test]
fn duplicate_tags_collapse() {
    let html = page(&[group_markup(
        "Suppen",
        &[meal_markup("Suppe", &["gruen", "vegan", "gruen", "vegan"], "x 1/2/3")],
    )]);
    let menu = extract(&html).unwrap();
    let tags = &menu.groups[0].meals[0].tags;
    assert_eq!(tags.len(), 2);
    assert!(tags.contains(&MealTag::Vegan));
    assert!(tags.contains(&MealTag::Quality(mensa::Color::Green)));
}

#[test]
fn empty_page_gives_empty_menu() {
    let menu = extract("<html><body><p>geschlossen</p></body></html>").unwrap();
    assert_eq!(menu.date, day());
    assert!(menu.groups.is_empty());
}

#[test]
fn assembly_from_sources() {
    let meal = MealSource {
        name: Some(pieces(&[" Reis "])),
        tag_codes: pieces(&["msc", "klima", "x"]),
        price: Some(pieces(&["Preis", "0,90/1,20/1,50"])),
    };
    let groups = vec![GroupSource { label: Some("Beilagen".to_string()), meals: vec![meal.clone()] }];
    let menu = MensaMenu::from_sources(day(), &groups).unwrap();
    let m = &menu.groups[0].meals[0];
    assert_eq!(m.name, "Reis");
    assert_eq!(m.price, MealPrice { student: 90, medium: 120, expensive: 150 });
    assert_eq!(m.tags, vec![MealTag::SustainableFishing, MealTag::ClimateFood]);

    let unlabelled = vec![GroupSource { label: None, meals: vec![meal] }];
    assert!(matches!(
        MensaMenu::from_sources(day(), &unlabelled),
        Err(MenuError::CategoryNameNotFound)
    ));
}

#[test]
fn group_from_source_reports_missing_name() {
    let src = GroupSource {
        label: Some("Suppen".to_string()),
        meals: vec![MealSource { name: None, tag_codes: vec![], price: Some(pieces(&["x 1/2/3"])) }],
    };
    assert!(matches!(MealGroup::from_source(&src), Err(MenuError::MealNameNotFound)));
}
