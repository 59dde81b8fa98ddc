use mensa::MealPrice;

fn price(student: u64, medium: u64, expensive: u64) -> MealPrice {
    MealPrice { student, medium, expensive }
}

#[test]
fn parse_labelled_price() {
    assert_eq!(MealPrice::parse("Preis 2,50/3,80/4,90"), Some(price(250, 380, 490)));
}

#[test]
fn parse_whole_amounts() {
    assert_eq!(MealPrice::parse("x 1/2/3"), Some(price(100, 200, 300)));
}

#[test]
fn parse_rejects_two_amounts() {
    assert_eq!(MealPrice::parse("Preis 2,50/3,80"), None);
}

#[test]
fn parse_rejects_text_without_space() {
    assert_eq!(MealPrice::parse("Preis2,50/3,80/4,90"), None);
    assert_eq!(MealPrice::parse("1/2/3"), None);
}

#[test]
fn parse_rejects_non_numeric_amounts() {
    assert_eq!(MealPrice::parse("x a/b/c"), None);
    assert_eq!(MealPrice::parse("a/b/c"), None);
    assert_eq!(MealPrice::parse("x 1/2/drei"), None);
}

#[test]
fn parse_truncates_to_cents() {
    assert_eq!(MealPrice::parse("Preis 1,999/0,5/3,"), Some(price(199, 50, 300)));
    assert_eq!(MealPrice::parse("Preis ,05/0.10/12.345"), Some(price(5, 10, 1234)));
}

#[test]
fn parse_ignores_surrounding_whitespace() {
    assert_eq!(MealPrice::parse("  € 1,25/2,40/3,10 \n"), Some(price(125, 240, 310)));
}

#[test]
fn parse_keeps_first_three_of_more_amounts() {
    assert_eq!(MealPrice::parse("x 1/2/3/4"), Some(price(100, 200, 300)));
    assert_eq!(MealPrice::parse("x 1/2/3/y"), None);
}

#[test]
fn parse_rejects_malformed_amounts() {
    assert_eq!(MealPrice::parse("x 1//3"), None);
    assert_eq!(MealPrice::parse("x 1/2/3/"), None);
    assert_eq!(MealPrice::parse("x 1,2,3/2/3"), None);
    assert_eq!(MealPrice::parse("x ./2/3"), None);
    assert_eq!(MealPrice::parse("x  1/2/3"), None);
    assert_eq!(MealPrice::parse(""), None);
}

#[test]
fn parse_saturates_huge_amounts() {
    assert_eq!(
        MealPrice::parse("x 999999999999999999999/1/2"),
        Some(price(u64::MAX, 100, 200))
    );
    assert_eq!(
        MealPrice::parse("x 184467440737095516,15/184467440737095516,16/0"),
        Some(price(18446744073709551615, u64::MAX, 0))
    );
    assert_eq!(
        MealPrice::parse("x 184467440737095516,14/1/0"),
        Some(price(18446744073709551614, 100, 0))
    );
}

#[test]
fn from_str_goes_through_parse() {
    let p: MealPrice = "Preis 2,50/3,80/4,90".parse().unwrap();
    assert_eq!(p, price(250, 380, 490));
    assert!("Preis 2,50".parse::<MealPrice>().is_err());
}

#[test]
fn parse_reads_signed_amounts() {
    assert_eq!(MealPrice::parse("x -1/+1/2"), Some(price(0, 100, 200)));
    assert_eq!(MealPrice::parse("x -0,5/+2,25/1"), Some(price(0, 225, 100)));
    assert_eq!(MealPrice::parse("x -/1/2"), None);
    assert_eq!(MealPrice::parse("x +-1/1/2"), None);
}

#[test]
fn parse_reads_amounts_exactly() {
    assert_eq!(MealPrice::parse("Preis 2,55/0,29/1,15"), Some(price(255, 29, 115)));
    assert_eq!(MealPrice::parse("Preis 2,509/3,801/4,905"), Some(price(250, 380, 490)));
}

#[test]
fn parse_rejects_exponents_and_words() {
    assert_eq!(MealPrice::parse("x 1e2/2/3"), None);
    assert_eq!(MealPrice::parse("x inf/2/3"), None);
    assert_eq!(MealPrice::parse("x NaN/2/3"), None);
}

#[test]
fn from_str_agrees_with_parse() {
    assert!("Preis EUR 1/2/3".parse::<MealPrice>().is_err());
    assert!("2,50/3,80/4,90".parse::<MealPrice>().is_err());
    assert!("".parse::<MealPrice>().is_err());
    assert!("Preis 1,00/b/3,00".parse::<MealPrice>().is_err());
    assert_eq!("  Preis 1,5/2/3  ".parse::<MealPrice>(), Ok(price(150, 200, 300)));
    assert_eq!("x 1/2/3/4".parse::<MealPrice>(), Ok(price(100, 200, 300)));
    assert!("x 1/2/3/y".parse::<MealPrice>().is_err());
}
