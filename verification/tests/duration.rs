use recipe_grabber::duration::{Amount, Duration};

/// The value the written number of a component denotes.
fn value(a: &Amount) -> f32 {
    match a {
        Amount::Zero => 0.0,
        Amount::Number(s) => s.parse().unwrap(),
        Amount::Weeks(s) => s.parse::<f32>().unwrap() * 7.,
    }
}

fn values(d: &Duration) -> [f32; 6] {
    [
        value(&d.year),
        value(&d.month),
        value(&d.day),
        value(&d.hour),
        value(&d.minute),
        value(&d.second),
    ]
}

fn parse(input: &str) -> Duration {
    assert!(Duration::is_duration(input));
    match Duration::parse(input) {
        Ok(d) => d,
        Err(_) => panic!("not a duration"),
    }
}

fn number(a: &Amount) -> Option<&str> {
    match a {
        Amount::Number(s) => Some(s.as_str()),
        _ => None,
    }
}

#[test]
pub fn simple() {
    assert_eq!(values(&parse("PT50M")), [0.0, 0.0, 0.0, 0.0, 50.0, 0.0]);
    assert_eq!(values(&parse("P0DT1H45M")), [0.0, 0.0, 0.0, 1.0, 45.0, 0.0]);
}

#[test]
fn all_components_keep_their_written_numbers() {
    let d = parse("P1Y2M3DT4H5M6.5S");
    assert_eq!(number(&d.year), Some("1"));
    assert_eq!(number(&d.month), Some("2"));
    assert_eq!(number(&d.day), Some("3"));
    assert_eq!(number(&d.hour), Some("4"));
    assert_eq!(number(&d.minute), Some("5"));
    assert_eq!(number(&d.second), Some("6.5"));
}

#[test]
fn weeks_are_seven_days_each() {
    let d = parse("P2W");
    assert!(matches!(&d.day, Amount::Weeks(w) if w == "2"));
    assert_eq!(values(&d), [0.0, 0.0, 14.0, 0.0, 0.0, 0.0]);
}

#[test]
fn month_and_minute_are_told_apart_by_the_time_designator() {
    let d = parse("P1MT1M");
    assert_eq!(values(&d), [0.0, 1.0, 0.0, 0.0, 1.0, 0.0]);
}

#[test]
fn numbers_in_float_notation() {
    let d = parse("PT1.5H+2e1M");
    assert_eq!(number(&d.hour), Some("1.5"));
    assert_eq!(number(&d.minute), Some("+2e1"));
    assert_eq!(values(&d)[4], 20.0);
    let d = parse("PT.5H");
    assert_eq!(number(&d.hour), Some(".5"));
    let d = parse("PTnanHInfM");
    assert_eq!(number(&d.hour), Some("nan"));
    assert_eq!(number(&d.minute), Some("Inf"));
}

#[test]
fn empty_time_part_is_allowed_after_a_date_part() {
    let d = parse("P5DT");
    assert_eq!(values(&d), [0.0, 0.0, 5.0, 0.0, 0.0, 0.0]);
}

#[test]
fn rejected_texts() {
    for bad in [
        "", "P", "PT", "T1H", "1H", "PT1H30", "P1W1D", "PT1X", "P1,5D", "PT1eH", "p1D", "PT1H ",
        "P-", "PT1HT2M",
    ] {
        assert!(!Duration::is_duration(bad), "{bad:?} should be rejected");
    }
}
