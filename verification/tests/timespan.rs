use rystemd::timespan::{fmt_ago, fmt_left, TimeSpan};

fn us(s: &str) -> u64 {
    TimeSpan::parse(s).unwrap().usec
}

#[test]
fn basic_units() {
    assert_eq!(us("5s"), 5_000_000);
    assert_eq!(us("500ms"), 500_000);
    assert_eq!(us("1min"), 60_000_000);
    assert_eq!(us("1m"), 60_000_000); // minutes in time spans
    assert_eq!(us("1h"), 3_600_000_000);
    assert_eq!(us("2d"), 2 * 86_400_000_000);
    assert_eq!(us("1w"), 7 * 86_400_000_000);
}

#[test]
fn long_names_and_case() {
    assert_eq!(us("1second"), 1_000_000);
    assert_eq!(us("2seconds"), 2_000_000);
    assert_eq!(us("1MINUTE"), 60_000_000);
    assert_eq!(us("1Hour"), 3_600_000_000);
    assert_eq!(us("1day"), 86_400_000_000);
    assert_eq!(us("1MON"), 30 * 86_400_000_000 + 43_750 * 864_000);
}

#[test]
fn combined() {
    assert_eq!(us("1h 30min"), 90 * 60_000_000);
    assert_eq!(us("1h30min"), 90 * 60_000_000);
    assert_eq!(
        us("2d 4h 5s"),
        2 * 86_400_000_000 + 4 * 3_600_000_000 + 5_000_000
    );
    assert_eq!(us("90s"), 90_000_000);
}

#[test]
fn infinity_and_errors() {
    assert!(TimeSpan::parse("infinity").unwrap().is_infinite());
    assert!(TimeSpan::parse("Infinity").unwrap().is_infinite());
    assert!(TimeSpan::parse("").is_err());
    assert!(TimeSpan::parse("5").is_err()); // bare number, no unit
    assert_eq!(TimeSpan::parse("1.5s").unwrap().usec, 1_500_000); // fractional
    assert!(TimeSpan::parse("banana").is_err());
    assert!(TimeSpan::parse("5 parsecs").is_err());
}

#[test]
fn month_year_lengths() {
    // 1 month = 365.25/12 days = 30.4375 d; 1 year = 365.25 d.
    let month = us("1mon");
    let year = us("1y");
    assert_eq!(month, 30 * 86_400_000_000 + 43_750 * 864_000);
    assert_eq!(year, 365 * 86_400_000_000 + 21_600_000_000);
    assert_eq!(year % 12, 0); // 365.25 d divisible by 12 -> 30.4375 d
    assert_eq!(month * 12, year);
}

#[test]
fn display() {
    assert_eq!(fmt_left(23), "23s");
    assert_eq!(fmt_left(300), "5min");
    assert_eq!(fmt_left(5400), "1h 30min");
    assert_eq!(fmt_left(3600), "1h");
    assert_eq!(fmt_left(172800), "2 days");
    assert_eq!(fmt_ago(300), "5min ago");
    assert_eq!(fmt_ago(86400), "1 day ago");
}

/// Fractions come out as 64-bit floating point arithmetic has them.
#[test]
fn fractions_are_those_of_floating_point() {
    let cases = [
        ("0.1s", 1_000_000u64),
        ("0.3ms", 1_000),
        ("2.7h", 3_600_000_000),
        ("1.1min", 60_000_000),
        ("0.0000019s", 1_000_000),
        ("123456.789s", 1_000_000),
        ("33.3d", 86_400_000_000),
    ];
    for (text, unit) in cases {
        let digits: String = text
            .chars()
            .take_while(|c| c.is_ascii_digit() || *c == '.')
            .collect();
        let number: f64 = digits.parse().unwrap();
        assert_eq!(us(text), (number * unit as f64) as u64, "{text}");
    }
}

#[test]
fn spans_are_shown() {
    assert_eq!(TimeSpan::infinity().show(), "infinity");
    assert!(TimeSpan::infinity().is_infinite());
    assert_eq!(TimeSpan::infinity().as_duration(), None);
    assert_eq!(TimeSpan::from_usec(5).as_duration(), Some(5));
    assert_eq!(TimeSpan::from_duration(2, 7).usec, 2_000_007);
}

#[test]
fn spans_side_by_side_add_up() {
    let (a, b) = ("  1h\t", "\n30min  ");
    assert_eq!(us(&format!("{a} {b}")), us(a) + us(b));
    assert_eq!(us(" 1h\t \n30min "), 5_400_000_000);
    assert!(TimeSpan::parse("infinity 1s").is_err());
}

#[test]
fn case_does_not_matter_in_spans() {
    for s in ["1h 30min", "500ms", "2D 4Hours", "infinity", "5 parsecs", ""] {
        let upper = TimeSpan::parse(&s.to_ascii_uppercase());
        assert_eq!(TimeSpan::parse(s).ok(), upper.ok(), "{s}");
    }
    assert_eq!(us("1H 30MIN"), 5_400_000_000);
}
