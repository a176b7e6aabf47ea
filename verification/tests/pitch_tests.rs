//! Ratio, pitch and expression-language behaviour.

use microwave::pitch::{NearestFraction, Pitch, Ratio};
use microwave::parse::{RatioExpression, RatioExpressionVariant};

fn ratio_of(x: f64) -> Ratio {
    Ratio::from_float_bits(x.to_bits()).expect("finite positive")
}

fn as_float(r: Ratio) -> f64 {
    f64::from_bits(r.as_float_bits())
}

fn as_cents(r: Ratio) -> f64 {
    f64::from_bits(r.as_cents_bits())
}

#[test]
fn parses_successfully() {
    let test_cases = [
        ("1", 1.0000),
        ("99.9", 99.9000),
        ("(1.25)", 1.2500),
        ("(1.25)", 1.2500),
        ("10/3", 3.3333),
        ("10/(10/3)", 3.0000),
        ("(10/3)/10", 0.3333),
        ("(3/4)/(5/6)", 0.9000),
        ("(3/4)/(5/6)", 0.9000),
        ("0:12:2", 1.000),
        ("7:12:2", 1.4983),
        ("7/12:1:2", 1.4983),
        ("12:12:2", 2.000),
        ("-12:12:2", 0.500),
        ("4:1:3/2", 5.0625),
        ("1:1/4:3/2", 5.0625),
        ("1/2:3/2:(1:2:64)", 2.0000),
        ("((1/2):(3/2):(1:2:64))", 2.0000),
        (" (    (1 /2)  :(3 /2):   (1: 2:   64  ))     ", 2.0000),
        ("12:7:700c", 2.000),
        ("0c", 1.0000),
        ("(0/3)c", 1.0000),
        ("702c", 1.5000),
        ("-702c", 0.6666),
        ("1200c", 2.0000),
        ("702c/3", 0.5000),
        ("3/702c", 2.0000),
        ("(1404/2)c", 1.5000),
    ];

    for (input, expected) in test_cases.iter() {
        let parsed = as_float(input.parse::<Ratio>().unwrap());
        assert!(
            (parsed - expected).abs() < 0.0001,
            "`{input}` should evaluate to {expected} but was {parsed:.4}"
        );
    }
}

#[test]
fn parses_with_error() {
    let test_cases = [
        (
            "0.0",
            "Invalid expression '0.0': Evaluates to 0 but should be positive",
        ),
        (
            "-1.2345",
            "Invalid expression '-1.2345': Evaluates to -1.2345 but should be positive",
        ),
        ("1/0", "Invalid expression '1/0': Evaluates to inf"),
        (
            "(1/0)c",
            "Invalid expression '(1/0)c': Invalid cents value '(1/0)': Evaluates to inf",
        ),
        (
            "(1/x)c",
            "Invalid expression '(1/x)c': Invalid cents value '(1/x)': Invalid denominator 'x': \
             Must be a float (e.g. 1.5), fraction (e.g. 3/2), interval fraction (e.g. 7:12:2) or cents value (e.g. 702c)",
        ),
        (
            "   (1   /x )c ",
            "Invalid expression '(1   /x )c': Invalid cents value '(1   /x )': Invalid denominator 'x': \
             Must be a float (e.g. 1.5), fraction (e.g. 3/2), interval fraction (e.g. 7:12:2) or cents value (e.g. 702c)",
        ),
    ];

    for (input, expected) in test_cases.iter() {
        let parse_error = input.parse::<Ratio>().unwrap_err();
        assert_eq!(parse_error, *expected);
    }
}

#[test]
fn parse_variant() {
    assert!(matches!(
        "1".parse::<RatioExpression>().unwrap().variant(),
        RatioExpressionVariant::Float { .. }
    ));
    assert!(matches!(
        "10/3".parse::<RatioExpression>().unwrap().variant(),
        RatioExpressionVariant::Fraction { .. }
    ));
    assert!(matches!(
        "(3/4)/(5/6)".parse::<RatioExpression>().unwrap().variant(),
        RatioExpressionVariant::Fraction { .. }
    ));
    assert!(matches!(
        "12:7:700c".parse::<RatioExpression>().unwrap().variant(),
        RatioExpressionVariant::IntervalFraction { .. }
    ));
    assert!(matches!(
        "(0/3)c".parse::<RatioExpression>().unwrap().variant(),
        RatioExpressionVariant::Cents { .. }
    ));
}

#[test]
fn find_nearest_fraction() {
    let nearest_fractions: Vec<_> = std::iter::successors(Some(0.5), |prev| Some(prev * 1.05))
        .take(50)
        .map(|ratio| {
            format!(
                "ratio = {:.2}, nearest_fraction = {}",
                ratio,
                ratio_of(ratio).nearest_fraction(11).to_display()
            )
        })
        .collect();

    assert_eq!(
        nearest_fractions,
        [
            "ratio = 0.50, nearest_fraction = 1/1 [+0c] (-1o)",
            "ratio = 0.53, nearest_fraction = 12/11 [-66c] (-1o)",
            "ratio = 0.55, nearest_fraction = 11/10 [+4c] (-1o)",
            "ratio = 0.58, nearest_fraction = 7/6 [-13c] (-1o)",
            "ratio = 0.61, nearest_fraction = 11/9 [-10c] (-1o)",
            "ratio = 0.64, nearest_fraction = 14/11 [+5c] (-1o)",
            "ratio = 0.67, nearest_fraction = 4/3 [+9c] (-1o)",
            "ratio = 0.70, nearest_fraction = 7/5 [+9c] (-1o)",
            "ratio = 0.74, nearest_fraction = 3/2 [-26c] (-1o)",
            "ratio = 0.78, nearest_fraction = 14/9 [-5c] (-1o)",
            "ratio = 0.81, nearest_fraction = 18/11 [-8c] (-1o)",
            "ratio = 0.86, nearest_fraction = 12/7 [-4c] (-1o)",
            "ratio = 0.90, nearest_fraction = 9/5 [-4c] (-1o)",
            "ratio = 0.94, nearest_fraction = 11/6 [+49c] (-1o)",
            "ratio = 0.99, nearest_fraction = 2/1 [-17c] (-1o)",
            "ratio = 1.04, nearest_fraction = 1/1 [+67c] (+0o)",
            "ratio = 1.09, nearest_fraction = 12/11 [+1c] (+0o)",
            "ratio = 1.15, nearest_fraction = 8/7 [+5c] (+0o)",
            "ratio = 1.20, nearest_fraction = 6/5 [+5c] (+0o)",
            "ratio = 1.26, nearest_fraction = 14/11 [-13c] (+0o)",
            "ratio = 1.33, nearest_fraction = 4/3 [-9c] (+0o)",
            "ratio = 1.39, nearest_fraction = 7/5 [-9c] (+0o)",
            "ratio = 1.46, nearest_fraction = 16/11 [+10c] (+0o)",
            "ratio = 1.54, nearest_fraction = 14/9 [-22c] (+0o)",
            "ratio = 1.61, nearest_fraction = 8/5 [+14c] (+0o)",
            "ratio = 1.69, nearest_fraction = 12/7 [-21c] (+0o)",
            "ratio = 1.78, nearest_fraction = 16/9 [+0c] (+0o)",
            "ratio = 1.87, nearest_fraction = 11/6 [+31c] (+0o)",
            "ratio = 1.96, nearest_fraction = 2/1 [-35c] (+0o)",
            "ratio = 2.06, nearest_fraction = 1/1 [+50c] (+1o)",
            "ratio = 2.16, nearest_fraction = 12/11 [-17c] (+1o)",
            "ratio = 2.27, nearest_fraction = 8/7 [-13c] (+1o)",
            "ratio = 2.38, nearest_fraction = 6/5 [-13c] (+1o)",
            "ratio = 2.50, nearest_fraction = 5/4 [+1c] (+1o)",
            "ratio = 2.63, nearest_fraction = 4/3 [-26c] (+1o)",
            "ratio = 2.76, nearest_fraction = 11/8 [+5c] (+1o)",
            "ratio = 2.90, nearest_fraction = 16/11 [-8c] (+1o)",
            "ratio = 3.04, nearest_fraction = 3/2 [+23c] (+1o)",
            "ratio = 3.19, nearest_fraction = 8/5 [-4c] (+1o)",
            "ratio = 3.35, nearest_fraction = 5/3 [+10c] (+1o)",
            "ratio = 3.52, nearest_fraction = 7/4 [+10c] (+1o)",
            "ratio = 3.70, nearest_fraction = 11/6 [+14c] (+1o)",
            "ratio = 3.88, nearest_fraction = 2/1 [-52c] (+1o)",
            "ratio = 4.07, nearest_fraction = 1/1 [+32c] (+2o)",
            "ratio = 4.28, nearest_fraction = 12/11 [-34c] (+2o)",
            "ratio = 4.49, nearest_fraction = 9/8 [-3c] (+2o)",
            "ratio = 4.72, nearest_fraction = 7/6 [+19c] (+2o)",
            "ratio = 4.95, nearest_fraction = 5/4 [-16c] (+2o)",
            "ratio = 5.20, nearest_fraction = 9/7 [+19c] (+2o)",
            "ratio = 5.46, nearest_fraction = 11/8 [-12c] (+2o)"
        ]
    );
}

#[test]
fn float_and_cents_round_trips() {
    for &r in &[0.25, 0.5, 0.9, 1.0, 1.5, 440.0 / 261.63, 2.0, 3.0, 16.0, 99.9] {
        let back = as_float(ratio_of(r));
        assert!((back - r).abs() < 1e-12, "{r} round-tripped to {back}");
    }
    for &c in &[-702.0f64, -100.0, 0.0, 1.0, 100.0, 701.955, 1200.0, 2400.0] {
        let parsed = Ratio::from_cents_bits(c.to_bits()).unwrap();
        let back = as_cents(parsed);
        assert!((back - c).abs() < 1e-9, "{c} cents round-tripped to {back}");
    }
}

#[test]
fn stretch_and_division_round_trips() {
    let a = ratio_of(1.5);
    let b = ratio_of(1.25);
    assert_eq!(a.stretched_by(b).deviation_from(b), a);
    assert_eq!(b.stretched_by(a).deviation_from(a), b);

    let octave = Ratio::octave();
    assert_eq!(octave.divided_into_equal_steps(4).repeated(4), octave);
    assert_eq!(octave.divided_into_equal_steps(16).repeated(16), octave);
}

#[test]
fn nearest_fraction_respects_odd_limit() {
    fn odd_part(mut n: u16) -> u16 {
        while n != 0 && n % 2 == 0 {
            n /= 2;
        }
        n
    }
    for &r in &[0.61, 1.1, 1.45, 2.9, 5.2] {
        for &limit in &[3u16, 5, 9, 11] {
            let f: NearestFraction = ratio_of(r).nearest_fraction(limit);
            assert!(odd_part(f.numer) <= limit, "numer {} at limit {limit}", f.numer);
            assert!(odd_part(f.denom) <= limit, "denom {} at limit {limit}", f.denom);
            assert_eq!(f.num_octaves, r.log2().floor() as i32);
        }
    }
}

#[test]
fn parser_round_trip_per_variant() {
    // Each variant re-emitted as text parses back to an equivalent ratio.
    let cases = [
        "1.5", "99.9", "1.25", "10/3", "3/4", "0:12:2", "7:12:2", "12:12:2", "702c", "1200c",
        "0.01", "123.456",
    ];
    for input in cases {
        let parsed = input.parse::<RatioExpression>().unwrap();
        let emitted = parsed
            .variant()
            .to_expression_string()
            .unwrap_or_else(|| panic!("{input} lost exactness"));
        let second = emitted
            .parse::<Ratio>()
            .unwrap_or_else(|e| panic!("re-emitted `{emitted}`: {e}"));
        let diff = (as_float(parsed.ratio()) - as_float(second)).abs();
        assert!(diff < 1e-9, "{input} -> {emitted}: differs by {diff}");
    }
}

#[test]
fn pitch_strings_parse() {
    let p = "440Hz".parse::<Pitch>().unwrap();
    let hz = f64::from_bits(p.as_hz_bits());
    assert!((hz - 440.0).abs() < 1e-9);
    assert!("440".parse::<Pitch>().is_err());
    let e = "1/0Hz".parse::<Pitch>().unwrap_err();
    assert!(e.starts_with("Invalid frequency: '1/0':"));
}

#[test]
fn pitch_parse_requires_hz_suffix() {
    let p = "440Hz".parse::<Pitch>().unwrap();
    assert!((f64::from_bits(p.as_hz_bits()) - 440.0).abs() < 1e-6);
    let p2 = "440hz".parse::<Pitch>().unwrap();
    assert_eq!(p2.raw, p.raw);
    let err = "440".parse::<Pitch>().unwrap_err();
    assert_eq!(err, "Must end with Hz or hz");
    let err2 = "xHz".parse::<Pitch>().unwrap_err();
    assert!(
        err2.starts_with("Invalid frequency: 'x': Invalid expression 'x':"),
        "{err2}"
    );
}

#[test]
fn nearest_fraction_doc_examples() {
    // Ten equal-tempered semitones: a minor seventh.
    let t = Ratio::octave().divided_into_equal_steps(12).repeated(10);
    let f = t.nearest_fraction(9);
    assert_eq!((f.numer, f.denom), (16, 9));
    assert_eq!(f.num_octaves, 0);
    let f5 = t.nearest_fraction(5);
    assert_eq!((f5.numer, f5.denom), (5, 3));
    // 3/4 is 3/2 an octave down, exactly.
    let q = Ratio::from_fraction(3, 4);
    let f34 = q.nearest_fraction(11);
    assert_eq!((f34.numer, f34.denom), (3, 2));
    assert_eq!(f34.num_octaves, -1);
    assert_eq!(f34.deviation.raw, 0);
}
