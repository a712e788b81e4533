use locc::number::{check_float_literal, is_float, is_positive_float};

#[test]
fn accepts_well_formed_floats() {
    let good = [
        "0", "1", "48", "9.177789688110352", "-1.5", "+1.5", ".5", "5.", "0.0", "-0", "-0.0",
        "1e9", "1E9", "1e+9", "1e-9", "1.25e-3", ".5e2", "5.e2", "inf", "Inf", "INF", "-inf",
        "+inf", "infinity", "Infinity", "INFINITY", "-infinity", "nan", "NaN", "NAN", "-nan",
        "+nan", "1e999", "-1e999", "007", "10.",
    ];
    for s in good {
        assert!(is_float(s.to_string()).is_ok(), "{}", s);
    }
}

#[test]
fn rejects_malformed_floats() {
    let bad = [
        "", ".", "+", "-", "+.", "e9", "1e", "1e+", "1e-", "1e1.5", "1.2.3", "1..2", "abc", "1a",
        "a1", "--1", "+-1", "1,5", " 1", "1 ", "in", "infi", "infinit", "infinityy", "na", "nans",
        "0x10", "1_000", "NaN%", "e", "E", "1.5e+",
    ];
    for s in bad {
        let r = is_float(s.to_string());
        match r {
            Ok(()) => panic!("accepted {:?}", s),
            Err(m) => assert_eq!(m, "Value is not a proper float."),
        }
    }
}

#[test]
fn agrees_with_str_parse() {
    let cases = [
        "0", "1", "48", "9.177789688110352", "-1.5", "+1.5", ".5", "5.", "0.0", "-0", "1e9",
        "1E9", "1e+9", "1e-9", "1.25e-3", ".5e2", "5.e2", "inf", "Inf", "INF", "-inf", "+inf",
        "infinity", "INFINITY", "nan", "NaN", "-nan", "1e999", "007", "", ".", "+", "-", "e9",
        "1e", "1e+", "1.2.3", "1..2", "abc", "1a", "--1", "+-1", "1,5", " 1", "1 ", "in", "infi",
        "infinityy", "na", "nans", "0x10", "1_000", "1.5e+", "iNfInItY", "nAn", "+.e1", ".e1",
        "0.e0", ".0e0",
    ];
    for s in cases {
        assert_eq!(
            check_float_literal(s),
            s.parse::<f64>().is_ok(),
            "disagreement on {:?}",
            s
        );
    }
}

#[test]
fn accepts_floats_that_are_not_below_zero() {
    let good = [
        "0", "-0", "-0.0", "1.5", "+3", "0.00e99", "-0.00e99", "nan", "-nan", "+nan", "inf",
        "+inf", "infinity", "10", ".5",
    ];
    for s in good {
        assert!(is_positive_float(s.to_string()).is_ok(), "{}", s);
    }
}

#[test]
fn rejects_floats_below_zero() {
    let bad = ["-1", "-0.5", "-.5", "-5.", "-inf", "-infinity", "-1e999", "-1e-9", "-0.001"];
    for s in bad {
        let r = is_positive_float(s.to_string());
        match r {
            Ok(()) => panic!("accepted {:?}", s),
            Err(m) => assert_eq!(m, "Value is not positive."),
        }
    }
}

#[test]
fn rejects_malformed_floats_as_not_positive_either() {
    let bad = ["", ".", "-", "abc", "1.2.3", "1e", "--1"];
    for s in bad {
        let r = is_positive_float(s.to_string());
        match r {
            Ok(()) => panic!("accepted {:?}", s),
            Err(m) => assert_eq!(m, "Value is not a proper float."),
        }
    }
}

#[test]
fn positivity_agrees_with_str_parse() {
    // every literal here parses; none is small enough to round to zero,
    // so `parsed < 0` and "mathematically below zero" coincide
    let cases = [
        "0", "-0", "-0.0", "1.5", "-1.5", "+3", "-3", ".5", "-.5", "5.", "-5.", "1e9", "-1e9",
        "1e999", "-1e999", "inf", "-inf", "+inf", "infinity", "-infinity", "nan", "-nan", "+nan",
        "0.00e99", "-0.00e99", "-0.001", "007", "-007",
    ];
    for s in cases {
        let f: f64 = s.parse().unwrap();
        let expected = !(f < 0.0);
        assert_eq!(
            is_positive_float(s.to_string()).is_ok(),
            expected,
            "disagreement on {:?}",
            s
        );
    }
}
