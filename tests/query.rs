use hax::query::{parse, Comparator, Node};

fn literal(q: &str) -> (Option<i64>, Option<(String, i32)>) {
    let node = parse(q).unwrap();
    let c = node.constant();
    (c.as_int, c.as_float.as_ref().map(|f| (f.text.clone(), f.precision)))
}

#[test]
fn bare_literal_is_constant() {
    let node = parse("625").unwrap();
    assert!(matches!(node, Node::Constant(_)));
    assert_eq!(node.op(), Comparator::Approx);
    assert_eq!(literal("625"), (Some(625), Some(("625".to_string(), 0))));
}

#[test]
fn comparator_gives_match_expr() {
    for (q, op) in [
        (">1", Comparator::Gt),
        (">=1", Comparator::Gte),
        ("<1", Comparator::Lt),
        ("<=1", Comparator::Lte),
        ("=1", Comparator::Eq),
        ("!=1", Comparator::Neq),
        ("~1", Comparator::Approx),
    ] {
        let node = parse(q).unwrap();
        assert!(matches!(node, Node::MatchExpr { .. }), "{}", q);
        assert_eq!(node.op(), op, "{}", q);
        assert_eq!(node.constant().as_int, Some(1));
    }
}

#[test]
fn whitespace_around_parts() {
    let node = parse("  >=   -12 \t").unwrap();
    assert_eq!(node.op(), Comparator::Gte);
    assert_eq!(literal("  >=   -12 \t"), (Some(-12), Some(("-12".to_string(), 0))));
}

#[test]
fn decimal_literal_has_no_int_reading() {
    assert_eq!(literal("625.1"), (None, Some(("625.1".to_string(), 1))));
    assert_eq!(literal("0.125"), (None, Some(("0.125".to_string(), 3))));
}

#[test]
fn exponent_lowers_precision() {
    assert_eq!(literal("6.25e2"), (None, Some(("6.25e2".to_string(), 0))));
    assert_eq!(literal("5e3"), (None, Some(("5e3".to_string(), -3))));
    assert_eq!(literal("5E-2"), (None, Some(("5E-2".to_string(), 2))));
    assert_eq!(literal("+1.5e+1"), (None, Some(("+1.5e+1".to_string(), 0))));
}

#[test]
fn int_reading_limits() {
    assert_eq!(literal("9223372036854775807").0, Some(i64::MAX));
    assert_eq!(literal("-9223372036854775808").0, Some(i64::MIN));
    assert_eq!(literal("9223372036854775808").0, None);
    assert_eq!(literal("+42").0, Some(42));
}

#[test]
fn malformed_queries_are_rejected() {
    for q in ["", "   ", "abc", ">", "5.", "5 5", "!5", "=>5", "1e", "--1", "0x10", "5.e3"] {
        assert!(parse(q).is_err(), "{:?}", q);
    }
}

#[test]
fn comparator_from_str() {
    assert_eq!(Comparator::from_str(">="), Some(Comparator::Gte));
    assert_eq!(Comparator::from_str("~"), Some(Comparator::Approx));
    assert_eq!(Comparator::from_str("!="), Some(Comparator::Neq));
    assert_eq!(Comparator::from_str("=="), None);
    assert_eq!(Comparator::from_str(""), None);
}

#[test]
fn matches_int_relations() {
    assert!(Comparator::Approx.matches_int(3, 3));
    assert!(!Comparator::Neq.matches_int(3, 3));
    assert!(Comparator::Gt.matches_int(4, 3));
    assert!(!Comparator::Lt.matches_int(4, 3));
    assert!(Comparator::Lte.matches_int(3, 3));
    assert!(Comparator::Gte.matches_int(i64::MAX, i64::MIN));
}
