use exercises::format_spec::{parse, Precision, Sign};

#[test]
fn parses_sign() {
    for (input, expected) in [
        ("", None),
        (">8.*", None),
        (">+8.*", Some(Sign::Plus)),
        ("-.1$x", Some(Sign::Minus)),
        ("a^#043.8?", None),
    ] {
        let (sign, ..) = parse(input);
        assert_eq!(sign, expected, "{input}");
    }
}

#[test]
fn parses_width() {
    for (input, expected) in [
        ("", None),
        (">8.*", Some(8)),
        (">+8.*", Some(8)),
        ("-.1$x", None),
        ("a^#043.8?", Some(43)),
    ] {
        let (_, width, _) = parse(input);
        assert_eq!(width, expected, "{input}");
    }
}

#[test]
fn parses_precision() {
    for (input, expected) in [
        ("", None),
        (">8.*", Some(Precision::Asterisk)),
        (">+8.*", Some(Precision::Asterisk)),
        ("-.1$x", Some(Precision::Argument(1))),
        ("a^#043.8?", Some(Precision::Integer(8))),
    ] {
        let (_, _, precision) = parse(input);
        assert_eq!(precision, expected, "{input}");
    }
}

#[test]
fn malformed_spec_gives_nothing() {
    assert_eq!(parse("8.x.y"), (None, None, None));
    assert_eq!(parse("+."), (None, None, None));
    assert_eq!(parse("99999999999999999999999"), (None, None, None));
}

#[test]
fn parses_full_spec() {
    assert_eq!(
        parse("*<-#012.345$"),
        (Some(Sign::Minus), Some(12), Some(Precision::Argument(345)))
    );
    assert_eq!(parse("x"), (None, None, None));
    assert_eq!(parse("?"), (None, None, None));
    assert_eq!(parse("0"), (None, None, None));
    assert_eq!(parse("07"), (None, Some(7), None));
}
