use css_color::parser::parse_css_color;
use css_color::syntax::{ColorSyntax, ParseColorError};

fn parse(s: &str) -> Result<ColorSyntax, ParseColorError> {
    parse_css_color(s.as_bytes())
}

fn rgba8(red: u8, green: u8, blue: u8, alpha: u8) -> ColorSyntax {
    ColorSyntax::Rgba8 { red, green, blue, alpha }
}

#[test]
fn hex() {
    assert!(parse("#").is_err());
    assert!(parse("#f").is_err());
    assert!(parse("#ff").is_err());
    assert_eq!(rgba8(255, 255, 255, 255), parse("#fff").unwrap());
    assert!(parse("#ffg").is_err());
    assert_eq!(rgba8(255, 255, 255, 255), parse("#ffff").unwrap());
    assert!(parse("#fffg").is_err());
    assert!(parse("#fffff").is_err());
    assert_eq!(rgba8(255, 255, 255, 255), parse("#ffffff").unwrap());
    assert!(parse("#fffffg").is_err());
    assert!(parse("#fffffff").is_err());
    assert_eq!(rgba8(255, 255, 255, 255), parse("#ffffffff").unwrap());
    assert!(parse("#fffffffg").is_err());
    assert!(parse("#fffffffff").is_err());

    assert!(parse("#+").is_err());
    assert!(parse("#+0").is_err());
    assert!(parse("#+00").is_err());
    assert!(parse("#+000").is_err());
    assert!(parse("#+0000").is_err());
    assert!(parse("#+00000").is_err());
    assert!(parse("#+000000").is_err());
    assert!(parse("#+0000000").is_err());
    assert!(parse("#+00000000").is_err());

    assert!(parse("#-").is_err());
    assert!(parse("#-0").is_err());
    assert!(parse("#-00").is_err());
    assert!(parse("#-000").is_err());
    assert!(parse("#-0000").is_err());
    assert!(parse("#-00000").is_err());
    assert!(parse("#-000000").is_err());
    assert!(parse("#-0000000").is_err());
    assert!(parse("#-00000000").is_err());
}

#[test]
fn hex_digit_values() {
    assert_eq!(rgba8(0x12, 0x34, 0x56, 0x78), parse("#12345678").unwrap());
    assert_eq!(rgba8(0xab, 0xcd, 0xef, 255), parse("#AbCdEf").unwrap());
    assert_eq!(rgba8(0x11, 0x22, 0x33, 0x44), parse("#1234").unwrap());
    assert_eq!(parse("#123").unwrap(), parse("#112233").unwrap());
    assert_eq!(parse("#0000ffcc").unwrap(), rgba8(0, 0, 255, 0xcc));
}
