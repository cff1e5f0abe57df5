#![allow(dead_code, unused_imports)]
use css_color::parser::parse_css_color;
use css_color::syntax::{AngleUnit, ColorSyntax, Component, Hue, ParseColorError};

fn parse(s: &str) -> Result<ColorSyntax, ParseColorError> {
    parse_css_color(s.as_bytes())
}

fn part(input: &str, c: Component) -> String {
    match c {
        Component::Number(s) => input[s.start..s.end].to_string(),
        Component::Percentage(s) => format!("{}%", &input[s.start..s.end]),
        Component::Missing => "none".to_string(),
    }
}

fn hue_part(input: &str, h: Hue) -> String {
    match h {
        Hue::Angle(s, unit) => {
            let unit = match unit {
                AngleUnit::Deg => "deg",
                AngleUnit::Grad => "grad",
                AngleUnit::Rad => "rad",
                AngleUnit::Turn => "turn",
            };
            format!("{}{}", &input[s.start..s.end], unit)
        }
        Hue::Missing => "none".to_string(),
    }
}

fn alpha_part(input: &str, a: Option<Component>) -> String {
    match a {
        Some(c) => format!(" / {}", part(input, c)),
        None => String::new(),
    }
}

/// The parse of `input` written out, or "error".
fn describe(input: &str) -> String {
    match parse(input) {
        Err(_) => "error".to_string(),
        Ok(ColorSyntax::Rgba8 { red, green, blue, alpha }) => {
            format!("rgba8({},{},{},{})", red, green, blue, alpha)
        }
        Ok(ColorSyntax::Rgb { legacy, red, green, blue, alpha }) => format!(
            "rgb{}({} {} {}{})",
            if legacy { "-legacy" } else { "" },
            part(input, red),
            part(input, green),
            part(input, blue),
            alpha_part(input, alpha)
        ),
        Ok(ColorSyntax::Hsl { legacy, hue, saturation, lightness, alpha }) => format!(
            "hsl{}({} {} {}{})",
            if legacy { "-legacy" } else { "" },
            hue_part(input, hue),
            part(input, saturation),
            part(input, lightness),
            alpha_part(input, alpha)
        ),
        Ok(ColorSyntax::Hwb { hue, whiteness, blackness, alpha }) => format!(
            "hwb({} {} {}{})",
            hue_part(input, hue),
            part(input, whiteness),
            part(input, blackness),
            alpha_part(input, alpha)
        ),
    }
}

#[test]
fn hsl() {
    for (input, expected) in [
        ("hsl(0 100% 50% / 0)", "hsl(0deg 100% 50% / 0)"),
        ("hsl(0deg 100% 50% / 0)", "hsl(0deg 100% 50% / 0)"),
        ("hsl(0grad 100% 50% / 0)", "hsl(0grad 100% 50% / 0)"),
        ("hsl(0rad 100% 50% / 0)", "hsl(0rad 100% 50% / 0)"),
        ("hsl(0turn 100% 50% / 0)", "hsl(0turn 100% 50% / 0)"),
        ("hsl(360 100% 50% / 0)", "hsl(360deg 100% 50% / 0)"),
        ("hsl(360deg 100% 50% / 0)", "hsl(360deg 100% 50% / 0)"),
        ("hsl(400grad 100% 50% / 0)", "hsl(400grad 100% 50% / 0)"),
        (
            "hsl(6.283185307179586rad 100% 50% / 0)",
            "hsl(6.283185307179586rad 100% 50% / 0)",
        ),
        ("hsl(1turn 100% 50% / 0)", "hsl(1turn 100% 50% / 0)"),
        ("hsl(120 100% 50% / 0)", "hsl(120deg 100% 50% / 0)"),
        ("hsl(120deg 100% 50% / 0)", "hsl(120deg 100% 50% / 0)"),
        (
            "hsl(2.0943951023931953rad 100% 50% / 0)",
            "hsl(2.0943951023931953rad 100% 50% / 0)",
        ),
        (
            "hsl(0.3333333333333333turn 100% 50% / 0)",
            "hsl(0.3333333333333333turn 100% 50% / 0)",
        ),
        ("hsl(240 100% 50% / 0)", "hsl(240deg 100% 50% / 0)"),
        ("hsl(240deg 100% 50% / 0)", "hsl(240deg 100% 50% / 0)"),
        (
            "hsl(4.1887902047863905rad 100% 50% / 0)",
            "hsl(4.1887902047863905rad 100% 50% / 0)",
        ),
        (
            "hsl(0.6666666666666666turn 100% 50% / 0)",
            "hsl(0.6666666666666666turn 100% 50% / 0)",
        ),
    ] {
        assert_eq!(describe(input), expected);
    }

    assert!(parse("hsl(0 0% 0% / 0)").is_ok());
    assert!(parse("hsl(0 0% 0% / 0%)").is_ok());
    assert!(parse("HSL(0 0% 0% / 0)").is_ok());
    assert!(parse("hsl(0 0% 0% , 0)").is_err());
    assert!(parse("hsl(0,0%,0%,0)").is_ok());
    assert!(parse("hsl(0,0%,0%,0%)").is_ok());
    assert!(parse("hsl(0, 0%, 0%, 0)").is_ok());
    assert!(parse("hsl(0, 0%, 0%, 0%)").is_ok());
    assert!(parse(" hsl(0 0% 0% / 0)").is_err());
    assert!(parse("hsl (0 0% 0% / 0)").is_err());
    assert!(parse("hsl(0 0% 0% / 0) ").is_err());
    assert!(parse("hsl( 0   0%   0% )").is_ok());
    assert!(parse("hsl( 0   0%   0% / 0% )").is_ok());
    assert!(parse("hsl( 0 , 0% , 0% )").is_ok());
    assert!(parse("hsl( 0 , 0% , 0% , 0% )").is_ok());
    assert!(parse("hsla(0 0% 0% / 0)").is_ok());
    assert!(parse("HSLA(0 0% 0% / 0)").is_ok());
    assert!(parse("hsla(0 0% 0%)").is_ok());
    assert!(parse("hsla(0,0%,0%)").is_ok());
    assert!(parse("hsla(0,0%,0%,0)").is_ok());
    assert!(parse("hsla(0deg 0% 0%)").is_ok());
    assert!(parse("hsla(0deg 0% 0% / 0)").is_ok());
    // Saturation and lightness may be numbers in the space-separated syntax.
    assert!(parse("hsl(+0 +0 +0 )").is_ok());
    assert!(parse("hsl(+0 +0 +0%)").is_ok());
    assert!(parse("hsl(+0 +0%+0 )").is_ok());
    assert!(parse("hsl(+0 +0%+0%)").is_ok());
    assert!(parse("hsl(+0%+0 +0 )").is_err());
    assert!(parse("hsl(+0%+0 +0%)").is_err());
    assert!(parse("hsl(+0%+0%+0 )").is_err());
    assert!(parse("hsl(+0%+0%+0%)").is_err());
    assert!(parse("hsl(-0 -0 -0 )").is_ok());
    assert!(parse("hsl(-0 -0 -0%)").is_ok());
    assert!(parse("hsl(-0 -0%-0 )").is_ok());
    assert!(parse("hsl(-0 -0%-0%)").is_ok());
    assert!(parse("hsl(-0%-0 -0 )").is_err());
    assert!(parse("hsl(-0%-0 -0%)").is_err());
    assert!(parse("hsl(-0%-0%-0 )").is_err());
    assert!(parse("hsl(-0%-0%-0%)").is_err());
    assert!(parse("hsl(0 ,0 ,0 )").is_err());
    assert!(parse("hsl(0 ,0 ,0%)").is_err());
    assert!(parse("hsl(0 ,0%,0 )").is_err());
    assert!(parse("hsl(0 ,0%,0%)").is_ok());
    assert!(parse("hsl(0%,0 ,0 )").is_err());
    assert!(parse("hsl(0%,0 ,0%)").is_err());
    assert!(parse("hsl(0%,0%,0 )").is_err());
    assert!(parse("hsl(0%,0%,0%)").is_err());
    assert!(parse("hsl(0 0% 0%/0%)").is_ok());
    assert!(parse("hsl(0+0%+0%/+0%)").is_ok());
    assert!(parse("hsl(0-0%-0%/-0%)").is_ok());
    assert!(parse("hsl(0,0%,0%,0%)").is_ok());
    assert!(parse("hsl(0deg 0% 0%)").is_ok());
    assert!(parse("hsl(0deg+0%+0%)").is_ok());
    assert!(parse("hsl(0deg-0%-0%)").is_err());
    assert!(parse("hsl(0deg,0%,0%)").is_ok());
    assert!(parse("hsl(0deg 0% 0% / 0)").is_ok());
    assert!(parse("hsl(0DEG 0% 0% / 0)").is_ok());
    assert!(parse("hsl(0de 0% 0% / 0)").is_err());
    assert!(parse("hsl(0degg 0% 0% / 0)").is_err());
    assert!(parse("hsl(0 deg 0% 0% / 0)").is_err());
    assert!(parse("hsl(0grad 0% 0% / 0)").is_ok());
    assert!(parse("hsl(0GRAD 0% 0% / 0)").is_ok());
    assert!(parse("hsl(0gra 0% 0% / 0)").is_err());
    assert!(parse("hsl(0gradd 0% 0% / 0)").is_err());
    assert!(parse("hsl(0 grad 0% 0% / 0)").is_err());
    assert!(parse("hsl(0rad 0% 0% / 0)").is_ok());
    assert!(parse("hsl(0RAD 0% 0% / 0)").is_ok());
    assert!(parse("hsl(0ra 0% 0% / 0)").is_err());
    assert!(parse("hsl(0radd 0% 0% / 0)").is_err());
    assert!(parse("hsl(0 rad 0% 0% / 0)").is_err());
    assert!(parse("hsl(0turn 0% 0% / 0)").is_ok());
    assert!(parse("hsl(0TURN 0% 0% / 0)").is_ok());
    assert!(parse("hsl(0tur 0% 0% / 0)").is_err());
    assert!(parse("hsl(0turnn 0% 0% / 0)").is_err());
    assert!(parse("hsl(0 turn 0% 0% / 0)").is_err());
    assert!(parse("hsl(0deg\0 0% 0% / 0)").is_err());
    assert!(parse("hsl(0deg\t 0% 0% / 0)").is_ok());
    assert!(parse("hsl(0deg\n 0% 0% / 0)").is_ok());
    assert!(parse("hsl(0deg\r 0% 0% / 0)").is_ok());
    assert!(parse("hsl(0deg\x0C 0% 0% / 0)").is_ok());
    assert!(parse("hsl()").is_err());
    assert!(parse("hsl(0)").is_err());
    assert!(parse("hsl(0,0%)").is_err());
    assert!(parse("hsl(0 0%)").is_err());
    assert!(parse("hsl(,,)").is_err());
    assert!(parse("hsl(,%,%)").is_err());
    assert!(parse("hsl(0,%,%)").is_err());
    assert!(parse("hsl(0 % %)").is_err());
    assert!(parse("hsl(0,0%,0%,)").is_err());
    assert!(parse("hsl(0,0%,0%,0").is_err());
    assert!(parse("hsl(0 0% 0% / 0").is_err());
}
