use niji::color::ColorError;
use niji::{Color, FmtValue, Format, FormatExt, Template, Value};

#[test]
fn should_construct_from_int() {
    let col = Color::from(0x0a_0b_0c_0d);

    assert_eq!(col.r, 0x0a);
    assert_eq!(col.g, 0x0b);
    assert_eq!(col.b, 0x0c);
    assert_eq!(col.a, 0x0d);
}

#[test]
fn should_display_correctly() {
    let col = Color::from(0xf1_02_34_ff);

    assert_eq!(col.to_string(), String::from("#f10234ff"));
}

#[test]
fn should_parse_3_len() {
    assert_eq!(Color::from_str("#222").unwrap(), Color::from(0x22_22_22_ff));
}

#[test]
fn should_parse_6_len() {
    assert_eq!(
        Color::from_str("#abcdef").unwrap(),
        Color::from(0xab_cd_ef_ff)
    );
}

#[test]
fn should_parse_8_len() {
    assert_eq!(
        Color::from_str("#abcdef80").unwrap(),
        Color::from(0xab_cd_ef_80)
    );
}

#[test]
fn colors_convert_to_numbers_and_back() {
    for number in [0u32, 1, 0xff, 0x0a0b0c0d, 0xf10234ff, 0x80000000, u32::MAX] {
        assert_eq!(u32::from(Color::from(number)), number);
    }
    assert_eq!(u32::from(Color::new_rgba(1, 2, 3, 4)), 0x01020304);
    assert_eq!(Color::default(), Color::new_rgba(0, 0, 0, 255));
}

#[test]
fn color_text_parses_back() {
    for number in [0u32, 0x0a0b0c0d, 0xf10234ff, u32::MAX] {
        let color = Color::from(number);
        assert_eq!(Color::from_str(&color.to_string()).unwrap(), color);
    }
}

#[test]
fn color_parsing_accepts_what_hexadecimal_parsing_accepts() {
    assert_eq!(
        Color::from_str("#ABCDEF").unwrap(),
        Color::new_rgba(0xab, 0xcd, 0xef, 0xff)
    );
    assert_eq!(Color::from_str("#abc").unwrap(), Color::from(0xabcabcff));
    assert_eq!(Color::from_str("#+ff").unwrap(), Color::from(0x0ff0ffff));
    assert_eq!(Color::from_str("#+fffff").unwrap(), Color::from(0x0fffffff));
    assert_eq!(Color::from_str("#+1234567").unwrap(), Color::from(0x01234567));
}

#[test]
fn color_parsing_rejects_everything_else() {
    assert_eq!(Color::from_str(""), Err(ColorError::MissingHash));
    assert_eq!(Color::from_str("abcdef"), Err(ColorError::MissingHash));
    assert_eq!(Color::from_str("#"), Err(ColorError::InvalidHex));
    assert_eq!(Color::from_str("#+"), Err(ColorError::InvalidHex));
    assert_eq!(Color::from_str("#xyz"), Err(ColorError::InvalidHex));
    assert_eq!(Color::from_str("#-12"), Err(ColorError::InvalidHex));
    assert_eq!(Color::from_str("# 12"), Err(ColorError::InvalidHex));
    assert_eq!(Color::from_str("#123456789"), Err(ColorError::InvalidHex));
    assert_eq!(Color::from_str("#1"), Err(ColorError::WrongLength(1)));
    assert_eq!(Color::from_str("#1234"), Err(ColorError::WrongLength(4)));
    assert_eq!(Color::from_str("#1234567"), Err(ColorError::WrongLength(7)));
}

#[test]
fn colors_have_channel_placeholders() {
    let color = Color::new_rgba(17, 51, 85, 255);
    assert_eq!(color.typename(), "color");
    assert_eq!(color.default_fmtstr(), "#{rx}{gx}{bx}{ax}");
    assert_eq!(color.get_placeholder("r"), Some(FmtValue::Int(17)));
    assert_eq!(color.get_placeholder("a"), Some(FmtValue::Int(255)));
    assert_eq!(
        color.get_placeholder("gx"),
        Some(FmtValue::String("33".to_string()))
    );
    assert_eq!(color.get_placeholder("x"), None);
    assert_eq!(
        color
            .format(Some("r={r}; g={g}; b={b}; a={a}; rx={rx}; gx={gx}; bx={bx}; ax={ax}"))
            .unwrap(),
        "r=17; g=51; b=85; a=255; rx=11; gx=33; bx=55; ax=ff"
    );
    assert_eq!(color.display().unwrap(), "#113355ff");
}

#[test]
fn colors_render_in_templates() {
    let mut template: Template = "{{color}}".parse().unwrap();
    let value = Value::Dict(vec![(
        "color".to_string(),
        Value::Fmt(Box::new(Color::new_rgba(1, 2, 3, 4))),
    )]);
    assert_eq!(template.render(&value).unwrap(), "#01020304");
    template.set_format("color".to_string(), "rgb({r}, {g}, {b})".to_string());
    assert_eq!(template.render(&value).unwrap(), "rgb(1, 2, 3)");
}

fn words(alphabet: &[char], longest: usize) -> Vec<String> {
    let mut all = vec![String::new()];
    let mut last = vec![String::new()];
    for _ in 0..longest {
        let mut next = Vec::new();
        for word in &last {
            for c in alphabet {
                let mut longer = word.clone();
                longer.push(*c);
                next.push(longer);
            }
        }
        all.extend(next.iter().cloned());
        last = next;
    }
    all
}

fn color_by_the_standard_library(s: &str) -> Result<Color, ColorError> {
    let Some(s) = s.strip_prefix('#') else {
        return Err(ColorError::MissingHash);
    };
    let Ok(parsed_num) = u32::from_str_radix(s, 16) else {
        return Err(ColorError::InvalidHex);
    };
    let col: u32 = match s.len() {
        3 => (parsed_num << 20) | (parsed_num << 8) | 0xff,
        6 => parsed_num << 8 | 0xff,
        8 => parsed_num,
        len => return Err(ColorError::WrongLength(len)),
    };
    Ok(Color::from(col))
}

#[test]
fn colors_parse_as_hexadecimal_numbers_of_the_standard_library() {
    for word in words(&['#', '+', '-', '0', '9', 'a', 'F', 'g', ' '], 5) {
        assert_eq!(
            Color::from_str(&word),
            color_by_the_standard_library(&word),
            "{word:?}"
        );
    }
    for word in [
        "#ffffffff",
        "#+fffffff",
        "#100000000",
        "#0000000000",
        "#+0000000",
        "#fffffffff",
        "#é",
        "#12345é",
        "#١٢٣",
        "#abcdefab",
        "#ABCDEFAB",
    ] {
        assert_eq!(
            Color::from_str(word),
            color_by_the_standard_library(word),
            "{word:?}"
        );
    }
}

#[test]
fn format_color() {
    let color = Color::new_rgba(17, 51, 85, 255);
    let result = color
        .format(Some(
            "r={r}; g={g}; b={b}; a={a}; rx={rx}; gx={gx}; bx={bx}; ax={ax}",
        ))
        .unwrap();
    assert_eq!(
        result,
        "r=17; g=51; b=85; a=255; rx=11; gx=33; bx=55; ax=ff"
    )
}
