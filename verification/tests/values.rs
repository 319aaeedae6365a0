use cssengine::color::{Palette, PaletteEntry};
use cssengine::numbers::MICROS;
use cssengine::values::{parse_border, parse_box_shadow, parse_box_shadow_2, parse_box_shadow_5,
    parse_cursor_style, parse_display, parse_duration, parse_font_style, parse_font_weight,
    parse_gap, parse_pct, parse_px, parse_pxpctauto, parse_text_overflow, parse_transition,
    parse_user_select};
use cssengine::{BorderDef, CursorIcon, Display, Pct, Px, PxPct, PxPctAuto, Rgba, Style,
    TextOverflow, Weight};

#[test]
fn duration() {
    let sec = parse_duration("1s").unwrap();
    assert!(sec == 1000);
    let tenth_sec = parse_duration("0.1s").unwrap();
    assert!(tenth_sec == 100);
    let ms = parse_duration("150ms").unwrap();
    assert!(ms == 150);
    // This should fail
    let value = parse_duration("1");
    assert!(value.is_none());
}

#[test]
fn border() {
    let pal = Palette::empty();
    let v = parse_border("10px", &pal).unwrap();
    assert!(v == BorderDef { width: Some(PxPct::Px(10 * MICROS)), color: None });
    let v = parse_border("10px red", &pal).unwrap();
    assert!(
        v == BorderDef {
            width: Some(PxPct::Px(10 * MICROS)),
            color: Some(Rgba { r: 255, g: 0, b: 0, a: 255 })
        }
    );
    let v = parse_border("red", &pal).unwrap();
    assert!(v == BorderDef { width: None, color: Some(Rgba { r: 255, g: 0, b: 0, a: 255 }) });
}

#[test]
fn box_shadow_5() {
    let pal = Palette::empty();
    let v = parse_box_shadow_5(["4px", "8px", "10px", "15px", "black"], &pal).unwrap();
    assert!(v.h_offset == PxPct::Px(4 * MICROS));
    assert!(v.v_offset == PxPct::Px(8 * MICROS));
    assert!(v.blur_radius == PxPct::Px(10 * MICROS));
    assert!(v.spread == PxPct::Px(15 * MICROS));
    assert!(v.color == Rgba { r: 0, g: 0, b: 0, a: 255 });
    let v = parse_box_shadow_5(["green", "4px", "8px", "10px", "15px"], &pal).unwrap();
    println!("{v:?}");
    assert!(v.h_offset == PxPct::Px(4 * MICROS));
    assert!(v.v_offset == PxPct::Px(8 * MICROS));
    assert!(v.blur_radius == PxPct::Px(10 * MICROS));
    assert!(v.spread == PxPct::Px(15 * MICROS));
    assert!(v.color == Rgba { r: 0, g: 128, b: 0, a: 255 });
}

#[test]
fn box_shadow_disambiguation() {
    let pal = Palette::empty();
    // five tokens: offsets, blur, spread, color
    let v = parse_box_shadow("4px 8px 10px 15px black", &pal).unwrap();
    assert_eq!(v.h_offset, PxPct::Px(4 * MICROS));
    assert_eq!(v.v_offset, PxPct::Px(8 * MICROS));
    assert_eq!(v.blur_radius, PxPct::Px(10 * MICROS));
    assert_eq!(v.spread, PxPct::Px(15 * MICROS));
    assert_eq!(v.color, Rgba { r: 0, g: 0, b: 0, a: 255 });
    // color first, spread defaulted
    let v = parse_box_shadow("black 4px 8px 10px", &pal).unwrap();
    assert_eq!(v.h_offset, PxPct::Px(4 * MICROS));
    assert_eq!(v.v_offset, PxPct::Px(8 * MICROS));
    assert_eq!(v.blur_radius, PxPct::Px(10 * MICROS));
    assert_eq!(v.spread, PxPct::Px(0));
    assert_eq!(v.color, Rgba { r: 0, g: 0, b: 0, a: 255 });
    // no shadow at all
    assert!(parse_box_shadow("none", &pal).is_none());
}

#[test]
fn box_shadow_short_forms() {
    let pal = Palette::empty();
    // two tokens: offsets only, opaque black default
    let v = parse_box_shadow("4px 8px", &pal).unwrap();
    assert_eq!(v.h_offset, PxPct::Px(4 * MICROS));
    assert_eq!(v.v_offset, PxPct::Px(8 * MICROS));
    assert_eq!(v.blur_radius, PxPct::Px(0));
    assert_eq!(v.spread, PxPct::Px(0));
    assert_eq!(v.color, Rgba { r: 0, g: 0, b: 0, a: 255 });
    let direct = parse_box_shadow_2(["4px", "8px"]).unwrap();
    assert_eq!(direct, v);
    // three tokens, all lengths: offsets and blur
    let v = parse_box_shadow("1px 2px 3px", &pal).unwrap();
    assert_eq!(v.blur_radius, PxPct::Px(3 * MICROS));
    assert_eq!(v.spread, PxPct::Px(0));
    // three tokens with a trailing color
    let v = parse_box_shadow("1px 2px red", &pal).unwrap();
    assert_eq!(v.color, Rgba { r: 255, g: 0, b: 0, a: 255 });
    assert_eq!(v.blur_radius, PxPct::Px(0));
    // four tokens, all lengths: offsets, blur, spread
    let v = parse_box_shadow("1px 2px 3px 4px", &pal).unwrap();
    assert_eq!(v.spread, PxPct::Px(4 * MICROS));
    // doubled spaces split an empty part and fail
    assert!(parse_box_shadow("4px  8px", &pal).is_none());
}

#[test]
fn lengths() {
    assert_eq!(parse_px("10px"), Some(Px(10 * MICROS)));
    assert_eq!(parse_px("1.5px"), Some(Px(1_500_000)));
    assert_eq!(parse_px("10 px"), Some(Px(10 * MICROS)));
    assert_eq!(parse_px(" 10px"), None);
    assert_eq!(parse_px("10"), None);
    assert_eq!(parse_px("-2px"), Some(Px(-2 * MICROS)));
    assert_eq!(parse_pct("50%"), Some(Pct(50 * MICROS)));
    assert_eq!(parse_pct("50"), None);
    assert_eq!(parse_pxpctauto("auto"), Some(PxPctAuto::Auto));
    assert_eq!(parse_pxpctauto("3px"), Some(PxPctAuto::Px(3 * MICROS)));
    assert_eq!(parse_pxpctauto("30%"), Some(PxPctAuto::Pct(30 * MICROS)));
    assert_eq!(parse_pxpctauto("wide"), None);
}

#[test]
fn integers() {
    assert_eq!(cssengine::numbers::parse_i32("42"), Some(42));
    assert_eq!(cssengine::numbers::parse_i32("-7"), Some(-7));
    assert_eq!(cssengine::numbers::parse_i32("+9"), Some(9));
    assert_eq!(cssengine::numbers::parse_i32("2147483647"), Some(2147483647));
    assert_eq!(cssengine::numbers::parse_i32("2147483648"), None);
    assert_eq!(cssengine::numbers::parse_i32("-2147483648"), Some(-2147483648));
    assert_eq!(cssengine::numbers::parse_i32("12a"), None);
    assert_eq!(cssengine::numbers::parse_i32(""), None);
}

#[test]
fn gap_values() {
    assert_eq!(
        parse_gap("5px 10px"),
        Some((PxPct::Px(5 * MICROS), Some(PxPct::Px(10 * MICROS))))
    );
    assert_eq!(parse_gap("5px bogus"), Some((PxPct::Px(5 * MICROS), None)));
    assert_eq!(parse_gap("5px"), None);
    assert_eq!(parse_gap(""), None);
}

#[test]
fn transitions() {
    let (key, t) = parse_transition("width 150ms").unwrap();
    assert_eq!(key, "width".to_string());
    assert_eq!(t.duration, 150);
    let (_, t) = parse_transition("height 2s").unwrap();
    assert_eq!(t.duration, 2000);
    assert!(parse_transition("width").is_none());
    assert!(parse_transition("width 2").is_none());
}

#[test]
fn keywords() {
    assert_eq!(parse_display("flex"), Some(Display::Flex));
    assert_eq!(parse_display("inline"), None);
    assert_eq!(parse_cursor_style("pointer"), Some(CursorIcon::PointingHand));
    assert_eq!(parse_cursor_style("hand"), None);
    assert_eq!(parse_font_weight("bold"), Some(Weight(700)));
    assert_eq!(parse_font_weight("950"), None);
    assert_eq!(parse_font_style("italic"), Some(Style::Italic));
    assert_eq!(parse_text_overflow("ellipsis"), Some(TextOverflow::Ellipsis));
    assert_eq!(parse_user_select("none"), Some(false));
    assert_eq!(parse_user_select("auto"), Some(true));
    assert_eq!(parse_user_select("all"), None);
}

#[test]
fn colors_through_palette() {
    let pal = Palette::empty();
    // general CSS syntax goes through the parser crate
    assert_eq!(
        cssengine::color::parse_color("#ff0000", &pal),
        Some(Rgba { r: 255, g: 0, b: 0, a: 255 })
    );
    assert_eq!(
        cssengine::color::parse_color("rgb(0, 128, 0)", &pal),
        Some(Rgba { r: 0, g: 128, b: 0, a: 255 })
    );
    assert_eq!(cssengine::color::parse_color("nonsense", &pal), None);
    // the extra named table and the tone table are searched afterwards
    let amber = Rgba { r: 255, g: 251, b: 235, a: 255 };
    let pal = Palette::new(
        vec![("brand".to_string(), Rgba { r: 1, g: 2, b: 3, a: 255 })],
        vec![PaletteEntry { name: "amber".to_string(), tone: 50, color: amber }],
        vec!["amber".to_string()],
    );
    assert_eq!(
        cssengine::color::parse_color("brand", &pal),
        Some(Rgba { r: 1, g: 2, b: 3, a: 255 })
    );
    assert_eq!(cssengine::color::parse_color("amber-50", &pal), Some(amber));
    assert_eq!(cssengine::color::parse_color("amber-51", &pal), None);
}

#[test]
fn duration_edges() {
    assert_eq!(parse_duration("2.5s"), Some(2500));
    // positive but under a millisecond truncates to zero
    assert_eq!(parse_duration("0.0001s"), Some(0));
    assert_eq!(parse_duration("0s"), None);
    assert_eq!(parse_duration("-5s"), None);
    assert_eq!(parse_duration("5m"), None);
    assert_eq!(parse_duration("ms"), None);
    assert_eq!(parse_duration("1.5ms"), None);
}

#[test]
fn huge_numbers_are_rejected() {
    // more than twelve integer digits will not fit the fixed-point range
    assert_eq!(parse_px("10000000000000px"), None);
    assert_eq!(parse_px("999999999999px"), Some(Px(999_999_999_999 * MICROS)));
    // fraction digits past the sixth are truncated
    assert_eq!(parse_px("0.1234567px"), Some(Px(123_456)));
}
