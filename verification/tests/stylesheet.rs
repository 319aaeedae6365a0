use cssengine::color::{Palette, PaletteEntry};
use cssengine::numbers::MICROS;
use cssengine::{analyze, css_query_of, css_to_rules, Declaration, ParseError, PseudoClass, PxPct,
    Rgba, StyleSheet, Transition};

const RED: Rgba = Rgba { r: 255, g: 0, b: 0, a: 255 };
const BLUE: Rgba = Rgba { r: 0, g: 0, b: 255, a: 255 };

fn amber_palette() -> Palette {
    Palette::new(
        Vec::new(),
        vec![
            PaletteEntry {
                name: "amber".to_string(),
                tone: 50,
                color: Rgba { r: 255, g: 251, b: 235, a: 255 },
            },
        ],
        vec!["amber".to_string()],
    )
}

#[test]
fn reparse_is_idempotent() {
    let css = "button { border-radius: 5px; } .my-class { color: red; } #id:hover { width: 10px; }";
    let mut a = StyleSheet::from_css(css);
    let mut b = StyleSheet::from_css(css);
    for q in ["button", ".my-class", "#id", ".missing", "button .my-class"] {
        assert_eq!(a.get_styles(q), b.get_styles(q));
    }
}

#[test]
fn one_bad_declaration_is_tolerated() {
    let css = ".x { color: red; colr: red; background-color: blue; }";
    assert!(analyze(css).is_ok());
    let mut sheet = StyleSheet::from_css(css);
    let groups = sheet.get_styles(".x");
    assert_eq!(groups.len(), 1);
    assert_eq!(
        groups[0].1,
        vec![Declaration::Color(RED), Declaration::BackgroundColor(BLUE)]
    );
    // an unparseable value is dropped the same way an unknown property is
    let css = ".x { color: red; width: banana; background-color: blue; }";
    assert!(analyze(css).is_ok());
    let mut sheet = StyleSheet::from_css(css);
    let groups = sheet.get_styles(".x");
    assert_eq!(groups.len(), 1);
    assert_eq!(groups[0].1.len(), 2);
}

#[test]
fn containment_matching() {
    let css = ".header { color: red; } #counter { background-color: blue; }";
    let mut sheet = StyleSheet::from_css(css);
    let groups = sheet.get_styles("#counter");
    assert_eq!(groups, vec![(None, vec![Declaration::BackgroundColor(BLUE)])]);

    let css = ".my-class { color: red; } #super-id .my-class { background-color: blue; }";
    let mut sheet = StyleSheet::from_css(css);
    // both stored selectors contain a token of this query
    let groups = sheet.get_styles("#super-id .my-class");
    assert_eq!(
        groups,
        vec![(None, vec![Declaration::Color(RED), Declaration::BackgroundColor(BLUE)])]
    );
    // no token of this query occurs in either stored selector
    let groups = sheet.get_styles("#elsewhere");
    assert!(groups.is_empty());
}

#[test]
fn pseudo_class_grouping() {
    let css = "#counter { color: red; } #counter:hover { background-color: blue; }";
    let mut sheet = StyleSheet::from_css(css);
    let groups = sheet.get_styles("#counter");
    assert_eq!(
        groups,
        vec![
            (None, vec![Declaration::Color(RED)]),
            (Some(PseudoClass::Hover), vec![Declaration::BackgroundColor(BLUE)]),
        ]
    );
}

#[test]
fn synthesis_is_memoized() {
    let mut sheet = StyleSheet::from_css_with_palette("", amber_palette());
    assert_eq!(sheet.rules_len(), 0);
    let amber = Rgba { r: 255, g: 251, b: 235, a: 255 };
    let first = sheet.get_styles(".bg-amber-50");
    assert_eq!(first, vec![(None, vec![Declaration::BackgroundColor(amber)])]);
    assert_eq!(sheet.rules_len(), 1);
    let second = sheet.get_styles(".bg-amber-50");
    assert_eq!(second, first);
    // the second query hit the stored entry: no new one was appended
    assert_eq!(sheet.rules_len(), 1);
}

#[test]
fn synthesis_prefixes_and_misses() {
    let mut sheet = StyleSheet::from_css_with_palette("", amber_palette());
    let amber = Rgba { r: 255, g: 251, b: 235, a: 255 };
    assert_eq!(
        sheet.get_styles(".text-amber-50"),
        vec![(None, vec![Declaration::Color(amber)])]
    );
    // unknown base name, missing tone, missing dot: nothing synthesized
    assert!(sheet.get_styles(".bg-teal-50").is_empty());
    assert!(sheet.get_styles(".bg-amber-51").is_empty());
    assert!(sheet.get_styles("bg-amber-50").is_empty());
    // the prefix match is case-sensitive, the rest is lowercased
    assert_eq!(
        sheet.get_styles(".border-AMBER-50"),
        vec![(None, vec![Declaration::BorderColor(amber)])]
    );
}

#[test]
fn end_to_end_example() {
    let css = "button { border-radius: 5px; } .my-class { color: red; background-color: blue; }";
    let mut sheet = StyleSheet::from_css(css);
    let groups = sheet.get_styles("button");
    assert_eq!(
        groups,
        vec![(None, vec![Declaration::BorderRadius(PxPct::Px(5 * MICROS))])]
    );
    let groups = sheet.get_styles(".my-class");
    assert_eq!(
        groups,
        vec![(None, vec![Declaration::Color(RED), Declaration::BackgroundColor(BLUE)])]
    );
    let groups = sheet.get_styles(".other-class");
    assert!(groups.is_empty());
}

#[test]
fn structural_errors_are_collected() {
    let errs = analyze("a { color: red;").unwrap_err();
    assert_eq!(errs.len(), 1);
    assert_eq!(errs[0].message, "unclosed block");

    let errs = analyze("}").unwrap_err();
    assert_eq!(errs[0].message, "unexpected closing brace");
    assert_eq!(errs[0].slice, "}");
    assert_eq!(errs[0].position, 0);

    let errs = analyze("{ color: red; }").unwrap_err();
    assert_eq!(errs[0].message, "selector is empty");

    let errs = analyze("a { b }").unwrap_err();
    assert_eq!(errs[0].message, "expected ':' after property name");
    assert_eq!(errs[0].slice, "b");

    let errs = analyze("a { color: ; }").unwrap_err();
    assert_eq!(errs[0].message, "declaration is missing a value");
    assert_eq!(errs[0].slice, "color");

    assert!(analyze("a { color: red; }").is_ok());
    assert!(css_to_rules("a { color: red;").is_err());
}

#[test]
fn rules_and_variables() {
    let rules = css_to_rules(":root { --main: red; } .a { color: var(--main); }").unwrap();
    assert_eq!(rules.len(), 2);
    assert_eq!(rules[1].selectors.len(), 1);
    assert_eq!(rules[1].selectors[0].selector, ".a");
    assert_eq!(rules[1].props[0].0, "color");
    assert_eq!(rules[1].props[0].1, "red");
    // through the whole pipeline the substituted value types as a color
    let mut sheet = StyleSheet::from_css(":root { --main: red; } .a { color: var(--main); }");
    let groups = sheet.get_styles(".a");
    assert_eq!(groups, vec![(None, vec![Declaration::Color(RED)])]);
    // an undefined reference is left as it stands and fails typing
    let rules = css_to_rules(".a { color: var(--missing); }").unwrap();
    assert_eq!(rules[0].props[0].1, "var(--missing)");
}

#[test]
fn selectors_carry_pseudo_classes() {
    let rules = css_to_rules("#a:hover, .b:active:hover, .c { color: red; }").unwrap();
    assert_eq!(rules.len(), 1);
    let sels = &rules[0].selectors;
    assert_eq!(sels.len(), 3);
    assert_eq!(sels[0].selector, "#a:hover");
    assert_eq!(sels[0].pseudo_class, Some(PseudoClass::Hover));
    assert_eq!(sels[1].pseudo_class, Some(PseudoClass::ActiveHover));
    assert_eq!(sels[2].pseudo_class, None);
}

#[test]
fn comments_are_boundaries() {
    let mut sheet = StyleSheet::from_css("/* heading */ .a { /* c */ color: red; }");
    let groups = sheet.get_styles(".a");
    assert_eq!(groups.len(), 1);
    assert_eq!(groups[0].1, vec![Declaration::Color(RED)]);
}

#[test]
fn font_and_misc_declarations() {
    let css = ".t { font-family: Arial; font-weight: bold; z-index: -3; transition: width 150ms; user-select: none; }";
    let mut sheet = StyleSheet::from_css(css);
    let groups = sheet.get_styles(".t");
    assert_eq!(groups.len(), 1);
    assert_eq!(
        groups[0].1,
        vec![
            Declaration::FontFamily("Arial".to_string()),
            Declaration::FontWeight(cssengine::Weight(700)),
            Declaration::ZIndex(-3),
            Declaration::Transition(("width".to_string(), Transition::new(150))),
            Declaration::UserSelect(false),
        ]
    );
}

#[test]
fn parse_error_record() {
    let e = ParseError::new("bad value".to_string(), "12q".to_string());
    assert_eq!(e.error, "bad value");
    assert_eq!(e.value, "12q");
}

#[test]
fn empty_sheet_constructors() {
    let sheet = StyleSheet::new_const();
    assert_eq!(sheet.rules_len(), 0);
    let mut sheet = StyleSheet::from_css("");
    assert_eq!(sheet.rules_len(), 0);
    assert!(sheet.get_styles(".anything").is_empty());
}

#[test]
fn pseudo_class_suffixes() {
    let rules = css_to_rules(
        "#a::placeholder, #b:focus:hover, #c:disabled, #d::selection { color: red; }",
    )
    .unwrap();
    let sels = &rules[0].selectors;
    assert_eq!(sels[0].pseudo_class, Some(PseudoClass::Placeholder));
    assert_eq!(sels[1].pseudo_class, Some(PseudoClass::FocusHover));
    assert_eq!(sels[2].pseudo_class, Some(PseudoClass::Disabled));
    assert_eq!(sels[3].pseudo_class, Some(PseudoClass::Selection));
}

#[test]
fn query_text_building() {
    assert_eq!(css_query_of(Some("id"), Some("a .b"), "w"), "#id .a.b");
    assert_eq!(css_query_of(Some("id"), None, "w"), "#id");
    assert_eq!(css_query_of(None, Some("cls"), "w"), ".cls");
    assert_eq!(css_query_of(None, None, "widget"), "* widget");
}
