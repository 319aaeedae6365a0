//! Typed declarations and the property table.
//!
//! `from_pair` is the single dispatch point from a raw `(property,
//! value)` pair to a typed declaration: an exact, case-sensitive match on
//! the property name selects the value parser and the variant. Unknown
//! properties and unparseable values yield `None`, never an error.

use vstd::prelude::*;

use crate::animation::Transition;
use crate::chars::str_eq;
use crate::color::{spec_parse_color, parse_color, Palette, PaletteV, Rgba};
use crate::cursor::CursorIcon;
use crate::layout::{AlignContent, AlignItems, Display, FlexDirection, FlexWrap, JustifyContent,
    Position};
use crate::numbers::{spec_parse_i32, spec_parse_micros, parse_i32, parse_micros};
use crate::text::{Style, TextOverflow, Weight};
use crate::unit::{BorderDef, BoxShadow, Px, PxPct, PxPctAuto};
use crate::values::{spec_parse_align_content, spec_parse_align_items, spec_parse_border,
    spec_parse_box_shadow, spec_parse_cursor_style, spec_parse_display, spec_parse_flex_direction,
    spec_parse_flex_wrap, spec_parse_font_style, spec_parse_font_weight, spec_parse_gap,
    spec_parse_justify_content, spec_parse_position, spec_parse_px, spec_parse_px_pct,
    spec_parse_pxpctauto, spec_parse_text_overflow, spec_parse_transition,
    spec_parse_user_select, parse_align_content, parse_align_items, parse_border,
    parse_box_shadow, parse_cursor_style, parse_display, parse_flex_direction, parse_flex_wrap,
    parse_font_style, parse_font_weight, parse_gap, parse_justify_content, parse_position,
    parse_px, parse_px_pct, parse_pxpctauto, parse_text_overflow, parse_transition,
    parse_user_select, to_owned};

verus! {

/// One typed CSS property value. `Reset` stands for the explicit reset
/// written as an empty declaration.
#[derive(Debug, PartialEq)]
pub enum Declaration {
    Reset,
    Display(Display),
    Position(Position),
    Width(PxPctAuto),
    Height(PxPctAuto),
    MinWidth(PxPctAuto),
    MinHeight(PxPctAuto),
    MaxWidth(PxPctAuto),
    MaxHeight(PxPctAuto),
    FlexDirection(FlexDirection),
    FlexWrap(FlexWrap),
    FlexGrow(i64),
    FlexShrink(i64),
    FlexBasis(PxPctAuto),
    JustifyContent(JustifyContent),
    JustifySelf(AlignItems),
    AlignItems(AlignItems),
    AlignContent(AlignContent),
    AlignSelf(AlignItems),
    Border(BorderDef),
    BorderWidth(Px),
    BorderLeft(Px),
    BorderTop(Px),
    BorderRight(Px),
    BorderBottom(Px),
    BorderRadius(PxPct),
    OutlineColor(Rgba),
    Outline(Px),
    BorderColor(Rgba),
    Padding(PxPct),
    PaddingLeft(PxPct),
    PaddingTop(PxPct),
    PaddingRight(PxPct),
    PaddingBottom(PxPct),
    Margin(PxPctAuto),
    MarginLeft(PxPctAuto),
    MarginTop(PxPctAuto),
    MarginRight(PxPctAuto),
    MarginBottom(PxPctAuto),
    InsetLeft(PxPctAuto),
    InsetTop(PxPctAuto),
    InsetRight(PxPctAuto),
    InsetBottom(PxPctAuto),
    ZIndex(i32),
    Cursor(CursorIcon),
    Color(Rgba),
    BackgroundColor(Rgba),
    BoxShadow(BoxShadow),
    FontSize(Px),
    FontFamily(String),
    FontWeight(Weight),
    FontStyle(Style),
    CursorColor(Rgba),
    TextOverflow(TextOverflow),
    LineHeight(i64),
    AspectRatio(i64),
    ColGap(PxPct),
    RowGap(PxPct),
    Gap((PxPct, Option<PxPct>)),
    Transition((String, Transition)),
    UserSelect(bool),
}

/// The mathematical shadow of `Declaration`: owned text becomes
/// `Seq<char>`, everything else is carried unchanged.
pub ghost enum DeclV {
    Reset,
    Display(Display),
    Position(Position),
    Width(PxPctAuto),
    Height(PxPctAuto),
    MinWidth(PxPctAuto),
    MinHeight(PxPctAuto),
    MaxWidth(PxPctAuto),
    MaxHeight(PxPctAuto),
    FlexDirection(FlexDirection),
    FlexWrap(FlexWrap),
    FlexGrow(i64),
    FlexShrink(i64),
    FlexBasis(PxPctAuto),
    JustifyContent(JustifyContent),
    JustifySelf(AlignItems),
    AlignItems(AlignItems),
    AlignContent(AlignContent),
    AlignSelf(AlignItems),
    Border(BorderDef),
    BorderWidth(Px),
    BorderLeft(Px),
    BorderTop(Px),
    BorderRight(Px),
    BorderBottom(Px),
    BorderRadius(PxPct),
    OutlineColor(Rgba),
    Outline(Px),
    BorderColor(Rgba),
    Padding(PxPct),
    PaddingLeft(PxPct),
    PaddingTop(PxPct),
    PaddingRight(PxPct),
    PaddingBottom(PxPct),
    Margin(PxPctAuto),
    MarginLeft(PxPctAuto),
    MarginTop(PxPctAuto),
    MarginRight(PxPctAuto),
    MarginBottom(PxPctAuto),
    InsetLeft(PxPctAuto),
    InsetTop(PxPctAuto),
    InsetRight(PxPctAuto),
    InsetBottom(PxPctAuto),
    ZIndex(i32),
    Cursor(CursorIcon),
    Color(Rgba),
    BackgroundColor(Rgba),
    BoxShadow(BoxShadow),
    FontSize(Px),
    FontFamily(Seq<char>),
    FontWeight(Weight),
    FontStyle(Style),
    CursorColor(Rgba),
    TextOverflow(TextOverflow),
    LineHeight(i64),
    AspectRatio(i64),
    ColGap(PxPct),
    RowGap(PxPct),
    Gap((PxPct, Option<PxPct>)),
    Transition((Seq<char>, Transition)),
    UserSelect(bool),
}

impl View for Declaration {
    type V = DeclV;

    open spec fn view(&self) -> DeclV {
        match self {
            Declaration::Reset => DeclV::Reset,
                Declaration::Display(v) => DeclV::Display(*v),
                Declaration::Position(v) => DeclV::Position(*v),
                Declaration::Width(v) => DeclV::Width(*v),
                Declaration::Height(v) => DeclV::Height(*v),
                Declaration::MinWidth(v) => DeclV::MinWidth(*v),
                Declaration::MinHeight(v) => DeclV::MinHeight(*v),
                Declaration::MaxWidth(v) => DeclV::MaxWidth(*v),
                Declaration::MaxHeight(v) => DeclV::MaxHeight(*v),
                Declaration::FlexDirection(v) => DeclV::FlexDirection(*v),
                Declaration::FlexWrap(v) => DeclV::FlexWrap(*v),
                Declaration::FlexGrow(v) => DeclV::FlexGrow(*v),
                Declaration::FlexShrink(v) => DeclV::FlexShrink(*v),
                Declaration::FlexBasis(v) => DeclV::FlexBasis(*v),
                Declaration::JustifyContent(v) => DeclV::JustifyContent(*v),
                Declaration::JustifySelf(v) => DeclV::JustifySelf(*v),
                Declaration::AlignItems(v) => DeclV::AlignItems(*v),
                Declaration::AlignContent(v) => DeclV::AlignContent(*v),
                Declaration::AlignSelf(v) => DeclV::AlignSelf(*v),
                Declaration::Border(v) => DeclV::Border(*v),
                Declaration::BorderWidth(v) => DeclV::BorderWidth(*v),
                Declaration::BorderLeft(v) => DeclV::BorderLeft(*v),
                Declaration::BorderTop(v) => DeclV::BorderTop(*v),
                Declaration::BorderRight(v) => DeclV::BorderRight(*v),
                Declaration::BorderBottom(v) => DeclV::BorderBottom(*v),
                Declaration::BorderRadius(v) => DeclV::BorderRadius(*v),
                Declaration::OutlineColor(v) => DeclV::OutlineColor(*v),
                Declaration::Outline(v) => DeclV::Outline(*v),
                Declaration::BorderColor(v) => DeclV::BorderColor(*v),
                Declaration::Padding(v) => DeclV::Padding(*v),
                Declaration::PaddingLeft(v) => DeclV::PaddingLeft(*v),
                Declaration::PaddingTop(v) => DeclV::PaddingTop(*v),
                Declaration::PaddingRight(v) => DeclV::PaddingRight(*v),
                Declaration::PaddingBottom(v) => DeclV::PaddingBottom(*v),
                Declaration::Margin(v) => DeclV::Margin(*v),
                Declaration::MarginLeft(v) => DeclV::MarginLeft(*v),
                Declaration::MarginTop(v) => DeclV::MarginTop(*v),
                Declaration::MarginRight(v) => DeclV::MarginRight(*v),
                Declaration::MarginBottom(v) => DeclV::MarginBottom(*v),
                Declaration::InsetLeft(v) => DeclV::InsetLeft(*v),
                Declaration::InsetTop(v) => DeclV::InsetTop(*v),
                Declaration::InsetRight(v) => DeclV::InsetRight(*v),
                Declaration::InsetBottom(v) => DeclV::InsetBottom(*v),
                Declaration::ZIndex(v) => DeclV::ZIndex(*v),
                Declaration::Cursor(v) => DeclV::Cursor(*v),
                Declaration::Color(v) => DeclV::Color(*v),
                Declaration::BackgroundColor(v) => DeclV::BackgroundColor(*v),
                Declaration::BoxShadow(v) => DeclV::BoxShadow(*v),
                Declaration::FontSize(v) => DeclV::FontSize(*v),
                Declaration::FontFamily(v) => DeclV::FontFamily(v@),
                Declaration::FontWeight(v) => DeclV::FontWeight(*v),
                Declaration::FontStyle(v) => DeclV::FontStyle(*v),
                Declaration::CursorColor(v) => DeclV::CursorColor(*v),
                Declaration::TextOverflow(v) => DeclV::TextOverflow(*v),
                Declaration::LineHeight(v) => DeclV::LineHeight(*v),
                Declaration::AspectRatio(v) => DeclV::AspectRatio(*v),
                Declaration::ColGap(v) => DeclV::ColGap(*v),
                Declaration::RowGap(v) => DeclV::RowGap(*v),
                Declaration::Gap(v) => DeclV::Gap(*v),
                Declaration::Transition(v) => DeclV::Transition((v.0@, v.1)),
                Declaration::UserSelect(v) => DeclV::UserSelect(*v),
        }
    }
}

impl DeepView for Declaration {
    type V = DeclV;

    open spec fn deep_view(&self) -> DeclV {
        self.view()
    }
}

impl Clone for Declaration {
    fn clone(&self) -> (r: Self)
        ensures
            r == *self,
    {
        match self {
            Declaration::Reset => Declaration::Reset,
                Declaration::Display(v) => Declaration::Display(*v),
                Declaration::Position(v) => Declaration::Position(*v),
                Declaration::Width(v) => Declaration::Width(*v),
                Declaration::Height(v) => Declaration::Height(*v),
                Declaration::MinWidth(v) => Declaration::MinWidth(*v),
                Declaration::MinHeight(v) => Declaration::MinHeight(*v),
                Declaration::MaxWidth(v) => Declaration::MaxWidth(*v),
                Declaration::MaxHeight(v) => Declaration::MaxHeight(*v),
                Declaration::FlexDirection(v) => Declaration::FlexDirection(*v),
                Declaration::FlexWrap(v) => Declaration::FlexWrap(*v),
                Declaration::FlexGrow(v) => Declaration::FlexGrow(*v),
                Declaration::FlexShrink(v) => Declaration::FlexShrink(*v),
                Declaration::FlexBasis(v) => Declaration::FlexBasis(*v),
                Declaration::JustifyContent(v) => Declaration::JustifyContent(*v),
                Declaration::JustifySelf(v) => Declaration::JustifySelf(*v),
                Declaration::AlignItems(v) => Declaration::AlignItems(*v),
                Declaration::AlignContent(v) => Declaration::AlignContent(*v),
                Declaration::AlignSelf(v) => Declaration::AlignSelf(*v),
                Declaration::Border(v) => Declaration::Border(*v),
                Declaration::BorderWidth(v) => Declaration::BorderWidth(*v),
                Declaration::BorderLeft(v) => Declaration::BorderLeft(*v),
                Declaration::BorderTop(v) => Declaration::BorderTop(*v),
                Declaration::BorderRight(v) => Declaration::BorderRight(*v),
                Declaration::BorderBottom(v) => Declaration::BorderBottom(*v),
                Declaration::BorderRadius(v) => Declaration::BorderRadius(*v),
                Declaration::OutlineColor(v) => Declaration::OutlineColor(*v),
                Declaration::Outline(v) => Declaration::Outline(*v),
                Declaration::BorderColor(v) => Declaration::BorderColor(*v),
                Declaration::Padding(v) => Declaration::Padding(*v),
                Declaration::PaddingLeft(v) => Declaration::PaddingLeft(*v),
                Declaration::PaddingTop(v) => Declaration::PaddingTop(*v),
                Declaration::PaddingRight(v) => Declaration::PaddingRight(*v),
                Declaration::PaddingBottom(v) => Declaration::PaddingBottom(*v),
                Declaration::Margin(v) => Declaration::Margin(*v),
                Declaration::MarginLeft(v) => Declaration::MarginLeft(*v),
                Declaration::MarginTop(v) => Declaration::MarginTop(*v),
                Declaration::MarginRight(v) => Declaration::MarginRight(*v),
                Declaration::MarginBottom(v) => Declaration::MarginBottom(*v),
                Declaration::InsetLeft(v) => Declaration::InsetLeft(*v),
                Declaration::InsetTop(v) => Declaration::InsetTop(*v),
                Declaration::InsetRight(v) => Declaration::InsetRight(*v),
                Declaration::InsetBottom(v) => Declaration::InsetBottom(*v),
                Declaration::ZIndex(v) => Declaration::ZIndex(*v),
                Declaration::Cursor(v) => Declaration::Cursor(*v),
                Declaration::Color(v) => Declaration::Color(*v),
                Declaration::BackgroundColor(v) => Declaration::BackgroundColor(*v),
                Declaration::BoxShadow(v) => Declaration::BoxShadow(*v),
                Declaration::FontSize(v) => Declaration::FontSize(*v),
                Declaration::FontFamily(v) => Declaration::FontFamily(v.clone()),
                Declaration::FontWeight(v) => Declaration::FontWeight(*v),
                Declaration::FontStyle(v) => Declaration::FontStyle(*v),
                Declaration::CursorColor(v) => Declaration::CursorColor(*v),
                Declaration::TextOverflow(v) => Declaration::TextOverflow(*v),
                Declaration::LineHeight(v) => Declaration::LineHeight(*v),
                Declaration::AspectRatio(v) => Declaration::AspectRatio(*v),
                Declaration::ColGap(v) => Declaration::ColGap(*v),
                Declaration::RowGap(v) => Declaration::RowGap(*v),
                Declaration::Gap(v) => Declaration::Gap(*v),
                Declaration::Transition(v) => Declaration::Transition((v.0.clone(), v.1)),
                Declaration::UserSelect(v) => Declaration::UserSelect(*v),
        }
    }
}

impl Default for Declaration {
    fn default() -> (r: Self)
        ensures
            r == Declaration::Reset,
    {
        Declaration::Reset
    }
}

/// The property table: which typed declaration a raw `(property, value)`
/// pair produces, if any.
pub open spec fn spec_from_pair(key: Seq<char>, value: Seq<char>, pal: PaletteV) -> Option<DeclV> {
    if key == "display"@ {
        match spec_parse_display(value) {
            Some(v) => Some(DeclV::Display(v)),
            None => None,
        }
    } else if key == "position"@ {
        match spec_parse_position(value) {
            Some(v) => Some(DeclV::Position(v)),
            None => None,
        }
    } else if key == "width"@ {
        match spec_parse_pxpctauto(value) {
            Some(v) => Some(DeclV::Width(v)),
            None => None,
        }
    } else if key == "height"@ {
        match spec_parse_pxpctauto(value) {
            Some(v) => Some(DeclV::Height(v)),
            None => None,
        }
    } else if key == "min-width"@ {
        match spec_parse_pxpctauto(value) {
            Some(v) => Some(DeclV::MinWidth(v)),
            None => None,
        }
    } else if key == "min-height"@ {
        match spec_parse_pxpctauto(value) {
            Some(v) => Some(DeclV::MinHeight(v)),
            None => None,
        }
    } else if key == "max-width"@ {
        match spec_parse_pxpctauto(value) {
            Some(v) => Some(DeclV::MaxWidth(v)),
            None => None,
        }
    } else if key == "max-height"@ {
        match spec_parse_pxpctauto(value) {
            Some(v) => Some(DeclV::MaxHeight(v)),
            None => None,
        }
    } else if key == "flex-direction"@ {
        match spec_parse_flex_direction(value) {
            Some(v) => Some(DeclV::FlexDirection(v)),
            None => None,
        }
    } else if key == "flex-wrap"@ {
        match spec_parse_flex_wrap(value) {
            Some(v) => Some(DeclV::FlexWrap(v)),
            None => None,
        }
    } else if key == "flex-grow"@ {
        match spec_parse_micros(value) {
            Some(v) => Some(DeclV::FlexGrow(v)),
            None => None,
        }
    } else if key == "flex-shrink"@ {
        match spec_parse_micros(value) {
            Some(v) => Some(DeclV::FlexShrink(v)),
            None => None,
        }
    } else if key == "flex-basis"@ {
        match spec_parse_pxpctauto(value) {
            Some(v) => Some(DeclV::FlexBasis(v)),
            None => None,
        }
    } else if key == "justify-content"@ {
        match spec_parse_justify_content(value) {
            Some(v) => Some(DeclV::JustifyContent(v)),
            None => None,
        }
    } else if key == "justify-self"@ {
        match spec_parse_align_items(value) {
            Some(v) => Some(DeclV::JustifySelf(v)),
            None => None,
        }
    } else if key == "align-items"@ {
        match spec_parse_align_items(value) {
            Some(v) => Some(DeclV::AlignItems(v)),
            None => None,
        }
    } else if key == "align-content"@ {
        match spec_parse_align_content(value) {
            Some(v) => Some(DeclV::AlignContent(v)),
            None => None,
        }
    } else if key == "align-self"@ {
        match spec_parse_align_items(value) {
            Some(v) => Some(DeclV::AlignSelf(v)),
            None => None,
        }
    } else if key == "border"@ {
        match spec_parse_border(value, pal) {
            Some(v) => Some(DeclV::Border(v)),
            None => None,
        }
    } else if key == "border-width"@ {
        match spec_parse_px(value) {
            Some(v) => Some(DeclV::BorderWidth(v)),
            None => None,
        }
    } else if key == "border-left"@ {
        match spec_parse_px(value) {
            Some(v) => Some(DeclV::BorderLeft(v)),
            None => None,
        }
    } else if key == "border-top"@ {
        match spec_parse_px(value) {
            Some(v) => Some(DeclV::BorderTop(v)),
            None => None,
        }
    } else if key == "border-right"@ {
        match spec_parse_px(value) {
            Some(v) => Some(DeclV::BorderRight(v)),
            None => None,
        }
    } else if key == "border-bottom"@ {
        match spec_parse_px(value) {
            Some(v) => Some(DeclV::BorderBottom(v)),
            None => None,
        }
    } else if key == "border-radius"@ {
        match spec_parse_px_pct(value) {
            Some(v) => Some(DeclV::BorderRadius(v)),
            None => None,
        }
    } else if key == "outline-color"@ {
        match spec_parse_color(value, pal) {
            Some(v) => Some(DeclV::OutlineColor(v)),
            None => None,
        }
    } else if key == "outline"@ {
        match spec_parse_px(value) {
            Some(v) => Some(DeclV::Outline(v)),
            None => None,
        }
    } else if key == "border-color"@ {
        match spec_parse_color(value, pal) {
            Some(v) => Some(DeclV::BorderColor(v)),
            None => None,
        }
    } else if key == "padding"@ {
        match spec_parse_px_pct(value) {
            Some(v) => Some(DeclV::Padding(v)),
            None => None,
        }
    } else if key == "padding-left"@ {
        match spec_parse_px_pct(value) {
            Some(v) => Some(DeclV::PaddingLeft(v)),
            None => None,
        }
    } else if key == "padding-top"@ {
        match spec_parse_px_pct(value) {
            Some(v) => Some(DeclV::PaddingTop(v)),
            None => None,
        }
    } else if key == "padding-right"@ {
        match spec_parse_px_pct(value) {
            Some(v) => Some(DeclV::PaddingRight(v)),
            None => None,
        }
    } else if key == "padding-bottom"@ {
        match spec_parse_px_pct(value) {
            Some(v) => Some(DeclV::PaddingBottom(v)),
            None => None,
        }
    } else if key == "margin"@ {
        match spec_parse_pxpctauto(value) {
            Some(v) => Some(DeclV::Margin(v)),
            None => None,
        }
    } else if key == "margin-left"@ {
        match spec_parse_pxpctauto(value) {
            Some(v) => Some(DeclV::MarginLeft(v)),
            None => None,
        }
    } else if key == "margin-top"@ {
        match spec_parse_pxpctauto(value) {
            Some(v) => Some(DeclV::MarginTop(v)),
            None => None,
        }
    } else if key == "margin-right"@ {
        match spec_parse_pxpctauto(value) {
            Some(v) => Some(DeclV::MarginRight(v)),
            None => None,
        }
    } else if key == "margin-bottom"@ {
        match spec_parse_pxpctauto(value) {
            Some(v) => Some(DeclV::MarginBottom(v)),
            None => None,
        }
    } else if key == "left"@ {
        match spec_parse_pxpctauto(value) {
            Some(v) => Some(DeclV::InsetLeft(v)),
            None => None,
        }
    } else if key == "top"@ {
        match spec_parse_pxpctauto(value) {
            Some(v) => Some(DeclV::InsetTop(v)),
            None => None,
        }
    } else if key == "right"@ {
        match spec_parse_pxpctauto(value) {
            Some(v) => Some(DeclV::InsetRight(v)),
            None => None,
        }
    } else if key == "bottom"@ {
        match spec_parse_pxpctauto(value) {
            Some(v) => Some(DeclV::InsetBottom(v)),
            None => None,
        }
    } else if key == "z-index"@ {
        match spec_parse_i32(value) {
            Some(v) => Some(DeclV::ZIndex(v)),
            None => None,
        }
    } else if key == "cursor"@ {
        match spec_parse_cursor_style(value) {
            Some(v) => Some(DeclV::Cursor(v)),
            None => None,
        }
    } else if key == "color"@ {
        match spec_parse_color(value, pal) {
            Some(v) => Some(DeclV::Color(v)),
            None => None,
        }
    } else if key == "background-color"@ {
        match spec_parse_color(value, pal) {
            Some(v) => Some(DeclV::BackgroundColor(v)),
            None => None,
        }
    } else if key == "box-shadow"@ {
        match spec_parse_box_shadow(value, pal) {
            Some(v) => Some(DeclV::BoxShadow(v)),
            None => None,
        }
    } else if key == "font-size"@ {
        match spec_parse_px(value) {
            Some(v) => Some(DeclV::FontSize(v)),
            None => None,
        }
    } else if key == "font-family"@ {
        Some(DeclV::FontFamily(value))
    } else if key == "font-weight"@ {
        match spec_parse_font_weight(value) {
            Some(v) => Some(DeclV::FontWeight(v)),
            None => None,
        }
    } else if key == "font-style"@ {
        match spec_parse_font_style(value) {
            Some(v) => Some(DeclV::FontStyle(v)),
            None => None,
        }
    } else if key == "caret-color"@ {
        match spec_parse_color(value, pal) {
            Some(v) => Some(DeclV::CursorColor(v)),
            None => None,
        }
    } else if key == "text-wrap"@ {
        match spec_parse_text_overflow(value) {
            Some(v) => Some(DeclV::TextOverflow(v)),
            None => None,
        }
    } else if key == "line-height"@ {
        match spec_parse_micros(value) {
            Some(v) => Some(DeclV::LineHeight(v)),
            None => None,
        }
    } else if key == "aspect-ratio"@ {
        match spec_parse_micros(value) {
            Some(v) => Some(DeclV::AspectRatio(v)),
            None => None,
        }
    } else if key == "column-gap"@ {
        match spec_parse_px_pct(value) {
            Some(v) => Some(DeclV::ColGap(v)),
            None => None,
        }
    } else if key == "row-gap"@ {
        match spec_parse_px_pct(value) {
            Some(v) => Some(DeclV::RowGap(v)),
            None => None,
        }
    } else if key == "gap"@ {
        match spec_parse_gap(value) {
            Some(v) => Some(DeclV::Gap(v)),
            None => None,
        }
    } else if key == "transition"@ {
        match spec_parse_transition(value) {
            Some(p) => Some(DeclV::Transition(p)),
            None => None,
        }
    } else if key == "user-select"@ {
        match spec_parse_user_select(value) {
            Some(v) => Some(DeclV::UserSelect(v)),
            None => None,
        }
    } else {
        None
    }
}

impl Declaration {
    /// Types one raw pair, proved against `spec_from_pair`.
    pub fn from_pair(key: &str, value: &str, palette: &Palette) -> (r: Option<Declaration>)
        ensures
            match r {
                Some(d) => spec_from_pair(key@, value@, palette@) == Some(d@),
                None => spec_from_pair(key@, value@, palette@) is None,
            },
    {
    if str_eq(key, "display") {
        match parse_display(value) {
            Some(v) => Some(Declaration::Display(v)),
            None => None,
        }
    } else if str_eq(key, "position") {
        match parse_position(value) {
            Some(v) => Some(Declaration::Position(v)),
            None => None,
        }
    } else if str_eq(key, "width") {
        match parse_pxpctauto(value) {
            Some(v) => Some(Declaration::Width(v)),
            None => None,
        }
    } else if str_eq(key, "height") {
        match parse_pxpctauto(value) {
            Some(v) => Some(Declaration::Height(v)),
            None => None,
        }
    } else if str_eq(key, "min-width") {
        match parse_pxpctauto(value) {
            Some(v) => Some(Declaration::MinWidth(v)),
            None => None,
        }
    } else if str_eq(key, "min-height") {
        match parse_pxpctauto(value) {
            Some(v) => Some(Declaration::MinHeight(v)),
            None => None,
        }
    } else if str_eq(key, "max-width") {
        match parse_pxpctauto(value) {
            Some(v) => Some(Declaration::MaxWidth(v)),
            None => None,
        }
    } else if str_eq(key, "max-height") {
        match parse_pxpctauto(value) {
            Some(v) => Some(Declaration::MaxHeight(v)),
            None => None,
        }
    } else if str_eq(key, "flex-direction") {
        match parse_flex_direction(value) {
            Some(v) => Some(Declaration::FlexDirection(v)),
            None => None,
        }
    } else if str_eq(key, "flex-wrap") {
        match parse_flex_wrap(value) {
            Some(v) => Some(Declaration::FlexWrap(v)),
            None => None,
        }
    } else if str_eq(key, "flex-grow") {
        match parse_micros(value) {
            Some(v) => Some(Declaration::FlexGrow(v)),
            None => None,
        }
    } else if str_eq(key, "flex-shrink") {
        match parse_micros(value) {
            Some(v) => Some(Declaration::FlexShrink(v)),
            None => None,
        }
    } else if str_eq(key, "flex-basis") {
        match parse_pxpctauto(value) {
            Some(v) => Some(Declaration::FlexBasis(v)),
            None => None,
        }
    } else if str_eq(key, "justify-content") {
        match parse_justify_content(value) {
            Some(v) => Some(Declaration::JustifyContent(v)),
            None => None,
        }
    } else if str_eq(key, "justify-self") {
        match parse_align_items(value) {
            Some(v) => Some(Declaration::JustifySelf(v)),
            None => None,
        }
    } else if str_eq(key, "align-items") {
        match parse_align_items(value) {
            Some(v) => Some(Declaration::AlignItems(v)),
            None => None,
        }
    } else if str_eq(key, "align-content") {
        match parse_align_content(value) {
            Some(v) => Some(Declaration::AlignContent(v)),
            None => None,
        }
    } else if str_eq(key, "align-self") {
        match parse_align_items(value) {
            Some(v) => Some(Declaration::AlignSelf(v)),
            None => None,
        }
    } else if str_eq(key, "border") {
        match parse_border(value, palette) {
            Some(v) => Some(Declaration::Border(v)),
            None => None,
        }
    } else if str_eq(key, "border-width") {
        match parse_px(value) {
            Some(v) => Some(Declaration::BorderWidth(v)),
            None => None,
        }
    } else if str_eq(key, "border-left") {
        match parse_px(value) {
            Some(v) => Some(Declaration::BorderLeft(v)),
            None => None,
        }
    } else if str_eq(key, "border-top") {
        match parse_px(value) {
            Some(v) => Some(Declaration::BorderTop(v)),
            None => None,
        }
    } else if str_eq(key, "border-right") {
        match parse_px(value) {
            Some(v) => Some(Declaration::BorderRight(v)),
            None => None,
        }
    } else if str_eq(key, "border-bottom") {
        match parse_px(value) {
            Some(v) => Some(Declaration::BorderBottom(v)),
            None => None,
        }
    } else if str_eq(key, "border-radius") {
        match parse_px_pct(value) {
            Some(v) => Some(Declaration::BorderRadius(v)),
            None => None,
        }
    } else if str_eq(key, "outline-color") {
        match parse_color(value, palette) {
            Some(v) => Some(Declaration::OutlineColor(v)),
            None => None,
        }
    } else if str_eq(key, "outline") {
        match parse_px(value) {
            Some(v) => Some(Declaration::Outline(v)),
            None => None,
        }
    } else if str_eq(key, "border-color") {
        match parse_color(value, palette) {
            Some(v) => Some(Declaration::BorderColor(v)),
            None => None,
        }
    } else if str_eq(key, "padding") {
        match parse_px_pct(value) {
            Some(v) => Some(Declaration::Padding(v)),
            None => None,
        }
    } else if str_eq(key, "padding-left") {
        match parse_px_pct(value) {
            Some(v) => Some(Declaration::PaddingLeft(v)),
            None => None,
        }
    } else if str_eq(key, "padding-top") {
        match parse_px_pct(value) {
            Some(v) => Some(Declaration::PaddingTop(v)),
            None => None,
        }
    } else if str_eq(key, "padding-right") {
        match parse_px_pct(value) {
            Some(v) => Some(Declaration::PaddingRight(v)),
            None => None,
        }
    } else if str_eq(key, "padding-bottom") {
        match parse_px_pct(value) {
            Some(v) => Some(Declaration::PaddingBottom(v)),
            None => None,
        }
    } else if str_eq(key, "margin") {
        match parse_pxpctauto(value) {
            Some(v) => Some(Declaration::Margin(v)),
            None => None,
        }
    } else if str_eq(key, "margin-left") {
        match parse_pxpctauto(value) {
            Some(v) => Some(Declaration::MarginLeft(v)),
            None => None,
        }
    } else if str_eq(key, "margin-top") {
        match parse_pxpctauto(value) {
            Some(v) => Some(Declaration::MarginTop(v)),
            None => None,
        }
    } else if str_eq(key, "margin-right") {
        match parse_pxpctauto(value) {
            Some(v) => Some(Declaration::MarginRight(v)),
            None => None,
        }
    } else if str_eq(key, "margin-bottom") {
        match parse_pxpctauto(value) {
            Some(v) => Some(Declaration::MarginBottom(v)),
            None => None,
        }
    } else if str_eq(key, "left") {
        match parse_pxpctauto(value) {
            Some(v) => Some(Declaration::InsetLeft(v)),
            None => None,
        }
    } else if str_eq(key, "top") {
        match parse_pxpctauto(value) {
            Some(v) => Some(Declaration::InsetTop(v)),
            None => None,
        }
    } else if str_eq(key, "right") {
        match parse_pxpctauto(value) {
            Some(v) => Some(Declaration::InsetRight(v)),
            None => None,
        }
    } else if str_eq(key, "bottom") {
        match parse_pxpctauto(value) {
            Some(v) => Some(Declaration::InsetBottom(v)),
            None => None,
        }
    } else if str_eq(key, "z-index") {
        match parse_i32(value) {
            Some(v) => Some(Declaration::ZIndex(v)),
            None => None,
        }
    } else if str_eq(key, "cursor") {
        match parse_cursor_style(value) {
            Some(v) => Some(Declaration::Cursor(v)),
            None => None,
        }
    } else if str_eq(key, "color") {
        match parse_color(value, palette) {
            Some(v) => Some(Declaration::Color(v)),
            None => None,
        }
    } else if str_eq(key, "background-color") {
        match parse_color(value, palette) {
            Some(v) => Some(Declaration::BackgroundColor(v)),
            None => None,
        }
    } else if str_eq(key, "box-shadow") {
        match parse_box_shadow(value, palette) {
            Some(v) => Some(Declaration::BoxShadow(v)),
            None => None,
        }
    } else if str_eq(key, "font-size") {
        match parse_px(value) {
            Some(v) => Some(Declaration::FontSize(v)),
            None => None,
        }
    } else if str_eq(key, "font-family") {
        match to_owned(value) {
            Some(v) => Some(Declaration::FontFamily(v)),
            None => None,
        }
    } else if str_eq(key, "font-weight") {
        match parse_font_weight(value) {
            Some(v) => Some(Declaration::FontWeight(v)),
            None => None,
        }
    } else if str_eq(key, "font-style") {
        match parse_font_style(value) {
            Some(v) => Some(Declaration::FontStyle(v)),
            None => None,
        }
    } else if str_eq(key, "caret-color") {
        match parse_color(value, palette) {
            Some(v) => Some(Declaration::CursorColor(v)),
            None => None,
        }
    } else if str_eq(key, "text-wrap") {
        match parse_text_overflow(value) {
            Some(v) => Some(Declaration::TextOverflow(v)),
            None => None,
        }
    } else if str_eq(key, "line-height") {
        match parse_micros(value) {
            Some(v) => Some(Declaration::LineHeight(v)),
            None => None,
        }
    } else if str_eq(key, "aspect-ratio") {
        match parse_micros(value) {
            Some(v) => Some(Declaration::AspectRatio(v)),
            None => None,
        }
    } else if str_eq(key, "column-gap") {
        match parse_px_pct(value) {
            Some(v) => Some(Declaration::ColGap(v)),
            None => None,
        }
    } else if str_eq(key, "row-gap") {
        match parse_px_pct(value) {
            Some(v) => Some(Declaration::RowGap(v)),
            None => None,
        }
    } else if str_eq(key, "gap") {
        match parse_gap(value) {
            Some(v) => Some(Declaration::Gap(v)),
            None => None,
        }
    } else if str_eq(key, "transition") {
        match parse_transition(value) {
            Some(p) => Some(Declaration::Transition(p)),
            None => None,
        }
    } else if str_eq(key, "user-select") {
        match parse_user_select(value) {
            Some(v) => Some(Declaration::UserSelect(v)),
            None => None,
        }
    } else {
        None
    }
    }
}

} // verus!
