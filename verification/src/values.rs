//! The value parsers: one small total parser per CSS value shape.
//!
//! Every parser returns `None` on any failure — unknown keyword,
//! malformed number, missing unit — and never panics; a failed parse
//! simply withholds a declaration.

use vstd::prelude::*;

use crate::animation::{Linear, Transition};
use crate::chars::{ends_with_seq, is_alpha, is_ws, split_ws, split_whitespace_chars, str_ends_with, str_eq,
    substr_trim_end, trim_end_seq, ws, alpha};
use crate::color::{spec_parse_color, parse_color, Palette, PaletteV, Rgba};
use crate::cursor::CursorIcon;
use crate::layout::{AlignContent, AlignItems, Display, FlexDirection, FlexWrap, JustifyContent,
    Position};
use crate::numbers::{spec_parse_micros, spec_parse_u64, parse_micros, parse_u64_str};
use crate::text::{Style, TextOverflow, Weight};
use crate::unit::{spec_box_shadow_default, BorderDef, BoxShadow, Pct, Px, PxPct, PxPctAuto};

verus! {

pub open spec fn spec_parse_display(s: Seq<char>) -> Option<Display> {
    if s == "block"@ {
        Some(Display::Block)
    } else if s == "flex"@ {
        Some(Display::Flex)
    } else if s == "grid"@ {
        Some(Display::Grid)
    } else if s == "none"@ {
        Some(Display::NoneValue)
    } else {
        None
    }
}

pub fn parse_display(s: &str) -> (r: Option<Display>)
    ensures
        r == spec_parse_display(s@),
{
    if str_eq(s, "block") {
        Some(Display::Block)
    } else if str_eq(s, "flex") {
        Some(Display::Flex)
    } else if str_eq(s, "grid") {
        Some(Display::Grid)
    } else if str_eq(s, "none") {
        Some(Display::NoneValue)
    } else {
        None
    }
}

pub open spec fn spec_parse_position(s: Seq<char>) -> Option<Position> {
    if s == "absolute"@ {
        Some(Position::Absolute)
    } else if s == "relative"@ {
        Some(Position::Relative)
    } else {
        None
    }
}

pub fn parse_position(s: &str) -> (r: Option<Position>)
    ensures
        r == spec_parse_position(s@),
{
    if str_eq(s, "absolute") {
        Some(Position::Absolute)
    } else if str_eq(s, "relative") {
        Some(Position::Relative)
    } else {
        None
    }
}

pub open spec fn spec_parse_justify_content(s: Seq<char>) -> Option<JustifyContent> {
    if s == "start"@ {
        Some(JustifyContent::Start)
    } else if s == "end"@ {
        Some(JustifyContent::End)
    } else if s == "flex-start"@ {
        Some(JustifyContent::FlexStart)
    } else if s == "flex-end"@ {
        Some(JustifyContent::FlexEnd)
    } else if s == "center"@ {
        Some(JustifyContent::Center)
    } else if s == "stretch"@ {
        Some(JustifyContent::Stretch)
    } else if s == "space-between"@ {
        Some(JustifyContent::SpaceBetween)
    } else if s == "space-evenly"@ {
        Some(JustifyContent::SpaceEvenly)
    } else if s == "space-around"@ {
        Some(JustifyContent::SpaceAround)
    } else {
        None
    }
}

pub fn parse_justify_content(s: &str) -> (r: Option<JustifyContent>)
    ensures
        r == spec_parse_justify_content(s@),
{
    if str_eq(s, "start") {
        Some(JustifyContent::Start)
    } else if str_eq(s, "end") {
        Some(JustifyContent::End)
    } else if str_eq(s, "flex-start") {
        Some(JustifyContent::FlexStart)
    } else if str_eq(s, "flex-end") {
        Some(JustifyContent::FlexEnd)
    } else if str_eq(s, "center") {
        Some(JustifyContent::Center)
    } else if str_eq(s, "stretch") {
        Some(JustifyContent::Stretch)
    } else if str_eq(s, "space-between") {
        Some(JustifyContent::SpaceBetween)
    } else if str_eq(s, "space-evenly") {
        Some(JustifyContent::SpaceEvenly)
    } else if str_eq(s, "space-around") {
        Some(JustifyContent::SpaceAround)
    } else {
        None
    }
}

pub open spec fn spec_parse_align_items(s: Seq<char>) -> Option<AlignItems> {
    if s == "center"@ {
        Some(AlignItems::Center)
    } else if s == "start"@ {
        Some(AlignItems::Start)
    } else if s == "end"@ {
        Some(AlignItems::End)
    } else if s == "flex-start"@ {
        Some(AlignItems::FlexStart)
    } else if s == "flex-end"@ {
        Some(AlignItems::FlexEnd)
    } else if s == "baseline"@ {
        Some(AlignItems::Baseline)
    } else if s == "stretch"@ {
        Some(AlignItems::Stretch)
    } else {
        None
    }
}

pub fn parse_align_items(s: &str) -> (r: Option<AlignItems>)
    ensures
        r == spec_parse_align_items(s@),
{
    if str_eq(s, "center") {
        Some(AlignItems::Center)
    } else if str_eq(s, "start") {
        Some(AlignItems::Start)
    } else if str_eq(s, "end") {
        Some(AlignItems::End)
    } else if str_eq(s, "flex-start") {
        Some(AlignItems::FlexStart)
    } else if str_eq(s, "flex-end") {
        Some(AlignItems::FlexEnd)
    } else if str_eq(s, "baseline") {
        Some(AlignItems::Baseline)
    } else if str_eq(s, "stretch") {
        Some(AlignItems::Stretch)
    } else {
        None
    }
}

pub open spec fn spec_parse_align_content(s: Seq<char>) -> Option<AlignContent> {
    if s == "center"@ {
        Some(AlignContent::Center)
    } else if s == "start"@ {
        Some(AlignContent::Start)
    } else if s == "end"@ {
        Some(AlignContent::End)
    } else if s == "flex-start"@ {
        Some(AlignContent::FlexStart)
    } else if s == "flex-end"@ {
        Some(AlignContent::FlexEnd)
    } else if s == "stretch"@ {
        Some(AlignContent::Stretch)
    } else if s == "space-between"@ {
        Some(AlignContent::SpaceBetween)
    } else if s == "space-evenly"@ {
        Some(AlignContent::SpaceEvenly)
    } else if s == "space-around"@ {
        Some(AlignContent::SpaceAround)
    } else {
        None
    }
}

pub fn parse_align_content(s: &str) -> (r: Option<AlignContent>)
    ensures
        r == spec_parse_align_content(s@),
{
    if str_eq(s, "center") {
        Some(AlignContent::Center)
    } else if str_eq(s, "start") {
        Some(AlignContent::Start)
    } else if str_eq(s, "end") {
        Some(AlignContent::End)
    } else if str_eq(s, "flex-start") {
        Some(AlignContent::FlexStart)
    } else if str_eq(s, "flex-end") {
        Some(AlignContent::FlexEnd)
    } else if str_eq(s, "stretch") {
        Some(AlignContent::Stretch)
    } else if str_eq(s, "space-between") {
        Some(AlignContent::SpaceBetween)
    } else if str_eq(s, "space-evenly") {
        Some(AlignContent::SpaceEvenly)
    } else if str_eq(s, "space-around") {
        Some(AlignContent::SpaceAround)
    } else {
        None
    }
}

pub open spec fn spec_parse_flex_direction(s: Seq<char>) -> Option<FlexDirection> {
    if s == "row"@ {
        Some(FlexDirection::Row)
    } else if s == "column"@ {
        Some(FlexDirection::Column)
    } else if s == "row-reverse"@ {
        Some(FlexDirection::RowReverse)
    } else if s == "column-reverse"@ {
        Some(FlexDirection::ColumnReverse)
    } else {
        None
    }
}

pub fn parse_flex_direction(s: &str) -> (r: Option<FlexDirection>)
    ensures
        r == spec_parse_flex_direction(s@),
{
    if str_eq(s, "row") {
        Some(FlexDirection::Row)
    } else if str_eq(s, "column") {
        Some(FlexDirection::Column)
    } else if str_eq(s, "row-reverse") {
        Some(FlexDirection::RowReverse)
    } else if str_eq(s, "column-reverse") {
        Some(FlexDirection::ColumnReverse)
    } else {
        None
    }
}

pub open spec fn spec_parse_flex_wrap(s: Seq<char>) -> Option<FlexWrap> {
    if s == "wrap"@ {
        Some(FlexWrap::Wrap)
    } else if s == "no-wrap"@ {
        Some(FlexWrap::NoWrap)
    } else if s == "wrap-reverse"@ {
        Some(FlexWrap::WrapReverse)
    } else {
        None
    }
}

pub fn parse_flex_wrap(s: &str) -> (r: Option<FlexWrap>)
    ensures
        r == spec_parse_flex_wrap(s@),
{
    if str_eq(s, "wrap") {
        Some(FlexWrap::Wrap)
    } else if str_eq(s, "no-wrap") {
        Some(FlexWrap::NoWrap)
    } else if str_eq(s, "wrap-reverse") {
        Some(FlexWrap::WrapReverse)
    } else {
        None
    }
}

pub open spec fn spec_parse_cursor_style(s: Seq<char>) -> Option<CursorIcon> {
    if s == "default"@ {
        Some(CursorIcon::Default)
    } else if s == "pointer"@ {
        Some(CursorIcon::PointingHand)
    } else if s == "text"@ {
        Some(CursorIcon::Text)
    } else if s == "col-resize"@ {
        Some(CursorIcon::ResizeColumn)
    } else if s == "row-resize"@ {
        Some(CursorIcon::ResizeRow)
    } else if s == "w-resize"@ {
        Some(CursorIcon::ResizeWest)
    } else if s == "e-resize"@ {
        Some(CursorIcon::ResizeEast)
    } else if s == "s-resize"@ {
        Some(CursorIcon::ResizeSouth)
    } else if s == "n-resize"@ {
        Some(CursorIcon::ResizeNorth)
    } else if s == "nw-resize"@ {
        Some(CursorIcon::ResizeNorthWest)
    } else if s == "ne-resize"@ {
        Some(CursorIcon::ResizeNorthEast)
    } else if s == "sw-resize"@ {
        Some(CursorIcon::ResizeSouthWest)
    } else if s == "se-resize"@ {
        Some(CursorIcon::ResizeSouthEast)
    } else if s == "nesw-resize"@ {
        Some(CursorIcon::ResizeNeSw)
    } else if s == "nwse-resize"@ {
        Some(CursorIcon::ResizeNwSe)
    } else {
        None
    }
}

pub fn parse_cursor_style(s: &str) -> (r: Option<CursorIcon>)
    ensures
        r == spec_parse_cursor_style(s@),
{
    if str_eq(s, "default") {
        Some(CursorIcon::Default)
    } else if str_eq(s, "pointer") {
        Some(CursorIcon::PointingHand)
    } else if str_eq(s, "text") {
        Some(CursorIcon::Text)
    } else if str_eq(s, "col-resize") {
        Some(CursorIcon::ResizeColumn)
    } else if str_eq(s, "row-resize") {
        Some(CursorIcon::ResizeRow)
    } else if str_eq(s, "w-resize") {
        Some(CursorIcon::ResizeWest)
    } else if str_eq(s, "e-resize") {
        Some(CursorIcon::ResizeEast)
    } else if str_eq(s, "s-resize") {
        Some(CursorIcon::ResizeSouth)
    } else if str_eq(s, "n-resize") {
        Some(CursorIcon::ResizeNorth)
    } else if str_eq(s, "nw-resize") {
        Some(CursorIcon::ResizeNorthWest)
    } else if str_eq(s, "ne-resize") {
        Some(CursorIcon::ResizeNorthEast)
    } else if str_eq(s, "sw-resize") {
        Some(CursorIcon::ResizeSouthWest)
    } else if str_eq(s, "se-resize") {
        Some(CursorIcon::ResizeSouthEast)
    } else if str_eq(s, "nesw-resize") {
        Some(CursorIcon::ResizeNeSw)
    } else if str_eq(s, "nwse-resize") {
        Some(CursorIcon::ResizeNwSe)
    } else {
        None
    }
}

pub open spec fn spec_parse_font_weight(s: Seq<char>) -> Option<Weight> {
    if s == "100"@ || s == "thin"@ {
        Some(Weight(100u16))
    } else if s == "200"@ {
        Some(Weight(200u16))
    } else if s == "300"@ {
        Some(Weight(300u16))
    } else if s == "400"@ || s == "normal"@ {
        Some(Weight(400u16))
    } else if s == "500"@ {
        Some(Weight(500u16))
    } else if s == "600"@ {
        Some(Weight(600u16))
    } else if s == "700"@ || s == "bold"@ {
        Some(Weight(700u16))
    } else if s == "800"@ {
        Some(Weight(800u16))
    } else if s == "900"@ {
        Some(Weight(900u16))
    } else {
        None
    }
}

pub fn parse_font_weight(s: &str) -> (r: Option<Weight>)
    ensures
        r == spec_parse_font_weight(s@),
{
    if str_eq(s, "100") || str_eq(s, "thin") {
        Some(Weight(100))
    } else if str_eq(s, "200") {
        Some(Weight(200))
    } else if str_eq(s, "300") {
        Some(Weight(300))
    } else if str_eq(s, "400") || str_eq(s, "normal") {
        Some(Weight(400))
    } else if str_eq(s, "500") {
        Some(Weight(500))
    } else if str_eq(s, "600") {
        Some(Weight(600))
    } else if str_eq(s, "700") || str_eq(s, "bold") {
        Some(Weight(700))
    } else if str_eq(s, "800") {
        Some(Weight(800))
    } else if str_eq(s, "900") {
        Some(Weight(900))
    } else {
        None
    }
}

pub open spec fn spec_parse_font_style(s: Seq<char>) -> Option<Style> {
    if s == "normal"@ {
        Some(Style::Normal)
    } else if s == "italic"@ {
        Some(Style::Italic)
    } else if s == "oblique"@ {
        Some(Style::Oblique)
    } else {
        None
    }
}

pub fn parse_font_style(s: &str) -> (r: Option<Style>)
    ensures
        r == spec_parse_font_style(s@),
{
    if str_eq(s, "normal") {
        Some(Style::Normal)
    } else if str_eq(s, "italic") {
        Some(Style::Italic)
    } else if str_eq(s, "oblique") {
        Some(Style::Oblique)
    } else {
        None
    }
}

pub open spec fn spec_parse_text_overflow(s: Seq<char>) -> Option<TextOverflow> {
    if s == "clip"@ {
        Some(TextOverflow::Clip)
    } else if s == "ellipsis"@ {
        Some(TextOverflow::Ellipsis)
    } else if s == "wrap"@ {
        Some(TextOverflow::Wrap)
    } else {
        None
    }
}

pub fn parse_text_overflow(s: &str) -> (r: Option<TextOverflow>)
    ensures
        r == spec_parse_text_overflow(s@),
{
    if str_eq(s, "clip") {
        Some(TextOverflow::Clip)
    } else if str_eq(s, "ellipsis") {
        Some(TextOverflow::Ellipsis)
    } else if str_eq(s, "wrap") {
        Some(TextOverflow::Wrap)
    } else {
        None
    }
}

pub open spec fn spec_parse_user_select(s: Seq<char>) -> Option<bool> {
    if s == "none"@ {
        Some(false)
    } else if s == "auto"@ {
        Some(true)
    } else {
        None
    }
}

pub fn parse_user_select(s: &str) -> (r: Option<bool>)
    ensures
        r == spec_parse_user_select(s@),
{
    if str_eq(s, "none") {
        Some(false)
    } else if str_eq(s, "auto") {
        Some(true)
    } else {
        None
    }
}

/// Accepts any text as an owned font-family name.
pub fn to_owned(s: &str) -> (r: Option<String>)
    ensures
        r is Some,
        r.unwrap()@ == s@,
{
    Some(String::from_str(s))
}

/// A pixel length: a decimal number with a literal `px` suffix
/// (whitespace between number and suffix allowed), in micro-pixels.
pub open spec fn spec_parse_px(s: Seq<char>) -> Option<Px> {
    if ends_with_seq(s, "px"@) {
        match spec_parse_micros(trim_end_seq(s.subrange(0, s.len() - 2))) {
            Some(v) => Some(Px(v)),
            None => None,
        }
    } else {
        None
    }
}

pub fn parse_px(s: &str) -> (r: Option<Px>)
    ensures
        r == spec_parse_px(s@),
{
    if str_ends_with(s, "px") {
        proof {
            reveal_strlit("px");
        }
        let n = s.unicode_len();
        let core = substr_trim_end(s, 0, n - 2);
        match parse_micros(core) {
            Some(v) => Some(Px(v)),
            None => None,
        }
    } else {
        None
    }
}

/// A percentage: a decimal number with a literal `%` suffix, stored as
/// the numeric percentage in micro-points (50% is fifty, not one half).
pub open spec fn spec_parse_pct(s: Seq<char>) -> Option<Pct> {
    if ends_with_seq(s, "%"@) {
        match spec_parse_micros(trim_end_seq(s.subrange(0, s.len() - 1))) {
            Some(v) => Some(Pct(v)),
            None => None,
        }
    } else {
        None
    }
}

pub fn parse_pct(s: &str) -> (r: Option<Pct>)
    ensures
        r == spec_parse_pct(s@),
{
    if str_ends_with(s, "%") {
        proof {
            reveal_strlit("%");
        }
        let n = s.unicode_len();
        let core = substr_trim_end(s, 0, n - 1);
        match parse_micros(core) {
            Some(v) => Some(Pct(v)),
            None => None,
        }
    } else {
        None
    }
}

pub open spec fn spec_parse_px_pct(s: Seq<char>) -> Option<PxPct> {
    match spec_parse_px(s) {
        Some(px) => Some(PxPct::Px(px.0)),
        None => match spec_parse_pct(s) {
            Some(pct) => Some(PxPct::Pct(pct.0)),
            None => None,
        },
    }
}

pub fn parse_px_pct(s: &str) -> (r: Option<PxPct>)
    ensures
        r == spec_parse_px_pct(s@),
{
    match parse_px(s) {
        Some(px) => Some(PxPct::Px(px.0)),
        None => match parse_pct(s) {
            Some(pct) => Some(PxPct::Pct(pct.0)),
            None => None,
        },
    }
}

pub open spec fn spec_parse_pxpctauto(s: Seq<char>) -> Option<PxPctAuto> {
    if s == "auto"@ {
        Some(PxPctAuto::Auto)
    } else {
        match spec_parse_px_pct(s) {
            Some(PxPct::Px(px)) => Some(PxPctAuto::Px(px)),
            Some(PxPct::Pct(pct)) => Some(PxPctAuto::Pct(pct)),
            None => None,
        }
    }
}

pub fn parse_pxpctauto(s: &str) -> (r: Option<PxPctAuto>)
    ensures
        r == spec_parse_pxpctauto(s@),
{
    if str_eq(s, "auto") {
        return Some(PxPctAuto::Auto);
    }
    match parse_px_pct(s) {
        Some(PxPct::Px(px)) => Some(PxPctAuto::Px(px)),
        Some(PxPct::Pct(pct)) => Some(PxPctAuto::Pct(pct)),
        None => None,
    }
}

/// A gap value: a required row length and an optional column length,
/// whitespace-separated.
pub open spec fn spec_parse_gap(s: Seq<char>) -> Option<(PxPct, Option<PxPct>)> {
    let toks = split_ws(s);
    if toks.len() == 0 {
        None
    } else {
        match spec_parse_px_pct(toks[0]) {
            None => None,
            Some(row) => if toks.len() < 2 {
                None
            } else {
                Some((row, spec_parse_px_pct(toks[1])))
            },
        }
    }
}

pub fn parse_gap(s: &str) -> (r: Option<(PxPct, Option<PxPct>)>)
    ensures
        r == spec_parse_gap(s@),
{
    let toks = split_whitespace_chars(s);
    if toks.len() == 0 {
        return None;
    }
    proof {
        assert(toks.deep_view()[0] == toks@[0]@);
        if toks@.len() >= 2 {
            assert(toks.deep_view()[1] == toks@[1]@);
        }
    }
    match parse_px_pct(toks[0]) {
        None => None,
        Some(row) => {
            if toks.len() < 2 {
                None
            } else {
                Some((row, parse_px_pct(toks[1])))
            }
        },
    }
}

/// A duration: `<integer>ms`, or `<decimal>s` converted to milliseconds
/// and rejected unless strictly positive.
pub open spec fn spec_parse_duration(s: Seq<char>) -> Option<u64> {
    if ends_with_seq(s, "ms"@) {
        spec_parse_u64(s.subrange(0, s.len() - 2))
    } else if ends_with_seq(s, "s"@) {
        match spec_parse_micros(s.subrange(0, s.len() - 1)) {
            Some(mic) => if mic > 0 {
                Some((mic / 1000) as u64)
            } else {
                None
            },
            None => None,
        }
    } else {
        None
    }
}

pub fn parse_duration(s: &str) -> (r: Option<u64>)
    ensures
        r == spec_parse_duration(s@),
{
    let n = s.unicode_len();
    if str_ends_with(s, "ms") {
        proof {
            reveal_strlit("ms");
        }
        parse_u64_str(s.substring_char(0, n - 2))
    } else if str_ends_with(s, "s") {
        proof {
            reveal_strlit("s");
        }
        match parse_micros(s.substring_char(0, n - 1)) {
            Some(mic) => {
                if mic > 0 {
                    Some((mic / 1000) as u64)
                } else {
                    None
                }
            },
            None => None,
        }
    } else {
        None
    }
}

/// A transition: `<property> <duration>`; extra tokens are ignored.
pub open spec fn spec_parse_transition(s: Seq<char>) -> Option<(Seq<char>, Transition)> {
    let toks = split_ws(s);
    if toks.len() < 2 {
        None
    } else {
        match spec_parse_duration(toks[1]) {
            Some(d) => Some((toks[0], Transition { duration: d, easing: Linear })),
            None => None,
        }
    }
}

pub fn parse_transition(s: &str) -> (r: Option<(String, Transition)>)
    ensures
        ({
            let sp = spec_parse_transition(s@);
            match r {
                Some(p) => sp == Some((p.0@, p.1)),
                None => sp is None,
            }
        }),
{
    let toks = split_whitespace_chars(s);
    if toks.len() < 2 {
        return None;
    }
    proof {
        assert(toks.deep_view()[0] == toks@[0]@);
        assert(toks.deep_view()[1] == toks@[1]@);
    }
    match parse_duration(toks[1]) {
        Some(d) => Some((String::from_str(toks[0]), Transition::new(d))),
        None => None,
    }
}

/// One border-shorthand token: a length sets the width, else a color
/// sets the color, else the whole shorthand fails.
pub open spec fn spec_border_val(bd: BorderDef, t: Seq<char>, pal: PaletteV) -> Option<BorderDef> {
    match spec_parse_px_pct(t) {
        Some(w) => Some(BorderDef { width: Some(w), ..bd }),
        None => match spec_parse_color(t, pal) {
            Some(c) => Some(BorderDef { color: Some(c), ..bd }),
            None => None,
        },
    }
}

/// The border shorthand: one or two tokens, each a length or a color, in
/// either order; extra tokens are ignored.
pub open spec fn spec_parse_border(s: Seq<char>, pal: PaletteV) -> Option<BorderDef> {
    let toks = split_ws(s);
    if toks.len() == 0 {
        None
    } else {
        match spec_border_val(BorderDef { width: None, color: None }, toks[0], pal) {
            None => None,
            Some(bd1) => if toks.len() == 1 {
                Some(bd1)
            } else {
                spec_border_val(bd1, toks[1], pal)
            },
        }
    }
}

fn border_val(bd: BorderDef, t: &str, palette: &Palette) -> (r: Option<BorderDef>)
    ensures
        r == spec_border_val(bd, t@, palette@),
{
    let ghost bd0 = bd;
    match parse_px_pct(t) {
        Some(w) => Some(BorderDef { width: Some(w), color: bd.color }),
        None => match parse_color(t, palette) {
            Some(c) => Some(BorderDef { width: bd.width, color: Some(c) }),
            None => None,
        },
    }
}

pub fn parse_border(s: &str, palette: &Palette) -> (r: Option<BorderDef>)
    ensures
        r == spec_parse_border(s@, palette@),
{
    let toks = split_whitespace_chars(s);
    if toks.len() == 0 {
        return None;
    }
    proof {
        assert(toks.deep_view()[0] == toks@[0]@);
        if toks@.len() >= 2 {
            assert(toks.deep_view()[1] == toks@[1]@);
        }
    }
    match border_val(BorderDef { width: None, color: None }, toks[0], palette) {
        None => None,
        Some(bd1) => {
            if toks.len() == 1 {
                Some(bd1)
            } else {
                border_val(bd1, toks[1], palette)
            }
        },
    }
}

/// The box-shadow splitter. Parts are cut at each whitespace character
/// (so doubled spaces produce empty parts, which fail downstream), and
/// the scan stops at the first letter that follows whitespace: from
/// there the rest of the text is one final part, which lets a trailing
/// color name such as `black` survive as a single token.
pub open spec fn shadow_parts_rec(s: Seq<char>, i: int, start: int, after_wp: bool) -> Seq<
    Seq<char>,
>
    decreases s.len() - i,
{
    if i < 0 || i >= s.len() {
        seq![s.subrange(start, s.len() as int)]
    } else if is_ws(s[i]) {
        seq![s.subrange(start, i)] + shadow_parts_rec(s, i + 1, i + 1, true)
    } else if after_wp && is_alpha(s[i]) {
        seq![s.subrange(start, s.len() as int)]
    } else {
        shadow_parts_rec(s, i + 1, start, false)
    }
}

pub open spec fn spec_shadow_parts(s: Seq<char>) -> Seq<Seq<char>> {
    shadow_parts_rec(s, 0, 0, false)
}

/// Splits a box-shadow value, proved against `spec_shadow_parts`.
fn shadow_parts<'a>(s: &'a str) -> (r: Vec<&'a str>)
    ensures
        r.deep_view() == spec_shadow_parts(s@),
{
    let n = s.unicode_len();
    let mut r: Vec<&'a str> = Vec::new();
    let mut i: usize = 0;
    let mut start: usize = 0;
    let mut after_wp = false;
    while i < n
        invariant
            0 <= start <= i <= n,
            n == s@.len(),
            spec_shadow_parts(s@) == r.deep_view() + shadow_parts_rec(
                s@,
                i as int,
                start as int,
                after_wp,
            ),
        decreases n - i,
    {
        let c = s.get_char(i);
        if ws(c) {
            let part = s.substring_char(start, i);
            r.push(part);
            proof {
                assert(r.deep_view() =~= r.deep_view().subrange(0, r.deep_view().len() - 1)
                    + seq![part@]);
                let rest = shadow_parts_rec(s@, i + 1, i + 1, true);
                assert((r.deep_view().subrange(0, r.deep_view().len() - 1) + seq![part@]) + rest
                    =~= r.deep_view().subrange(0, r.deep_view().len() - 1) + (seq![part@] + rest));
            }
            start = i + 1;
            after_wp = true;
            i += 1;
        } else if after_wp && alpha(c) {
            break ;
        } else {
            after_wp = false;
            i += 1;
        }
    }
    let last = s.substring_char(start, n);
    r.push(last);
    proof {
        assert(r.deep_view() =~= r.deep_view().subrange(0, r.deep_view().len() - 1)
            + seq![last@]);
        assert(shadow_parts_rec(s@, i as int, start as int, after_wp) == seq![last@]);
        assert(r.deep_view().subrange(0, r.deep_view().len() - 1) + seq![last@]
            =~= r.deep_view());
    }
    r
}

/// Two tokens: horizontal and vertical offsets.
pub open spec fn spec_box_shadow_2(a: Seq<char>, b: Seq<char>) -> Option<BoxShadow> {
    match (spec_parse_px_pct(a), spec_parse_px_pct(b)) {
        (Some(h), Some(v)) => Some(
            BoxShadow { h_offset: h, v_offset: v, ..spec_box_shadow_default() },
        ),
        _ => None,
    }
}

pub fn parse_box_shadow_2(parts: [&str; 2]) -> (r: Option<BoxShadow>)
    ensures
        r == spec_box_shadow_2(parts[0]@, parts[1]@),
{
    match (parse_px_pct(parts[0]), parse_px_pct(parts[1])) {
        (Some(h), Some(v)) => Some(
            BoxShadow {
                h_offset: h,
                v_offset: v,
                blur_radius: PxPct::Px(0),
                spread: PxPct::Px(0),
                color: Rgba { r: 0, g: 0, b: 0, a: 255 },
            },
        ),
        _ => None,
    }
}

/// Three tokens: offsets and color, color first, or offsets and blur —
/// the first pattern that fully parses wins.
pub open spec fn spec_box_shadow_3(a: Seq<char>, b: Seq<char>, c: Seq<char>, pal: PaletteV) -> Option<
    BoxShadow,
> {
    if (spec_parse_px_pct(a) is Some && spec_parse_px_pct(b) is Some && spec_parse_color(c, pal)
        is Some) {
        Some(
            BoxShadow {
                h_offset: spec_parse_px_pct(a).unwrap(),
                v_offset: spec_parse_px_pct(b).unwrap(),
                color: spec_parse_color(c, pal).unwrap(),
                ..spec_box_shadow_default()
            },
        )
    } else if (spec_parse_color(a, pal) is Some && spec_parse_px_pct(b) is Some
        && spec_parse_px_pct(c) is Some) {
        Some(
            BoxShadow {
                color: spec_parse_color(a, pal).unwrap(),
                h_offset: spec_parse_px_pct(b).unwrap(),
                v_offset: spec_parse_px_pct(c).unwrap(),
                ..spec_box_shadow_default()
            },
        )
    } else if (spec_parse_px_pct(a) is Some && spec_parse_px_pct(b) is Some && spec_parse_px_pct(c)
        is Some) {
        Some(
            BoxShadow {
                h_offset: spec_parse_px_pct(a).unwrap(),
                v_offset: spec_parse_px_pct(b).unwrap(),
                blur_radius: spec_parse_px_pct(c).unwrap(),
                ..spec_box_shadow_default()
            },
        )
    } else {
        None
    }
}

pub fn parse_box_shadow_3(parts: [&str; 3], palette: &Palette) -> (r: Option<BoxShadow>)
    ensures
        r == spec_box_shadow_3(parts[0]@, parts[1]@, parts[2]@, palette@),
{
    let pa = parse_px_pct(parts[0]);
    let pb = parse_px_pct(parts[1]);
    let pc = parse_px_pct(parts[2]);
    let ca = parse_color(parts[0], palette);
    let cc = parse_color(parts[2], palette);
    if let (Some(h), Some(v), Some(color)) = (pa, pb, cc) {
        return Some(
            BoxShadow {
                color,
                h_offset: h,
                v_offset: v,
                blur_radius: PxPct::Px(0),
                spread: PxPct::Px(0),
            },
        );
    }
    if let (Some(color), Some(h), Some(v)) = (ca, pb, pc) {
        return Some(
            BoxShadow {
                color,
                h_offset: h,
                v_offset: v,
                blur_radius: PxPct::Px(0),
                spread: PxPct::Px(0),
            },
        );
    }
    if let (Some(h), Some(v), Some(blur)) = (pa, pb, pc) {
        return Some(
            BoxShadow {
                h_offset: h,
                v_offset: v,
                blur_radius: blur,
                spread: PxPct::Px(0),
                color: Rgba { r: 0, g: 0, b: 0, a: 255 },
            },
        );
    }
    None
}

/// Four tokens: offsets, blur and color; color first; or offsets, blur
/// and spread — first full parse wins.
pub open spec fn spec_box_shadow_4(
    a: Seq<char>,
    b: Seq<char>,
    c: Seq<char>,
    d: Seq<char>,
    pal: PaletteV,
) -> Option<BoxShadow> {
    if (spec_parse_px_pct(a) is Some && spec_parse_px_pct(b) is Some && spec_parse_px_pct(c)
        is Some && spec_parse_color(d, pal) is Some) {
        Some(
            BoxShadow {
                h_offset: spec_parse_px_pct(a).unwrap(),
                v_offset: spec_parse_px_pct(b).unwrap(),
                blur_radius: spec_parse_px_pct(c).unwrap(),
                color: spec_parse_color(d, pal).unwrap(),
                ..spec_box_shadow_default()
            },
        )
    } else if (spec_parse_color(a, pal) is Some && spec_parse_px_pct(b) is Some
        && spec_parse_px_pct(c) is Some && spec_parse_px_pct(d) is Some) {
        Some(
            BoxShadow {
                color: spec_parse_color(a, pal).unwrap(),
                h_offset: spec_parse_px_pct(b).unwrap(),
                v_offset: spec_parse_px_pct(c).unwrap(),
                blur_radius: spec_parse_px_pct(d).unwrap(),
                ..spec_box_shadow_default()
            },
        )
    } else if (spec_parse_px_pct(a) is Some && spec_parse_px_pct(b) is Some && spec_parse_px_pct(c)
        is Some && spec_parse_px_pct(d) is Some) {
        Some(
            BoxShadow {
                h_offset: spec_parse_px_pct(a).unwrap(),
                v_offset: spec_parse_px_pct(b).unwrap(),
                blur_radius: spec_parse_px_pct(c).unwrap(),
                spread: spec_parse_px_pct(d).unwrap(),
                ..spec_box_shadow_default()
            },
        )
    } else {
        None
    }
}

pub fn parse_box_shadow_4(parts: [&str; 4], palette: &Palette) -> (r: Option<BoxShadow>)
    ensures
        r == spec_box_shadow_4(parts[0]@, parts[1]@, parts[2]@, parts[3]@, palette@),
{
    let pa = parse_px_pct(parts[0]);
    let pb = parse_px_pct(parts[1]);
    let pc = parse_px_pct(parts[2]);
    let pd = parse_px_pct(parts[3]);
    let ca = parse_color(parts[0], palette);
    let cd = parse_color(parts[3], palette);
    if let (Some(h), Some(v), Some(blur), Some(color)) = (pa, pb, pc, cd) {
        return Some(
            BoxShadow { color, blur_radius: blur, h_offset: h, v_offset: v, spread: PxPct::Px(0) },
        );
    }
    if let (Some(color), Some(h), Some(v), Some(blur)) = (ca, pb, pc, pd) {
        return Some(
            BoxShadow { color, blur_radius: blur, h_offset: h, v_offset: v, spread: PxPct::Px(0) },
        );
    }
    if let (Some(h), Some(v), Some(blur), Some(spread)) = (pa, pb, pc, pd) {
        return Some(
            BoxShadow {
                spread,
                blur_radius: blur,
                h_offset: h,
                v_offset: v,
                color: Rgba { r: 0, g: 0, b: 0, a: 255 },
            },
        );
    }
    None
}

/// Five tokens: offsets, blur, spread and color, or color first.
pub open spec fn spec_box_shadow_5(
    a: Seq<char>,
    b: Seq<char>,
    c: Seq<char>,
    d: Seq<char>,
    e: Seq<char>,
    pal: PaletteV,
) -> Option<BoxShadow> {
    if (spec_parse_px_pct(a) is Some && spec_parse_px_pct(b) is Some && spec_parse_px_pct(c)
        is Some && spec_parse_px_pct(d) is Some && spec_parse_color(e, pal) is Some) {
        Some(
            BoxShadow {
                h_offset: spec_parse_px_pct(a).unwrap(),
                v_offset: spec_parse_px_pct(b).unwrap(),
                blur_radius: spec_parse_px_pct(c).unwrap(),
                spread: spec_parse_px_pct(d).unwrap(),
                color: spec_parse_color(e, pal).unwrap(),
            },
        )
    } else if (spec_parse_color(a, pal) is Some && spec_parse_px_pct(b) is Some
        && spec_parse_px_pct(c) is Some && spec_parse_px_pct(d) is Some && spec_parse_px_pct(e)
        is Some) {
        Some(
            BoxShadow {
                color: spec_parse_color(a, pal).unwrap(),
                h_offset: spec_parse_px_pct(b).unwrap(),
                v_offset: spec_parse_px_pct(c).unwrap(),
                blur_radius: spec_parse_px_pct(d).unwrap(),
                spread: spec_parse_px_pct(e).unwrap(),
            },
        )
    } else {
        None
    }
}

pub fn parse_box_shadow_5(parts: [&str; 5], palette: &Palette) -> (r: Option<BoxShadow>)
    ensures
        r == spec_box_shadow_5(
            parts[0]@,
            parts[1]@,
            parts[2]@,
            parts[3]@,
            parts[4]@,
            palette@,
        ),
{
    let pa = parse_px_pct(parts[0]);
    let pb = parse_px_pct(parts[1]);
    let pc = parse_px_pct(parts[2]);
    let pd = parse_px_pct(parts[3]);
    let pe = parse_px_pct(parts[4]);
    let ca = parse_color(parts[0], palette);
    let ce = parse_color(parts[4], palette);
    if let (Some(h), Some(v), Some(blur), Some(spread), Some(color)) = (pa, pb, pc, pd, ce) {
        return Some(BoxShadow { color, spread, blur_radius: blur, h_offset: h, v_offset: v });
    }
    if let (Some(color), Some(h), Some(v), Some(blur), Some(spread)) = (ca, pb, pc, pd, pe) {
        return Some(BoxShadow { color, spread, blur_radius: blur, h_offset: h, v_offset: v });
    }
    None
}

/// The whole box-shadow value: split, then dispatch on how many parts
/// there are. `none` (and any other single token, and more than five
/// parts) yields no shadow.
pub open spec fn spec_parse_box_shadow(s: Seq<char>, pal: PaletteV) -> Option<BoxShadow> {
    let p = spec_shadow_parts(s);
    if p.len() == 2 {
        spec_box_shadow_2(p[0], p[1])
    } else if p.len() == 3 {
        spec_box_shadow_3(p[0], p[1], p[2], pal)
    } else if p.len() == 4 {
        spec_box_shadow_4(p[0], p[1], p[2], p[3], pal)
    } else if p.len() == 5 {
        spec_box_shadow_5(p[0], p[1], p[2], p[3], p[4], pal)
    } else {
        None
    }
}

pub fn parse_box_shadow(s: &str, palette: &Palette) -> (r: Option<BoxShadow>)
    ensures
        r == spec_parse_box_shadow(s@, palette@),
{
    let p = shadow_parts(s);
    proof {
        assert forall|k: int| 0 <= k < p@.len() implies p.deep_view()[k] == p@[k]@ by {}
    }
    if p.len() == 2 {
        parse_box_shadow_2([p[0], p[1]])
    } else if p.len() == 3 {
        parse_box_shadow_3([p[0], p[1], p[2]], palette)
    } else if p.len() == 4 {
        parse_box_shadow_4([p[0], p[1], p[2], p[3]], palette)
    } else if p.len() == 5 {
        parse_box_shadow_5([p[0], p[1], p[2], p[3], p[4]], palette)
    } else {
        None
    }
}

} // verus!
