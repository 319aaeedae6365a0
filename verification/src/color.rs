//! Colors and the palette provider.
//!
//! A color is four 8-bit sRGB channels. General CSS color syntax (hex
//! forms, `rgb()`/`hsl()` functions, the standard named colors) is parsed
//! by the `csscolorparser` crate behind one trusted wrapper; the palette
//! tables supplied by the embedding application are searched by verified
//! code.

use vstd::prelude::*;

use crate::chars::str_eq;

verus! {

/// An sRGB color with alpha, one byte per channel.
#[derive(Debug, Clone, Copy, PartialEq, Eq, Structural)]
pub struct Rgba {
    pub r: u8,
    pub g: u8,
    pub b: u8,
    pub a: u8,
}

/// What `csscolorparser::parse` returns for a given text, reduced to four
/// 8-bit channels. The result depends on the text alone.
pub uninterp spec fn css_color_of(s: Seq<char>) -> Option<Rgba>;

/// Relies on csscolorparser::parse: the parsed color is a function of the
/// text alone; failures become `None`.
#[verifier::external_body]
fn color_from_css(s: &str) -> (r: Option<Rgba>)
    ensures
        r == css_color_of(s@),
{
    match csscolorparser::parse(s) {
        Ok(c) => {
            let [r, g, b, a] = c.to_rgba8();
            Some(Rgba { r, g, b, a })
        },
        Err(_) => None,
    }
}

/// A palette entry for utility-class synthesis: the color stored under
/// `<name>-<tone>`.
#[derive(Debug, Clone, PartialEq)]
pub struct PaletteEntry {
    pub name: String,
    pub tone: u64,
    pub color: Rgba,
}

/// The color tables supplied by the embedding application: extra named
/// colors, the `<name>-<tone>` utility table, and the set of base names
/// the synthesizer recognises.
#[derive(Debug)]
pub struct Palette {
    pub named: Vec<(String, Rgba)>,
    pub entries: Vec<PaletteEntry>,
    pub base_names: Vec<String>,
}

pub ghost struct PaletteEntryV {
    pub name: Seq<char>,
    pub tone: u64,
    pub color: Rgba,
}

pub ghost struct PaletteV {
    pub named: Seq<(Seq<char>, Rgba)>,
    pub entries: Seq<PaletteEntryV>,
    pub base_names: Seq<Seq<char>>,
}

impl View for PaletteEntry {
    type V = PaletteEntryV;

    open spec fn view(&self) -> PaletteEntryV {
        PaletteEntryV { name: self.name@, tone: self.tone, color: self.color }
    }
}

impl View for Palette {
    type V = PaletteV;

    open spec fn view(&self) -> PaletteV {
        PaletteV {
            named: self.named@.map_values(|p: (String, Rgba)| (p.0@, p.1)),
            entries: self.entries@.map_values(|e: PaletteEntry| e@),
            base_names: self.base_names@.map_values(|n: String| n@),
        }
    }
}

impl Palette {
    /// A palette with no entries at all: color parsing then accepts only
    /// the general CSS syntax, and no utility class is ever synthesized.
    pub fn empty() -> (r: Palette)
        ensures
            r@.named.len() == 0,
            r@.entries.len() == 0,
            r@.base_names.len() == 0,
    {
        Palette { named: Vec::new(), entries: Vec::new(), base_names: Vec::new() }
    }

    pub fn new(named: Vec<(String, Rgba)>, entries: Vec<PaletteEntry>, base_names: Vec<String>) -> (r:
        Palette)
        ensures
            r@.named == named@.map_values(|p: (String, Rgba)| (p.0@, p.1)),
            r@.entries == entries@.map_values(|e: PaletteEntry| e@),
            r@.base_names == base_names@.map_values(|n: String| n@),
    {
        Palette { named, entries, base_names }
    }
}

/// First color stored under `key` in the extra named-color table.
pub open spec fn lookup_named(named: Seq<(Seq<char>, Rgba)>, key: Seq<char>) -> Option<Rgba>
    decreases named.len(),
{
    if named.len() == 0 {
        None
    } else if named[0].0 == key {
        Some(named[0].1)
    } else {
        lookup_named(named.drop_first(), key)
    }
}

/// First color stored under the base name `name` and tone `tone`.
pub open spec fn lookup_tone(entries: Seq<PaletteEntryV>, name: Seq<char>, tone: u64) -> Option<
    Rgba,
>
    decreases entries.len(),
{
    if entries.len() == 0 {
        None
    } else if entries[0].name == name && entries[0].tone == tone {
        Some(entries[0].color)
    } else {
        lookup_tone(entries.drop_first(), name, tone)
    }
}

/// The decimal digits of `n`, most significant first.
pub open spec fn dec_chars(n: nat) -> Seq<char>
    decreases n,
{
    if n < 10 {
        seq![digit_char(n % 10)]
    } else {
        dec_chars(n / 10).push(digit_char(n % 10))
    }
}

pub open spec fn digit_char(d: nat) -> char {
    if d == 0 {
        '0'
    } else if d == 1 {
        '1'
    } else if d == 2 {
        '2'
    } else if d == 3 {
        '3'
    } else if d == 4 {
        '4'
    } else if d == 5 {
        '5'
    } else if d == 6 {
        '6'
    } else if d == 7 {
        '7'
    } else if d == 8 {
        '8'
    } else {
        '9'
    }
}

/// The decimal rendering of `n`, proved against `dec_chars`.
pub fn dec_digits(n: u64) -> (r: Vec<char>)
    ensures
        r@ == dec_chars(n as nat),
    decreases n,
{
    let d = n % 10;
    let c: char = match d {
        0 => '0',
        1 => '1',
        2 => '2',
        3 => '3',
        4 => '4',
        5 => '5',
        6 => '6',
        7 => '7',
        8 => '8',
        _ => '9',
    };
    if n < 10 {
        let mut v: Vec<char> = Vec::new();
        v.push(c);
        proof {
            assert(v@ =~= dec_chars(n as nat));
        }
        v
    } else {
        let mut v = dec_digits(n / 10);
        v.push(c);
        v
    }
}

/// The utility key text of a palette entry: `<name>-<tone>`.
pub open spec fn entry_key(e: PaletteEntryV) -> Seq<char> {
    e.name + seq!['-'] + dec_chars(e.tone as nat)
}

/// First entry whose `<name>-<tone>` key renders exactly as `s`.
pub open spec fn lookup_tone_text(entries: Seq<PaletteEntryV>, s: Seq<char>) -> Option<Rgba>
    decreases entries.len(),
{
    if entries.len() == 0 {
        None
    } else if entry_key(entries[0]) == s {
        Some(entries[0].color)
    } else {
        lookup_tone_text(entries.drop_first(), s)
    }
}

/// Whether `s` is exactly `<name>-<tone>` in decimal.
fn entry_key_matches(s: &str, e: &PaletteEntry) -> (r: bool)
    ensures
        r == (s@ == entry_key(e@)),
{
    let digits = dec_digits(e.tone);
    let sn = s.unicode_len();
    let nn = e.name.as_str().unicode_len();
    let dn = digits.len();
    proof {
        assert(dec_chars(e@.tone as nat).len() >= 1);
        assert(entry_key(e@).len() == nn + 1 + dn);
    }
    if nn >= sn {
        return false;
    }
    if sn - nn - 1 != dn {
        return false;
    }
    let mut i: usize = 0;
    while i < nn
        invariant
            0 <= i <= nn,
            forall|j: int| 0 <= j < i ==> s@[j] == e.name@[j],
        decreases nn - i,
    {
        if s.get_char(i) != e.name.as_str().get_char(i) {
            assert(s@[i as int] != entry_key(e@)[i as int]);
            return false;
        }
        i += 1;
    }
    if s.get_char(nn) != '-' {
        assert(entry_key(e@)[nn as int] == '-');
        return false;
    }
    let mut k: usize = 0;
    while k < dn
        invariant
            0 <= k <= dn,
            forall|j: int| 0 <= j < k ==> s@[nn + 1 + j] == digits@[j],
        decreases dn - k,
    {
        if s.get_char(nn + 1 + k) != digits[k] {
            assert(entry_key(e@)[nn + 1 + k] == digits@[k as int]);
            return false;
        }
        k += 1;
    }
    proof {
        assert(s@ =~= entry_key(e@));
    }
    true
}

/// Looks `key` up in the extra named-color table.
fn named_get(named: &Vec<(String, Rgba)>, key: &str) -> (r: Option<Rgba>)
    ensures
        r == lookup_named(named@.map_values(|p: (String, Rgba)| (p.0@, p.1)), key@),
{
    let ghost m = named@.map_values(|p: (String, Rgba)| (p.0@, p.1));
    proof {
        assert(m.skip(0) =~= m);
    }
    let mut i: usize = 0;
    while i < named.len()
        invariant
            0 <= i <= named.len(),
            lookup_named(m, key@) == lookup_named(m.skip(i as int), key@),
        decreases named.len() - i,
    {
        proof {
            assert(m.skip(i as int)[0] == m[i as int]);
            assert(m.skip(i as int).drop_first() =~= m.skip(i + 1));
        }
        if str_eq(named[i].0.as_str(), key) {
            return Some(named[i].1);
        }
        i += 1;
    }
    proof {
        assert(m.skip(i as int).len() == 0);
    }
    None
}

/// Looks the text `key` up in the utility table, matching the rendered
/// `<name>-<tone>` keys.
fn tone_text_get(entries: &Vec<PaletteEntry>, key: &str) -> (r: Option<Rgba>)
    ensures
        r == lookup_tone_text(entries@.map_values(|e: PaletteEntry| e@), key@),
{
    let ghost m = entries@.map_values(|e: PaletteEntry| e@);
    proof {
        assert(m.skip(0) =~= m);
    }
    let mut i: usize = 0;
    while i < entries.len()
        invariant
            0 <= i <= entries.len(),
            lookup_tone_text(m, key@) == lookup_tone_text(m.skip(i as int), key@),
        decreases entries.len() - i,
    {
        proof {
            assert(m.skip(i as int)[0] == m[i as int]);
            assert(m.skip(i as int).drop_first() =~= m.skip(i + 1));
        }
        if entry_key_matches(key, &entries[i]) {
            return Some(entries[i].color);
        }
        i += 1;
    }
    proof {
        assert(m.skip(i as int).len() == 0);
    }
    None
}

/// Looks up `name`/`tone` in the utility table.
pub fn tone_get(palette: &Palette, name: &str, tone: u64) -> (r: Option<Rgba>)
    ensures
        r == lookup_tone(palette@.entries, name@, tone),
{
    let ghost m = palette@.entries;
    proof {
        assert(m.skip(0) =~= m);
    }
    let mut i: usize = 0;
    while i < palette.entries.len()
        invariant
            0 <= i <= palette.entries.len(),
            lookup_tone(m, name@, tone) == lookup_tone(m.skip(i as int), name@, tone),
        decreases palette.entries.len() - i,
    {
        proof {
            assert(m.skip(i as int)[0] == m[i as int]);
            assert(m.skip(i as int).drop_first() =~= m.skip(i + 1));
        }
        if str_eq(palette.entries[i].name.as_str(), name) && palette.entries[i].tone == tone {
            return Some(palette.entries[i].color);
        }
        i += 1;
    }
    proof {
        assert(m.skip(i as int).len() == 0);
    }
    None
}

/// Whether `name` is one of the palette's base names.
pub open spec fn is_base_name(base_names: Seq<Seq<char>>, name: Seq<char>) -> bool {
    exists|i: int| 0 <= i < base_names.len() && base_names[i] == name
}

pub fn base_name_contains(palette: &Palette, name: &str) -> (r: bool)
    ensures
        r == is_base_name(palette@.base_names, name@),
{
    let ghost m = palette@.base_names;
    let mut i: usize = 0;
    while i < palette.base_names.len()
        invariant
            0 <= i <= palette.base_names.len(),
            forall|j: int| 0 <= j < i ==> m[j] != name@,
        decreases palette.base_names.len() - i,
    {
        if str_eq(palette.base_names[i].as_str(), name) {
            assert(m[i as int] == name@);
            return true;
        }
        i += 1;
    }
    false
}

/// A color value: first general CSS syntax, then the extra named table,
/// then the utility table; the first success wins.
pub open spec fn spec_parse_color(s: Seq<char>, pal: PaletteV) -> Option<Rgba> {
    match css_color_of(s) {
        Some(c) => Some(c),
        None => match lookup_named(pal.named, s) {
            Some(c) => Some(c),
            None => lookup_tone_text(pal.entries, s),
        },
    }
}

/// Parses a color value against the palette, proved against
/// `spec_parse_color`.
pub fn parse_color(s: &str, palette: &Palette) -> (r: Option<Rgba>)
    ensures
        r == spec_parse_color(s@, palette@),
{
    match color_from_css(s) {
        Some(c) => Some(c),
        None => match named_get(&palette.named, s) {
            Some(c) => Some(c),
            None => tone_text_get(&palette.entries, s),
        },
    }
}

} // verus!
