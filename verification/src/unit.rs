//! Length values.
//!
//! Lengths are stored in fixed point, as a count of micro-units
//! (`numbers::MICROS` per pixel or per percentage point), so that
//! fractional CSS values have exact integer representations. Percentages
//! keep the numeric percentage (50 for `50%`), not the pre-divided ratio;
//! division by 100 happens at resolution time against an available size.

use vstd::prelude::*;

use crate::color::Rgba;

verus! {

/// Used for automatically computed values.
#[derive(Debug, Clone, Copy, PartialEq, Eq, Structural)]
pub struct Auto;

/// A pixel value, in micro-pixels.
#[derive(Debug, Clone, Copy, PartialEq, Eq, Structural)]
pub struct Px(pub i64);

/// A percent value, in micro-percentage-points.
#[derive(Debug, Clone, Copy, PartialEq, Eq, Structural)]
pub struct Pct(pub i64);

/// A length that is either pixels or a percentage.
#[derive(Debug, Clone, Copy, PartialEq, Eq, Structural)]
pub enum PxPct {
    Px(i64),
    Pct(i64),
}

/// A length that is pixels, a percentage, or automatic.
#[derive(Debug, Clone, Copy, PartialEq, Eq, Structural)]
pub enum PxPctAuto {
    Px(i64),
    Pct(i64),
    Auto,
}

/// A border shorthand: width and color, both independently optional
/// because `border: 10px red`, `border: red`, and `border: 10px` are all
/// accepted, in either order.
#[derive(Debug, Clone, Copy, PartialEq)]
pub struct BorderDef {
    pub width: Option<PxPct>,
    pub color: Option<Rgba>,
}

/// A box shadow: offsets, blur, spread, and color.
#[derive(Debug, Clone, Copy, PartialEq)]
pub struct BoxShadow {
    pub blur_radius: PxPct,
    pub color: Rgba,
    pub spread: PxPct,
    pub h_offset: PxPct,
    pub v_offset: PxPct,
}

/// The default shadow: fully opaque black with zero offsets.
pub open spec fn spec_box_shadow_default() -> BoxShadow {
    BoxShadow {
        blur_radius: PxPct::Px(0),
        color: Rgba { r: 0, g: 0, b: 0, a: 255 },
        spread: PxPct::Px(0),
        h_offset: PxPct::Px(0),
        v_offset: PxPct::Px(0),
    }
}

impl Default for BoxShadow {
    fn default() -> (r: Self)
        ensures
            r == spec_box_shadow_default(),
    {
        BoxShadow {
            blur_radius: PxPct::Px(0),
            color: Rgba { r: 0, g: 0, b: 0, a: 255 },
            spread: PxPct::Px(0),
            h_offset: PxPct::Px(0),
            v_offset: PxPct::Px(0),
        }
    }
}

impl From<Pct> for PxPct {
    fn from(value: Pct) -> (r: Self) {
        PxPct::Pct(value.0)
    }
}

impl vstd::std_specs::convert::FromSpecImpl<Pct> for PxPct {
    open spec fn obeys_from_spec() -> bool {
        true
    }

    open spec fn from_spec(value: Pct) -> Self {
        PxPct::Pct(value.0)
    }
}

impl From<Px> for PxPct {
    fn from(value: Px) -> (r: Self) {
        PxPct::Px(value.0)
    }
}

impl vstd::std_specs::convert::FromSpecImpl<Px> for PxPct {
    open spec fn obeys_from_spec() -> bool {
        true
    }

    open spec fn from_spec(value: Px) -> Self {
        PxPct::Px(value.0)
    }
}

impl From<Pct> for PxPctAuto {
    fn from(value: Pct) -> (r: Self) {
        PxPctAuto::Pct(value.0)
    }
}

impl vstd::std_specs::convert::FromSpecImpl<Pct> for PxPctAuto {
    open spec fn obeys_from_spec() -> bool {
        true
    }

    open spec fn from_spec(value: Pct) -> Self {
        PxPctAuto::Pct(value.0)
    }
}

impl From<Px> for PxPctAuto {
    fn from(value: Px) -> (r: Self) {
        PxPctAuto::Px(value.0)
    }
}

impl vstd::std_specs::convert::FromSpecImpl<Px> for PxPctAuto {
    open spec fn obeys_from_spec() -> bool {
        true
    }

    open spec fn from_spec(value: Px) -> Self {
        PxPctAuto::Px(value.0)
    }
}

impl From<Auto> for PxPctAuto {
    fn from(_value: Auto) -> (r: Self) {
        PxPctAuto::Auto
    }
}

impl vstd::std_specs::convert::FromSpecImpl<Auto> for PxPctAuto {
    open spec fn obeys_from_spec() -> bool {
        true
    }

    open spec fn from_spec(_value: Auto) -> Self {
        PxPctAuto::Auto
    }
}

impl From<PxPct> for PxPctAuto {
    fn from(value: PxPct) -> (r: Self) {
        match value {
            PxPct::Px(px) => PxPctAuto::Px(px),
            PxPct::Pct(pct) => PxPctAuto::Pct(pct),
        }
    }
}

impl vstd::std_specs::convert::FromSpecImpl<PxPct> for PxPctAuto {
    open spec fn obeys_from_spec() -> bool {
        true
    }

    open spec fn from_spec(value: PxPct) -> Self {
        match value {
            PxPct::Px(px) => PxPctAuto::Px(px),
            PxPct::Pct(pct) => PxPctAuto::Pct(pct),
        }
    }
}

} // verus!
