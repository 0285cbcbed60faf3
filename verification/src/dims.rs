use vstd::prelude::*;

verus! {

/// Dimensions are scaled points (65536 to a printer's point), kept in `i32`
/// like the engine's registers. Arithmetic on them saturates at the
/// representable range instead of wrapping.
pub open spec fn sat_add(a: int, b: int) -> int {
    if a + b > i32::MAX as int {
        i32::MAX as int
    } else if a + b < i32::MIN as int {
        i32::MIN as int
    } else {
        a + b
    }
}

pub open spec fn sat_sub(a: int, b: int) -> int {
    sat_add(a, -b)
}

/// Saturating addition of two dimensions.
pub fn dim_add(a: i32, b: i32) -> (r: i32)
    ensures
        r as int == sat_add(a as int, b as int),
{
    let s: i64 = a as i64 + b as i64;
    if s > i32::MAX as i64 {
        i32::MAX
    } else if s < i32::MIN as i64 {
        i32::MIN
    } else {
        s as i32
    }
}

/// Saturating subtraction of two dimensions.
pub fn dim_sub(a: i32, b: i32) -> (r: i32)
    ensures
        r as int == sat_sub(a as int, b as int),
{
    let s: i64 = a as i64 - b as i64;
    if s > i32::MAX as i64 {
        i32::MAX
    } else if s < i32::MIN as i64 {
        i32::MIN
    } else {
        s as i32
    }
}

/// The order of infinity of a glue's stretch or shrink component.
#[derive(Clone, Copy, PartialEq, Eq, Structural, Debug)]
pub enum StretchOrder {
    Normal,
    Fil,
    Fill,
    Filll,
}

/// One stretch or shrink component of a glue value.
#[derive(Clone, Copy, PartialEq, Eq, Structural, Debug)]
pub struct GlueComponent {
    pub amount: i32,
    pub order: StretchOrder,
}

/// A glue value: a base dimension with optional stretch and shrink.
/// Skips and mu-skips share this representation; which unit applies
/// is decided by where the value is used.
#[derive(Clone, Copy, PartialEq, Eq, Structural, Debug)]
pub struct Skip {
    pub base: i32,
    pub stretch: Option<GlueComponent>,
    pub shrink: Option<GlueComponent>,
}

impl Skip {
    /// The zero glue: no width, no stretch, no shrink.
    pub fn zero() -> (r: Skip)
        ensures
            r == Skip::spec_zero(),
    {
        Skip { base: 0, stretch: None, shrink: None }
    }

    pub open spec fn spec_zero() -> Skip {
        Skip { base: 0, stretch: None, shrink: None }
    }
}

} // verus!
