//! Palette and color resolution.
//!
//! A paint step names a palette entry and an alpha factor. The reserved
//! index `FOREGROUND_INDEX` selects the caller-supplied foreground color
//! instead of the palette. The stored 8-bit alpha is scaled by the factor
//! (a count of ten-thousandths in `[0, ALPHA_ONE]`) and truncated back to
//! 8 bits.

use vstd::prelude::*;
use vstd::string::StringExecFns;
use crate::num::{dec_digits, scalar_digits, u64_to_dec, scalar_to_dec};

verus! {

/// Reserved palette index meaning "use the foreground color".
pub const FOREGROUND_INDEX: u16 = 65535;

/// The alpha factor standing for `1.0`, in ten-thousandths.
pub const ALPHA_ONE: u16 = 10000;

/// An 8-bit RGBA color.
#[derive(Clone, Copy, PartialEq, Eq, Structural, Debug)]
pub struct Color {
    pub red: u8,
    pub green: u8,
    pub blue: u8,
    pub alpha: u8,
}

/// The stored alpha scaled by a factor in ten-thousandths, truncated.
pub open spec fn combined_alpha(stored: nat, factor: nat) -> nat {
    (stored * factor) / (ALPHA_ONE as nat)
}

/// The color a palette index and alpha factor resolve to, or `None` on a
/// missing palette or an out-of-range index.
pub open spec fn resolve_color_spec(
    palette: Option<Seq<Color>>,
    foreground: Color,
    index: u16,
    factor: u16,
) -> Option<Color> {
    let base = if index == FOREGROUND_INDEX {
        Some(foreground)
    } else {
        match palette {
            Some(p) => if (index as int) < p.len() {
                Some(p[index as int])
            } else {
                None
            },
            None => None,
        }
    };
    match base {
        Some(c) => Some(
            Color {
                red: c.red,
                green: c.green,
                blue: c.blue,
                alpha: combined_alpha(c.alpha as nat, factor as nat) as u8,
            },
        ),
        None => None,
    }
}

/// The combined alpha never exceeds 8 bits for factors up to `ALPHA_ONE`.
pub proof fn lemma_combined_alpha_fits(stored: nat, factor: nat)
    requires
        stored <= 255,
        factor <= ALPHA_ONE as nat,
    ensures
        combined_alpha(stored, factor) <= stored,
{
    assert(stored * factor <= stored * (ALPHA_ONE as nat)) by (nonlinear_arith)
        requires
            factor <= ALPHA_ONE as nat,
            0 <= stored,
    ;
    assert(stored * (ALPHA_ONE as nat) / (ALPHA_ONE as nat) == stored) by (nonlinear_arith);
    vstd::arithmetic::div_mod::lemma_div_is_ordered(
        (stored * factor) as int,
        (stored * (ALPHA_ONE as nat)) as int,
        ALPHA_ONE as int,
    );
}

/// The combined alpha is non-increasing as the factor decreases, and equals
/// the stored alpha exactly at the factor standing for `1.0`.
pub proof fn lemma_alpha_monotone(stored: nat, f1: nat, f2: nat)
    requires
        f1 <= f2,
    ensures
        combined_alpha(stored, f1) <= combined_alpha(stored, f2),
        combined_alpha(stored, ALPHA_ONE as nat) == stored,
{
    assert(stored * f1 <= stored * f2) by (nonlinear_arith)
        requires
            f1 <= f2,
            0 <= stored,
    ;
    vstd::arithmetic::div_mod::lemma_div_is_ordered(
        (stored * f1) as int,
        (stored * f2) as int,
        ALPHA_ONE as int,
    );
    assert(stored * (ALPHA_ONE as nat) / (ALPHA_ONE as nat) == stored) by (nonlinear_arith);
}

/// Scales an 8-bit alpha by a factor in ten-thousandths, truncating.
pub fn combine_alpha(stored: u8, factor: u16) -> (r: u8)
    requires
        factor <= ALPHA_ONE,
    ensures
        r as nat == combined_alpha(stored as nat, factor as nat),
{
    proof {
        lemma_combined_alpha_fits(stored as nat, factor as nat);
    }
    ((stored as u32 * factor as u32) / (ALPHA_ONE as u32)) as u8
}

/// Resolves a palette index and alpha factor against a palette and a
/// foreground color.
pub fn resolve_color(
    palette: &Option<Vec<Color>>,
    foreground: Color,
    index: u16,
    factor: u16,
) -> (r: Option<Color>)
    requires
        factor <= ALPHA_ONE,
    ensures
        r == resolve_color_spec(
            match palette {
                Some(p) => Some(p@),
                None => None,
            },
            foreground,
            index,
            factor,
        ),
{
    let base: Option<Color> = if index == FOREGROUND_INDEX {
        Some(foreground)
    } else {
        match palette {
            Some(p) => {
                if (index as usize) < p.len() {
                    Some(p[index as usize])
                } else {
                    None
                }
            },
            None => None,
        }
    };
    match base {
        Some(c) => Some(
            Color {
                red: c.red,
                green: c.green,
                blue: c.blue,
                alpha: combine_alpha(c.alpha, factor),
            },
        ),
        None => None,
    }
}

/// The value of an `rgb(...)` color attribute.
pub open spec fn rgb_str(c: Color) -> Seq<char> {
    "rgb("@ + dec_digits(c.red as nat) + ", "@ + dec_digits(c.green as nat) + ", "@ + dec_digits(
        c.blue as nat,
    ) + ")"@
}

/// The 8-bit alpha as a fixed-point opacity in ten-thousandths.
pub open spec fn opacity_of(alpha: nat) -> int {
    ((alpha * 10000) / 255) as int
}

/// The value of an opacity attribute for an 8-bit alpha.
pub open spec fn opacity_str(alpha: nat) -> Seq<char> {
    scalar_digits(opacity_of(alpha))
}

/// Renders `c` as an `rgb(...)` attribute value.
pub fn rgb_attr_value(c: &Color) -> (r: String)
    ensures
        r@ == rgb_str(*c),
{
    let mut s = String::from_str("rgb(");
    s.append(u64_to_dec(c.red as u64).as_str());
    s.append(", ");
    s.append(u64_to_dec(c.green as u64).as_str());
    s.append(", ");
    s.append(u64_to_dec(c.blue as u64).as_str());
    s.append(")");
    proof {
        assert(s@ =~= rgb_str(*c));
    }
    s
}

/// Renders an 8-bit alpha as an opacity attribute value.
pub fn opacity_attr_value(alpha: u8) -> (r: String)
    ensures
        r@ == opacity_str(alpha as nat),
{
    let v: u64 = (alpha as u64 * 10000) / 255;
    proof {
        assert(v as int == opacity_of(alpha as nat));
        assert(v <= 10000) by (nonlinear_arith)
            requires
                v as nat == (alpha as nat * 10000) / 255,
                alpha <= 255,
        ;
    }
    scalar_to_dec(v as i64)
}

} // verus!
