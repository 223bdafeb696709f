//! The constraints.json model.
//!
//! Constraints express the design system's enforcement posture: what the
//! Critic treats as a hard fail and what as a soft warning. Numbers that
//! the file may write with a fraction (contrast ratios) are kept as exact
//! decimals.

use vstd::prelude::*;
use crate::json::{Decimal, Json};
use crate::text::to_owned;

verus! {

/// How strictly the Critic applies the design system.
#[derive(Debug, Clone, Copy, PartialEq, Eq, Structural)]
pub enum Enforcement {
    Strict,
    Balanced,
    Lenient,
}

#[derive(Debug, Clone, Copy, PartialEq, Eq, Structural)]
pub struct AllowExtension {
    pub tokens: bool,
    pub components: bool,
    pub patterns: bool,
}

#[derive(Debug)]
pub struct Craft {
    pub requires: Vec<String>,
    pub overrides: Vec<(String, Json)>,
}

#[derive(Debug, Clone, Copy)]
pub struct A11y {
    pub contrast_min: Decimal,
    pub large_contrast_min: Decimal,
    pub require_focus_ring: bool,
}

#[derive(Debug, Clone, Copy, PartialEq, Eq, Structural)]
pub struct Typography {
    pub max_sizes_per_frame: Option<u32>,
    pub max_weights_per_frame: Option<u32>,
}

#[derive(Debug, Clone, Copy, PartialEq, Eq, Structural)]
pub struct Spacing {
    pub base: u32,
    pub disallow_odd_px: bool,
}

#[derive(Debug, Clone, Copy, PartialEq, Eq, Structural)]
pub struct Color {
    pub max_hues_per_frame: Option<u32>,
    pub brand_color_for_interactive_only: bool,
}

#[derive(Debug)]
pub struct Constraints {
    pub version: String,
    pub enforcement: Enforcement,
    pub allow_extension: AllowExtension,
    pub craft: Craft,
    pub a11y: A11y,
    pub typography: Typography,
    pub spacing: Spacing,
    pub color: Color,
}

/// The name an enforcement level is shown by.
pub open spec fn enforcement_name(e: Enforcement) -> Seq<char> {
    match e {
        Enforcement::Strict => "Strict"@,
        Enforcement::Balanced => "Balanced"@,
        Enforcement::Lenient => "Lenient"@,
    }
}

/// `4.5`, the WCAG AA contrast minimum for body text.
pub open spec fn default_contrast_min() -> Decimal {
    Decimal { negative: false, digits: 45, exponent: -1i32, integer: false }
}

/// `3.0`, the WCAG AA contrast minimum for large text (a whole number, so
/// it is written without a fraction).
pub open spec fn default_large_contrast_min() -> Decimal {
    Decimal { negative: false, digits: 3, exponent: 0i32, integer: false }
}

impl Enforcement {
    /// The level's name, as prompts show it.
    pub fn name(&self) -> (r: &'static str)
        ensures
            r@ == enforcement_name(*self),
    {
        match self {
            Enforcement::Strict => "Strict",
            Enforcement::Balanced => "Balanced",
            Enforcement::Lenient => "Lenient",
        }
    }
}

impl Default for Enforcement {
    fn default() -> (r: Enforcement)
        ensures
            r == Enforcement::Balanced,
    {
        Enforcement::Balanced
    }
}

impl Default for AllowExtension {
    fn default() -> (r: AllowExtension)
        ensures
            !r.tokens && !r.components && !r.patterns,
    {
        AllowExtension { tokens: false, components: false, patterns: false }
    }
}

impl Default for Craft {
    fn default() -> (r: Craft)
        ensures
            r.requires@.len() == 0,
            r.overrides@.len() == 0,
    {
        Craft { requires: Vec::new(), overrides: Vec::new() }
    }
}

impl Default for A11y {
    fn default() -> (r: A11y)
        ensures
            r.contrast_min == default_contrast_min(),
            r.large_contrast_min == default_large_contrast_min(),
            r.require_focus_ring,
    {
        A11y {
            contrast_min: Decimal { negative: false, digits: 45, exponent: -1, integer: false },
            large_contrast_min: Decimal { negative: false, digits: 3, exponent: 0, integer: false },
            require_focus_ring: true,
        }
    }
}

impl Default for Typography {
    fn default() -> (r: Typography)
        ensures
            r.max_sizes_per_frame is None,
            r.max_weights_per_frame is None,
    {
        Typography { max_sizes_per_frame: None, max_weights_per_frame: None }
    }
}

impl Default for Spacing {
    /// The spacing block's value when the file has none. A `spacing` block
    /// that is present but gives no `base` reads as base 4 instead.
    fn default() -> (r: Spacing)
        ensures
            r.base == 0,
            !r.disallow_odd_px,
    {
        Spacing { base: 0, disallow_odd_px: false }
    }
}

impl Default for Color {
    fn default() -> (r: Color)
        ensures
            r.max_hues_per_frame is None,
            !r.brand_color_for_interactive_only,
    {
        Color { max_hues_per_frame: None, brand_color_for_interactive_only: false }
    }
}

impl Default for Constraints {
    fn default() -> (r: Constraints)
        ensures
            r.version@ == "0.0.0"@,
            r.enforcement == Enforcement::Balanced,
            !r.allow_extension.tokens && !r.allow_extension.components
                && !r.allow_extension.patterns,
            r.craft.requires@.len() == 0,
            r.craft.overrides@.len() == 0,
            r.a11y.contrast_min == default_contrast_min(),
            r.a11y.large_contrast_min == default_large_contrast_min(),
            r.a11y.require_focus_ring,
            r.typography.max_sizes_per_frame is None,
            r.typography.max_weights_per_frame is None,
            r.spacing.base == 0,
            !r.spacing.disallow_odd_px,
            r.color.max_hues_per_frame is None,
            !r.color.brand_color_for_interactive_only,
    {
        Constraints {
            version: to_owned("0.0.0"),
            enforcement: Enforcement::default(),
            allow_extension: AllowExtension::default(),
            craft: Craft::default(),
            a11y: A11y::default(),
            typography: Typography::default(),
            spacing: Spacing::default(),
            color: Color::default(),
        }
    }
}

} // verus!
