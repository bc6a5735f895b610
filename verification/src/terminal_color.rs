//! Terminal background palette: light/dark classification of a detected
//! background color and the subtle overlay tints derived from it for the
//! composer and for tool content areas.
//!
//! Detecting the background itself (an OSC 11 query) is I/O and lives with
//! the host program; everything here is a pure function of the detected
//! color, which callers pass in.

use vstd::prelude::*;

verus! {

/// BT.601 luma of an RGB color, scaled by 1000:
/// `299 R + 587 G + 114 B`.
pub open spec fn spec_luma_milli(bg: (u8, u8, u8)) -> int {
    299 * bg.0 + 587 * bg.1 + 114 * bg.2
}

/// A background counts as light when its BT.601 luma exceeds 128.
pub open spec fn spec_is_light(bg: (u8, u8, u8)) -> bool {
    spec_luma_milli(bg) > 128000
}

pub fn is_light(bg: (u8, u8, u8)) -> (r: bool)
    ensures
        r == spec_is_light(bg),
{
    let (r, g, b) = bg;
    let y: u32 = 299 * (r as u32) + 587 * (g as u32) + 114 * (b as u32);
    y > 128000
}

/// One channel of `top` blended over `bottom` at `alpha` percent, truncating:
/// `(top * alpha + bottom * (100 - alpha)) / 100`.
pub open spec fn spec_blend_channel(top: u8, bottom: u8, alpha_pct: u8) -> int
    recommends
        alpha_pct <= 100,
{
    (top * alpha_pct + bottom * (100 - alpha_pct)) / 100
}

/// `top` blended over `bottom` at `alpha_pct` percent opacity, per channel.
pub open spec fn spec_blend(top: (u8, u8, u8), bottom: (u8, u8, u8), alpha_pct: u8) -> (
    u8,
    u8,
    u8,
) {
    (
        spec_blend_channel(top.0, bottom.0, alpha_pct) as u8,
        spec_blend_channel(top.1, bottom.1, alpha_pct) as u8,
        spec_blend_channel(top.2, bottom.2, alpha_pct) as u8,
    )
}

/// One channel of the percent blend, truncating.
pub fn blend_channel(top: u8, bottom: u8, alpha_pct: u8) -> (r: u8)
    requires
        alpha_pct <= 100,
    ensures
        r == spec_blend_channel(top, bottom, alpha_pct),
{
    proof {
        assert((top as int) * (alpha_pct as int) <= 25500) by (nonlinear_arith)
            requires
                top <= 255,
                alpha_pct <= 100,
        ;
        assert((bottom as int) * (100 - alpha_pct as int) <= 25500) by (nonlinear_arith)
            requires
                bottom <= 255,
                alpha_pct <= 100,
        ;
        assert((top as int) * (alpha_pct as int) + (bottom as int) * (100 - alpha_pct as int)
            <= 25500) by (nonlinear_arith)
            requires
                top <= 255,
                bottom <= 255,
                alpha_pct <= 100,
        ;
    }
    let num: u32 = (top as u32) * (alpha_pct as u32) + (bottom as u32) * (100 - (alpha_pct
        as u32));
    let r = (num / 100) as u8;
    proof {
        assert(num <= 25500);
        assert(num / 100 <= 255);
        assert(num == top * alpha_pct + bottom * (100 - alpha_pct));
    }
    r
}

pub fn blend(top: (u8, u8, u8), bottom: (u8, u8, u8), alpha_pct: u8) -> (r: (u8, u8, u8))
    requires
        alpha_pct <= 100,
    ensures
        r == spec_blend(top, bottom, alpha_pct),
{
    (
        blend_channel(top.0, bottom.0, alpha_pct),
        blend_channel(top.1, bottom.1, alpha_pct),
        blend_channel(top.2, bottom.2, alpha_pct),
    )
}

/// The composer background derived from the detected terminal background:
/// white at 12% over dark backgrounds, black at 4% over light ones, and a
/// fixed dark gray when no background could be detected.
pub open spec fn spec_composer_bg(bg: Option<(u8, u8, u8)>) -> ratatui::style::Color {
    match bg {
        Some(b) => {
            let t = if spec_is_light(b) {
                spec_blend((0, 0, 0), b, 4)
            } else {
                spec_blend((255, 255, 255), b, 12)
            };
            ratatui::style::Color::Rgb(t.0, t.1, t.2)
        },
        None => ratatui::style::Color::Rgb(40, 40, 40),
    }
}

pub fn composer_bg(bg: Option<(u8, u8, u8)>) -> (r: ratatui::style::Color)
    ensures
        r == spec_composer_bg(bg),
{
    match bg {
        Some(b) => {
            let t = if is_light(b) {
                blend((0, 0, 0), b, 4)
            } else {
                blend((255, 255, 255), b, 12)
            };
            ratatui::style::Color::Rgb(t.0, t.1, t.2)
        },
        None => ratatui::style::Color::Rgb(40, 40, 40),
    }
}

/// The tool-content background tint: white at 6% over dark backgrounds,
/// black at 3% over light ones, and a fixed dark gray when unknown. Slightly
/// fainter than the composer background.
pub open spec fn spec_tool_content_bg(bg: Option<(u8, u8, u8)>) -> ratatui::style::Color {
    match bg {
        Some(b) => {
            let t = if spec_is_light(b) {
                spec_blend((0, 0, 0), b, 3)
            } else {
                spec_blend((255, 255, 255), b, 6)
            };
            ratatui::style::Color::Rgb(t.0, t.1, t.2)
        },
        None => ratatui::style::Color::Rgb(35, 35, 35),
    }
}

pub fn tool_content_bg(bg: Option<(u8, u8, u8)>) -> (r: ratatui::style::Color)
    ensures
        r == spec_tool_content_bg(bg),
{
    match bg {
        Some(b) => {
            let t = if is_light(b) {
                blend((0, 0, 0), b, 3)
            } else {
                blend((255, 255, 255), b, 6)
            };
            ratatui::style::Color::Rgb(t.0, t.1, t.2)
        },
        None => ratatui::style::Color::Rgb(35, 35, 35),
    }
}

} // verus!
