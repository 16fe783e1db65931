//! Phosphor sub-aqua palette: deep ocean base, phosphor-green data, cyan live
//! values, amber warnings, salt-rust accents on damaged or idle indicators.
//!
//! This is the complete, named colour vocabulary. A few entries (`HULL`,
//! `SONAR_DIM`, `KRAKEN_INK`, `s_accent`) are not painted by the current panes and
//! are kept so that the palette stays whole.

use vstd::prelude::*;

verus! {

/// A colour: one byte each for red, green and blue, red first.
pub type Color = u32;

/// How a piece of text looks.
#[derive(Debug, Clone, Copy, PartialEq, Eq, Structural)]
pub struct Style {
    pub fg: Color,
    pub bg: Color,
    pub bold: bool,
}

/// Background.
pub const ABYSS: Color = 0x04080e;

/// Pane background.
pub const HULL: Color = 0x0c1820;

/// Pane border highlight.
pub const HULL_HI: Color = 0x142838;

/// Primary text.
pub const PHOSPHOR: Color = 0x50ff8c;

/// Secondary text.
pub const PHOSPHOR_DIM: Color = 0x288c50;

/// Live values, ping.
pub const SONAR_CYAN: Color = 0x50dcf0;

/// Faded ping.
pub const SONAR_DIM: Color = 0x146482;

/// Warnings.
pub const AMBER: Color = 0xffb43c;

/// Damaged or idle.
pub const SALT_RUST: Color = 0xb45a28;

/// Accent.
pub const KRAKEN_INK: Color = 0x3c005a;

/// Headers, callouts.
pub const BONE: Color = 0xdcdcc8;

/// Text in colour `fg` on the background.
pub open spec fn ink(fg: Color, bold: bool) -> Style {
    Style { fg, bg: ABYSS, bold }
}

/// The style of pane borders.
#[verifier::allow_in_spec]
pub fn s_pane_border() -> (r: Style)
    returns
        ink(HULL_HI, false),
{
    Style { fg: HULL_HI, bg: ABYSS, bold: false }
}

/// The style of titles.
#[verifier::allow_in_spec]
pub fn s_title() -> (r: Style)
    returns
        ink(BONE, true),
{
    Style { fg: BONE, bg: ABYSS, bold: true }
}

/// The style of primary text.
#[verifier::allow_in_spec]
pub fn s_text() -> (r: Style)
    returns
        ink(PHOSPHOR, false),
{
    Style { fg: PHOSPHOR, bg: ABYSS, bold: false }
}

/// The style of secondary text.
#[verifier::allow_in_spec]
pub fn s_text_dim() -> (r: Style)
    returns
        ink(PHOSPHOR_DIM, false),
{
    Style { fg: PHOSPHOR_DIM, bg: ABYSS, bold: false }
}

/// The style of live values.
#[verifier::allow_in_spec]
pub fn s_live() -> (r: Style)
    returns
        ink(SONAR_CYAN, true),
{
    Style { fg: SONAR_CYAN, bg: ABYSS, bold: true }
}

/// The style of warnings.
#[verifier::allow_in_spec]
pub fn s_warn() -> (r: Style)
    returns
        ink(AMBER, true),
{
    Style { fg: AMBER, bg: ABYSS, bold: true }
}

/// The style of idle indicators.
#[verifier::allow_in_spec]
pub fn s_idle() -> (r: Style)
    returns
        ink(SALT_RUST, false),
{
    Style { fg: SALT_RUST, bg: ABYSS, bold: false }
}

/// The style of accents.
#[verifier::allow_in_spec]
pub fn s_accent() -> (r: Style)
    returns
        ink(KRAKEN_INK, false),
{
    Style { fg: KRAKEN_INK, bg: ABYSS, bold: false }
}

} // verus!
