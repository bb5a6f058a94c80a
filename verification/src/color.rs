use vstd::prelude::*;
use crate::names::Named;

verus! {

/// `hex_color::HexColor` is carried through the configuration without being
/// inspected, so Verus only needs to know that the type exists.
#[verifier::external_type_specification]
#[verifier::external_body]
pub struct ExHexColor(hex_color::HexColor);

/// The eight ANSI colors of one intensity (normal, bright or dim) of a scheme.
/// `None` means that the scheme leaves the color to the terminal's default.
#[derive(Clone, Debug, Default, PartialEq, Eq)]
pub struct ColorSchemeAnsi {
    pub black: Option<hex_color::HexColor>,
    pub red: Option<hex_color::HexColor>,
    pub green: Option<hex_color::HexColor>,
    pub yellow: Option<hex_color::HexColor>,
    pub blue: Option<hex_color::HexColor>,
    pub magenta: Option<hex_color::HexColor>,
    pub cyan: Option<hex_color::HexColor>,
    pub white: Option<hex_color::HexColor>,
}

impl ColorSchemeAnsi {
    /// True when the scheme sets none of the eight colors.
    pub open spec fn spec_is_empty(&self) -> bool {
        &&& self.black is None
        &&& self.red is None
        &&& self.green is None
        &&& self.yellow is None
        &&& self.blue is None
        &&& self.magenta is None
        &&& self.cyan is None
        &&& self.white is None
    }

    pub fn is_empty(&self) -> (r: bool)
        ensures
            r == self.spec_is_empty(),
    {
        self.black.is_none() && self.red.is_none() && self.green.is_none() && self.yellow.is_none()
            && self.blue.is_none() && self.magenta.is_none() && self.cyan.is_none()
            && self.white.is_none()
    }
}

/// A terminal color scheme. Every color is optional; `None` leaves it to the
/// terminal's default.
#[derive(Clone, Debug, Default, PartialEq, Eq)]
pub struct ColorScheme {
    pub name: String,
    pub foreground: Option<hex_color::HexColor>,
    pub background: Option<hex_color::HexColor>,
    pub cursor: Option<hex_color::HexColor>,
    pub bright_foreground: Option<hex_color::HexColor>,
    pub dim_foreground: Option<hex_color::HexColor>,
    pub normal: ColorSchemeAnsi,
    pub bright: ColorSchemeAnsi,
    pub dim: ColorSchemeAnsi,
}

impl Named for ColorScheme {
    open spec fn name_view(&self) -> Seq<char> {
        self.name@
    }

    fn name(&self) -> (r: &String) {
        &self.name
    }
}

} // verus!
