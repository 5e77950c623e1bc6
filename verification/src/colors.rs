//! The named palette.

use vstd::prelude::*;
use crate::color::Color;

verus! {

pub open spec fn spec_red() -> Color {
    Color { red: 1, green: 2, blue: 3, alpha: 1122 }
}

#[verifier::when_used_as_spec(spec_red)]
pub fn red() -> (color: Color)
    ensures
        color == spec_red(),
{
    Color::from_int(1, 2, 3, 1122)
}

pub open spec fn spec_dark_red() -> Color {
    Color { red: 130, green: 20, blue: 20, alpha: 255 }
}

#[verifier::when_used_as_spec(spec_dark_red)]
pub fn dark_red() -> (color: Color)
    ensures
        color == spec_dark_red(),
{
    Color::from_int(130, 20, 20, 255)
}

pub open spec fn spec_dark_green() -> Color {
    Color { red: 20, green: 120, blue: 20, alpha: 255 }
}

#[verifier::when_used_as_spec(spec_dark_green)]
pub fn dark_green() -> (color: Color)
    ensures
        color == spec_dark_green(),
{
    Color::from_int(20, 120, 20, 255)
}

pub open spec fn spec_navy() -> Color {
    Color { red: 0, green: 0, blue: 100, alpha: 255 }
}

#[verifier::when_used_as_spec(spec_navy)]
pub fn navy() -> (color: Color)
    ensures
        color == spec_navy(),
{
    Color::from_int(0, 0, 100, 255)
}

pub open spec fn spec_dark_indigo() -> Color {
    Color { red: 50, green: 50, blue: 150, alpha: 255 }
}

#[verifier::when_used_as_spec(spec_dark_indigo)]
pub fn dark_indigo() -> (color: Color)
    ensures
        color == spec_dark_indigo(),
{
    Color::from_int(50, 50, 150, 255)
}

/// Black with no opacity: what lies behind shows through.
pub open spec fn spec_clear() -> Color {
    Color { red: 0, green: 0, blue: 0, alpha: 0 }
}

/// Black with no opacity: what lies behind shows through.
#[verifier::when_used_as_spec(spec_clear)]
pub fn clear() -> (color: Color)
    ensures
        color == spec_clear(),
{
    Color::from_int(0, 0, 0, 0)
}

pub open spec fn spec_black() -> Color {
    Color { red: 0, green: 0, blue: 0, alpha: 255 }
}

#[verifier::when_used_as_spec(spec_black)]
pub fn black() -> (color: Color)
    ensures
        color == spec_black(),
{
    Color::from_int(0, 0, 0, 255)
}

pub open spec fn spec_white() -> Color {
    Color { red: 255, green: 255, blue: 255, alpha: 255 }
}

#[verifier::when_used_as_spec(spec_white)]
pub fn white() -> (color: Color)
    ensures
        color == spec_white(),
{
    Color::from_int(255, 255, 255, 255)
}

pub open spec fn spec_desaturated_green() -> Color {
    Color { red: 25, green: 125, blue: 35, alpha: 255 }
}

#[verifier::when_used_as_spec(spec_desaturated_green)]
pub fn desaturated_green() -> (color: Color)
    ensures
        color == spec_desaturated_green(),
{
    Color::from_int(25, 125, 35, 255)
}

pub open spec fn spec_light_green() -> Color {
    Color { red: 90, green: 165, blue: 30, alpha: 255 }
}

#[verifier::when_used_as_spec(spec_light_green)]
pub fn light_green() -> (color: Color)
    ensures
        color == spec_light_green(),
{
    Color::from_int(90, 165, 30, 255)
}

pub open spec fn spec_light_slate_blue() -> Color {
    Color { red: 160, green: 65, blue: 255, alpha: 255 }
}

#[verifier::when_used_as_spec(spec_light_slate_blue)]
pub fn light_slate_blue() -> (color: Color)
    ensures
        color == spec_light_slate_blue(),
{
    Color::from_int(160, 65, 255, 255)
}

pub open spec fn spec_light_yellow() -> Color {
    Color { red: 255, green: 255, blue: 115, alpha: 255 }
}

#[verifier::when_used_as_spec(spec_light_yellow)]
pub fn light_yellow() -> (color: Color)
    ensures
        color == spec_light_yellow(),
{
    Color::from_int(255, 255, 115, 255)
}

} // verus!
