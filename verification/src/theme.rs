//! The colours of the game, by what they are used for.

use vstd::prelude::*;
use crate::color::Color;
use crate::colors;

verus! {

pub open spec fn spec_background() -> Color {
    colors::spec_black()
}

#[verifier::when_used_as_spec(spec_background)]
pub fn background() -> (color: Color)
    ensures
        color == spec_background(),
{
    colors::black()
}

pub open spec fn spec_color_dark_wall() -> Color {
    colors::spec_navy()
}

#[verifier::when_used_as_spec(spec_color_dark_wall)]
pub fn color_dark_wall() -> (color: Color)
    ensures
        color == spec_color_dark_wall(),
{
    colors::navy()
}

pub open spec fn spec_color_light_wall() -> Color {
    Color { red: 130, green: 110, blue: 50, alpha: 255 }
}

#[verifier::when_used_as_spec(spec_color_light_wall)]
pub fn color_light_wall() -> (color: Color)
    ensures
        color == spec_color_light_wall(),
{
    Color::from_int(130, 110, 50, 255)
}

pub open spec fn spec_color_dark_floor() -> Color {
    colors::spec_dark_indigo()
}

#[verifier::when_used_as_spec(spec_color_dark_floor)]
pub fn color_dark_floor() -> (color: Color)
    ensures
        color == spec_color_dark_floor(),
{
    colors::dark_indigo()
}

pub open spec fn spec_color_light_floor() -> Color {
    Color { red: 200, green: 180, blue: 50, alpha: 255 }
}

#[verifier::when_used_as_spec(spec_color_light_floor)]
pub fn color_light_floor() -> (color: Color)
    ensures
        color == spec_color_light_floor(),
{
    Color::from_int(200, 180, 50, 255)
}

pub open spec fn spec_red_alert_text() -> Color {
    colors::spec_dark_red()
}

#[verifier::when_used_as_spec(spec_red_alert_text)]
pub fn red_alert_text() -> (color: Color)
    ensures
        color == spec_red_alert_text(),
{
    colors::dark_red()
}

pub open spec fn spec_green_alert_text() -> Color {
    colors::spec_dark_green()
}

#[verifier::when_used_as_spec(spec_green_alert_text)]
pub fn green_alert_text() -> (color: Color)
    ensures
        color == spec_green_alert_text(),
{
    colors::dark_green()
}

pub open spec fn spec_regular_alert_text() -> Color {
    colors::spec_white()
}

#[verifier::when_used_as_spec(spec_regular_alert_text)]
pub fn regular_alert_text() -> (color: Color)
    ensures
        color == spec_regular_alert_text(),
{
    colors::white()
}

pub open spec fn spec_player() -> Color {
    colors::spec_white()
}

#[verifier::when_used_as_spec(spec_player)]
pub fn player() -> (color: Color)
    ensures
        color == spec_player(),
{
    colors::white()
}

pub open spec fn spec_blood() -> Color {
    colors::spec_red()
}

#[verifier::when_used_as_spec(spec_blood)]
pub fn blood() -> (color: Color)
    ensures
        color == spec_blood(),
{
    colors::red()
}

pub open spec fn spec_troll() -> Color {
    colors::spec_desaturated_green()
}

#[verifier::when_used_as_spec(spec_troll)]
pub fn troll() -> (color: Color)
    ensures
        color == spec_troll(),
{
    colors::desaturated_green()
}

pub open spec fn spec_orc() -> Color {
    colors::spec_light_green()
}

#[verifier::when_used_as_spec(spec_orc)]
pub fn orc() -> (color: Color)
    ensures
        color == spec_orc(),
{
    colors::light_green()
}

pub open spec fn spec_healing_item() -> Color {
    colors::spec_light_slate_blue()
}

#[verifier::when_used_as_spec(spec_healing_item)]
pub fn healing_item() -> (color: Color)
    ensures
        color == spec_healing_item(),
{
    colors::light_slate_blue()
}

pub open spec fn spec_scroll_item() -> Color {
    colors::spec_light_yellow()
}

#[verifier::when_used_as_spec(spec_scroll_item)]
pub fn scroll_item() -> (color: Color)
    ensures
        color == spec_scroll_item(),
{
    colors::light_yellow()
}

} // verus!
