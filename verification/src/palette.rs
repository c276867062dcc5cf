//! The colours that the trajectories of a chart are drawn in.
use vstd::prelude::*;

verus! {

/// How many colours the palette holds.
pub const PALETTE_SIZE: usize = 4;

/// A colour of the palette.
#[derive(Clone, Copy, Debug, PartialEq, Eq, Structural)]
pub enum SeriesColor {
    Red,
    Black,
    Blue,
    Green,
}

/// The colour of trajectory `index`: the palette in its fixed order, begun
/// again after every fourth trajectory.
pub open spec fn color_at(index: nat) -> SeriesColor {
    let place = index % (PALETTE_SIZE as nat);
    if place == 0 {
        SeriesColor::Red
    } else if place == 1 {
        SeriesColor::Black
    } else if place == 2 {
        SeriesColor::Blue
    } else {
        SeriesColor::Green
    }
}

/// The colour that trajectory `index` is drawn in.
pub fn series_color(index: usize) -> (color: SeriesColor)
    ensures
        color == color_at(index as nat),
{
    let place: usize = index % PALETTE_SIZE;
    if place == 0 {
        SeriesColor::Red
    } else if place == 1 {
        SeriesColor::Black
    } else if place == 2 {
        SeriesColor::Blue
    } else {
        SeriesColor::Green
    }
}

/// The colours repeat with the size of the palette as their period.
pub proof fn lemma_colors_cycle(index: nat)
    ensures
        color_at(index + PALETTE_SIZE as nat) == color_at(index),
{
}

} // verus!
