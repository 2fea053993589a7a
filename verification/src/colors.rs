//! The application's fixed colours, as RGB triples.

use vstd::prelude::*;

verus! {

/// Background of node frames and cards: #424242 in dark mode, #EEEEEE in light mode.
pub fn conatiner_background(dark_mode: bool) -> (rgb: (u8, u8, u8))
    ensures
        rgb == if dark_mode {
            (66u8, 66u8, 66u8)
        } else {
            (238u8, 238u8, 238u8)
        },
{
    if dark_mode {
        (66, 66, 66)
    } else {
        (238, 238, 238)
    }
}

/// Fill of graph pins: #FFEB3B in dark mode, #B0BEC5 in light mode.
pub fn pin(dark_mode: bool) -> (rgb: (u8, u8, u8))
    ensures
        rgb == if dark_mode {
            (255u8, 235u8, 59u8)
        } else {
            (176u8, 190u8, 197u8)
        },
{
    if dark_mode {
        (255, 235, 59)
    } else {
        (176, 190, 197)
    }
}

/// Background of text editors: #212121 in dark mode, #FAFAFA in light mode.
pub fn editor(dark_mode: bool) -> (rgb: (u8, u8, u8))
    ensures
        rgb == if dark_mode {
            (33u8, 33u8, 33u8)
        } else {
            (250u8, 250u8, 250u8)
        },
{
    if dark_mode {
        (33, 33, 33)
    } else {
        (250, 250, 250)
    }
}

} // verus!
