use vstd::prelude::*;

pub mod text;
pub mod updater;
pub mod config;
pub mod cover;
pub mod font;
pub mod json;
pub mod lyric_filter;
pub mod lyrics;
pub mod media_state;
pub mod protocol;
pub mod island;
pub mod color;

verus! {

} // verus!
