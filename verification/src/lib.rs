//! A verified builder for "deep zoom" tile pyramids.
//!
//! The library turns a decoded RGBA image into a quad-tree pyramid of JPEG
//! tiles: it derives the number of zoom levels from the image and tile size,
//! resamples the image for each level, pads the result to an exact multiple
//! of the tile size around a background colour, slices it into tiles, and
//! encodes each tile as JPEG. A run state machine decides, step by step,
//! which tile to upload next, when to finalize, and how cancellation and
//! failures end a run; the caller performs the actual HTTP transfers.

pub mod canvas;
pub mod pipeline;
pub mod run;
pub mod text;
pub mod urls;
pub mod zoom;
