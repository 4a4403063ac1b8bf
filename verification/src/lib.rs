//! Bounded, verified building blocks of a GPU UI toolkit's image and text pipelines: exact
//! composite stream positions and ordered streaming-layout admission, retained-payload
//! accounting, fragment caret and hit-test ownership, raster decoding and image preparation
//! decisions, source-backed image budgets, atlas tile and texture bookkeeping, native window
//! placement geometry and hidden-window lifecycle state.

pub mod advance;
pub mod atlas;
pub mod atlas_diagnostics;
pub mod atlas_state;
pub mod charge;
pub mod checked;
pub mod error;
pub mod fragments;
pub mod geometry;
pub mod image_prepare;
pub mod image_source;
pub mod inputs;
pub mod native_operation;
pub mod placement;
pub mod position;
pub mod publication;
pub mod raster;
pub mod resources;
pub mod session;
pub mod source_backed;
pub mod admission;
pub mod maps;
