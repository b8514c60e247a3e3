//! Locating a small template image inside a larger target image.
//!
//! A match is found in three stages. The images are prepared: resized,
//! cropped and reduced to grey (`buffer`). A correlation primitive, which is
//! not part of this library, compares the template with every placement in
//! the target and yields a surface of similarity scores (`surface`). The
//! peaks of that surface are then extracted one by one, each suppressing its
//! neighbourhood, until no score reaches the threshold (`peaks`).
//!
//! `pipeline` ties the stages together around the primitive, `matcher` and
//! `auto_gui` are the two front ends, `geometry` holds the rectangle
//! arithmetic, `imaging` the calls into the `image` crate, `error` the error
//! type and `assets` the names of the embedded images.

pub mod assets;
pub mod auto_gui;
pub mod buffer;
pub mod error;
pub mod geometry;
pub mod imaging;
pub mod matcher;
pub mod peaks;
pub mod pipeline;
pub mod surface;
