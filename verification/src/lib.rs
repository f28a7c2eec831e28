//! A minimal 2D vector-drawing core: an exact affine-transform algebra
//! (`matrix`), and a canvas with z-ordered layers plus a drawing context
//! that keeps a save/restore stack of transform states (`canvas`).
//!
//! Scalars throughout are exact `i64` values of the mathematical model;
//! an embedding that works in fractional coordinates converts at its edge
//! and supplies a rotation as the cosine/sine pair of its angle.

use vstd::prelude::*;

pub mod canvas;
pub mod matrix;

verus! {

/// The capability a drawing target must satisfy to receive primitives.
/// A conforming implementation may render to any sink; the core only
/// ever hands primitives out through these methods.
pub trait Renderer {
    /// The target's width and height.
    fn size(&self) -> (i64, i64);

    /// Receive one path primitive, identified by `path`.
    fn render_path(&mut self, path: &str);

    /// Receive one image primitive, identified by `path`.
    fn render_image(&mut self, path: &str);

    /// Receive one text primitive, identified by `text`.
    fn render_text(&mut self, text: &str);
}

} // verus!
