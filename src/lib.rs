//! Converts 2D vector paths into a flat, indexed curve geometry: one shared
//! point pool plus uniform-order polyline or Bezier primitives over it.
//!
//! Coordinates are exact integers. Input points lie on a document grid
//! (`STEPS_PER_UNIT` steps per document unit); every point a primitive
//! stores lies on a grid six times finer, so that midpoints and thirds of
//! input points (the control points that order promotion synthesises) are
//! represented without rounding.
//!
//! Group identifiers are joined with `/` from the outermost group inwards;
//! empty identifiers are skipped. Sub-paths without any segment yield no
//! primitive.

mod builder;
mod export;
mod flatten;
mod geom;
mod json;
mod stream;

pub use builder::{Prim, PrimBuilder};
pub use export::{point_pool, prims_to_json, FINE_STEPS_PER_UNIT, STEPS_PER_UNIT};
pub use flatten::{flatten, Doc, DocGroup, DocPath};
pub use geom::{Order, Segment, Vertex, P};
pub use json::{Value, ValueObj, ValueVec};
pub use stream::{build_prims, path_prims, PathCmd, SvgPath};
