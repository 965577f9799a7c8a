//! Live charts of growing delimited files: parsing lines into fixed-point
//! records, the append-only series that holds them, projection to plotted
//! points with an optional moving-window sum, the shared bounds of a frame,
//! the decision to redraw, and the mapping of points to pixels.
pub mod bounds;
pub mod chart;
pub mod dirty;
pub mod parse;
pub mod project;
pub mod series;
pub mod viewport;
