//! Integer core of the veoluz light-ray renderer: pixel plotting, exposure statistics,
//! worker buffers, the kaleidoscope symmetry, undo history, render scheduling, canvas
//! selection and share links.
pub mod raster;
pub mod render;
pub mod buffers;
pub mod history;
pub mod scheduler;
pub mod symmetry;
pub mod share;
pub mod types;
pub mod selection;
