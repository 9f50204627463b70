//! Polar addressing for an LED disc: mapping points to (ring, angle) cells,
//! an interactive painter over those cells, and sampling of a raster image
//! at the physical LED positions.

pub mod color;
pub mod convert;
pub mod grid;
pub mod painter;

pub use color::Rgb;
pub use convert::{sample_polar, ConvertError, Direction, LedGeometry, Raster, DIR_ONE};
pub use grid::{GridCell, PolarGrid, TURN};
pub use painter::{view_point, Button, Event, Painter};
