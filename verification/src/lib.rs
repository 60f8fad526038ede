//! Verified core of a desktop screen-capture tool: coordinate mapping from
//! logical UI space to device pixels, the crop-selection state machine and its
//! pixel-exact commit step, the owned raster buffer, and freehand-stroke
//! rasterization.
//!
//! Window chrome, capture devices, dialogs, and clipboard publishing are
//! external collaborators; this crate holds the logic that must be right.

pub mod annotate;
pub mod controller;
pub mod crop;
pub mod geom;
pub mod raster;
pub mod savefmt;

pub use annotate::AnnotationState;
pub use controller::AppState;
pub use crop::CropRegion;
pub use crop::CropSession;
pub use geom::Display;
pub use geom::LogicalPoint;
pub use geom::PixelPoint;
pub use raster::ClipboardImage;
pub use raster::Pixel;
pub use raster::RasterImage;
pub use savefmt::FileExtension;
pub use savefmt::Timestamp;
