pub mod curve;
pub mod drawing;
pub mod raster;
pub mod render;
pub mod window;
