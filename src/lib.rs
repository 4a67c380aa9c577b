pub mod bands;
pub mod buffer;
pub mod config;
pub mod filters;
pub mod pipeline;
pub mod raster;
pub mod worker;
