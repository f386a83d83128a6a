//! Escape-time evaluation of the Mandelbrot and Julia sets on a fixed-point
//! complex plane, together with the camera that maps viewport pixels onto it.

pub mod camera;
pub mod complex;
pub mod controls;
pub mod escape;
pub mod fixed;
pub mod palette;
pub mod params;
pub mod render;
pub mod uniform;
