//! Cube-map sky texture support: the geometry of the axis-aligned cube, the
//! integer layout of a cube-map raster, the band structure of second-order
//! spherical harmonics and the flag word of the PBR material uniform.
//!
//! Colours and directions are floating point and are computed by the caller;
//! everything here is exact integer arithmetic.
pub mod cube;
pub mod harmonics;
pub mod material;
pub mod raster;
