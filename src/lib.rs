//! Decision and assembly logic of a Monte Carlo path tracer for scenes of
//! spheres: the choice of the nearest hit along a ray, the per-bounce
//! decisions of the radiance estimator (Russian roulette and material
//! dispatch), and the assembly of the final 8-bit raster.
pub mod raster;
pub mod scene;
pub mod transport;
