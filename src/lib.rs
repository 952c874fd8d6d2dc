//! Escape-time fractal rendering core: the colour gradient, the escape-result
//! colouring, the split of a raster among workers with deterministic
//! reassembly, and the coalescing single-flight update coordinator.
pub mod coordinator;
pub mod gradient;
pub mod mandelbrot;
pub mod render;
