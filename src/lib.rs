//! The verified core of a Monte Carlo path tracer: the choice of the nearest
//! hit among the members of a scene, and the plain PPM encoding of the image.
pub mod material;
pub mod ppm;
pub mod scene;
