pub mod arith;
pub mod fft;
pub mod lagrange;
pub mod polynomials;
pub mod evaluation_domain;
pub mod group;
pub mod scalar;
