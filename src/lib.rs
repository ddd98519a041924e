//! Numeric core of the Legion engines: the Fibonacci table and the
//! golden-ratio quantization of the quantum engine, and the plain-value
//! decisions of the coherence classifier.

pub mod emergence;
pub mod quantum;
