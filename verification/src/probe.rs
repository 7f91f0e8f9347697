//! The simulated device's connect matrix: the cases, the fixtures they use,
//! and how an observed outcome is judged against a case's expectation.

pub mod cases;
pub mod fixtures;
pub mod matrix;
pub mod tracer;
