pub mod error;
pub mod instructions;
pub mod math;
pub mod state;
pub mod properties;
pub mod outcomes;
