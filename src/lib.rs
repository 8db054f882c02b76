pub mod ratio;
pub mod decimal;
pub mod mixture;
pub mod laws;
pub mod display;
