pub mod decoder;
pub mod ir;
pub mod loader;
pub mod passes;
