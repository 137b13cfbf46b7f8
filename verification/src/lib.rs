//! Domain colouring of complex functions: the sampling grid, the choice of
//! colouring scheme, the selection among candidate values, and the assembly of
//! the pixel buffer, with their contracts.

pub mod canvas;
pub mod evaluation;
pub mod grid;
pub mod mode;
pub mod render;
