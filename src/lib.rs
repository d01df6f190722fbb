//! Instanced drawing of a square grid of colored quads: the layout of the grid
//! in normalized device coordinates, and the one-time upload of the instance
//! data that the first frame performs.

pub mod color;
pub mod frame;
pub mod layout;
