//! Rasterization of simple geometric shapes into pixel writes.
pub mod arith;
pub mod circle;
pub mod color;
pub mod cube;
pub mod draw;
pub mod line;
pub mod pentagon;
pub mod point;
pub mod polygon;
pub mod random;
pub mod shape;
