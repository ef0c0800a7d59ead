pub mod matrix;
pub mod pixel;
