pub mod bmp;
pub mod image;
