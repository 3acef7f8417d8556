//! Colours of surfaces, as far as they are looked up or selected.

pub mod solidcolor;
pub mod checker;
pub mod image;
pub mod perlin;


pub use solidcolor::SolidColor;
pub use checker::CheckerPattern;
pub use image::Image;
pub use perlin::Perlin;

