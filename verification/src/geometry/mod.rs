pub mod color;
pub mod curve;
pub mod distance;
pub mod mix;
pub mod normal;
pub mod scalar;
pub mod touch;
pub mod vector;

pub use color::Color;
pub use curve::{Curve, Curve0, Curve1, Curve2, Curve3};
pub use distance::Distance;
pub use mix::Mix;
pub use normal::Normal;
pub use scalar::{Fixed, Ratio};
pub use touch::Touch;
pub use vector::Vector;
