pub mod wave_pencil;

pub use wave_pencil::{RibbonVertex, WavePencil};
