pub mod audio;
pub mod calls;
pub mod compact;
pub mod focus;
pub mod geometry;
pub mod length;
pub mod render;
pub mod rust;
pub mod shuffle;
