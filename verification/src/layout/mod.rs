pub mod clipper;
pub mod linear;
pub mod scroller;
