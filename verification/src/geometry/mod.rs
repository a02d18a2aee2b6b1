pub mod bounds;
pub mod point;
