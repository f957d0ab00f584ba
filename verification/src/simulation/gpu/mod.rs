pub mod node;
pub mod params;
