pub mod market;
pub mod models;
pub mod params;
