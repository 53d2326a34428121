pub mod state;
pub mod driver;
