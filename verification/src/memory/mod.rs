pub mod scratchpad;
pub mod store;
