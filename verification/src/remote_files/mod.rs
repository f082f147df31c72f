pub mod errors;
pub mod selectors;
pub mod state;
pub mod mutations;
