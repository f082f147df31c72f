pub mod state;
pub mod errors;
pub mod selectors;
pub mod mutations;
