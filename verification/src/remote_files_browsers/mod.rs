pub mod state;
pub mod selectors;
pub mod mutations;
