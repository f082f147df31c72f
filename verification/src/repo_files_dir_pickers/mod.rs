pub mod state;
pub mod selectors;
