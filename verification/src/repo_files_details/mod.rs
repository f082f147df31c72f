pub mod errors;
pub mod state;
pub mod selectors;
pub mod mutations;
pub mod save_flow;
