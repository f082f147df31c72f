pub mod errors;
pub mod state;
pub mod mutations;
