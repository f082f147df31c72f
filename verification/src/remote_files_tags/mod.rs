pub mod set_tags;
