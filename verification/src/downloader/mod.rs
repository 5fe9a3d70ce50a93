pub mod enums;
pub mod pd_file;
pub mod plan;
pub mod state;
pub mod target;
