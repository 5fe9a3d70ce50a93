pub mod enums;
pub mod error;
pub mod file;
pub mod le;
pub mod part_status;
pub mod version;
