pub mod data;
pub mod exif;
pub mod json;
pub mod video;
pub mod fanbox;
