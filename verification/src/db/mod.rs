pub mod config;
pub mod pixiv_artworks;
pub mod push_task;
