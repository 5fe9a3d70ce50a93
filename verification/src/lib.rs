//! Verified core of a pixiv downloader: the resumable download state file
//! (the "pd file"), cookie handling, author name filters and the small
//! configuration types around them.
pub mod artwork;
pub mod author_name_filter;
pub mod cookies;
pub mod data;
pub mod db;
pub mod downloader;
pub mod dur;
pub mod exif;
pub mod ext;
pub mod json_value;
pub mod set_cookie;
pub mod text;
