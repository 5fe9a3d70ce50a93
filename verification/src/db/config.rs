use crate::json_value::{json_field, json_str, Json};
use crate::text::str_eq;
use vstd::prelude::*;

verus! {

pub struct PixivDownloaderSqliteConfig {
    /// The path of database file
    pub path: String,
}

impl Default for PixivDownloaderSqliteConfig {
    fn default() -> (r: Self)
        ensures
            r.path@ == "pixiv_downloader.db"@,
    {
        Self { path: String::from_str("pixiv_downloader.db") }
    }
}

pub enum PixivDownloaderDbConfig {
    Sqlite(PixivDownloaderSqliteConfig),
    /// No default config is provided
    Unset,
}

#[derive(Debug)]
pub enum PixivDownloaderDbConfigError {
    UnkonwnDbType,
    MissingField(String),
}

/// The database a configuration object selects: SQLite with the file at
/// `path` for `{"type": "sqlite", "path": ...}`.
pub enum DbConfigOutcome {
    Sqlite(Seq<char>),
    UnknownType,
    MissingField(Seq<char>),
}

pub open spec fn db_config_of(value: Json) -> DbConfigOutcome {
    match json_str(json_field(value, "type"@)) {
        Some(t) => if t == "sqlite"@ {
            match json_str(json_field(value, "path"@)) {
                Some(p) => DbConfigOutcome::Sqlite(p),
                None => DbConfigOutcome::MissingField("path"@),
            }
        } else {
            DbConfigOutcome::UnknownType
        },
        None => DbConfigOutcome::UnknownType,
    }
}

impl PixivDownloaderDbConfigError {
    /// The message of the error.
    pub fn message(&self) -> (r: String)
        ensures
            match self {
                PixivDownloaderDbConfigError::UnkonwnDbType => r@ == "Unknown database type."@,
                PixivDownloaderDbConfigError::MissingField(s) => r@ == "Missing field: "@ + s@,
            },
    {
        match self {
            PixivDownloaderDbConfigError::UnkonwnDbType => String::from_str("Unknown database type."),
            PixivDownloaderDbConfigError::MissingField(s) => {
                let mut m = String::from_str("Missing field: ");
                m.append(s.as_str());
                m
            },
        }
    }
}

impl PixivDownloaderDbConfig {
    pub fn is_none(&self) -> (r: bool)
        ensures
            r == (*self is Unset),
    {
        match self {
            PixivDownloaderDbConfig::Unset => true,
            _ => false,
        }
    }

    pub fn new(value: &Json) -> (r: Result<Self, PixivDownloaderDbConfigError>)
        ensures
            match db_config_of(*value) {
                DbConfigOutcome::Sqlite(p) => r matches Ok(PixivDownloaderDbConfig::Sqlite(c))
                    && c.path@ == p,
                DbConfigOutcome::UnknownType => r matches Err(
                    PixivDownloaderDbConfigError::UnkonwnDbType,
                ),
                DbConfigOutcome::MissingField(f) => r matches Err(
                    PixivDownloaderDbConfigError::MissingField(s),
                ) && s@ == f,
            },
    {
        let db_type = match value.field_str("type") {
            Some(t) => t,
            None => {
                return Err(PixivDownloaderDbConfigError::UnkonwnDbType);
            },
        };
        if str_eq(db_type.as_str(), "sqlite") {
            match value.field_str("path") {
                Some(p) => Ok(PixivDownloaderDbConfig::Sqlite(
                    PixivDownloaderSqliteConfig { path: p.clone() },
                )),
                None => Err(PixivDownloaderDbConfigError::MissingField(String::from_str("path"))),
            }
        } else {
            Err(PixivDownloaderDbConfigError::UnkonwnDbType)
        }
    }
}

impl Default for PixivDownloaderDbConfig {
    fn default() -> (r: Self)
        ensures
            r matches PixivDownloaderDbConfig::Sqlite(c) && c.path@ == "pixiv_downloader.db"@,
    {
        PixivDownloaderDbConfig::Sqlite(PixivDownloaderSqliteConfig::default())
    }
}

/// Whether a configuration object selects a database.
pub fn check_db_config(value: &Json) -> (r: bool)
    ensures
        r == (db_config_of(*value) is Sqlite),
{
    PixivDownloaderDbConfig::new(value).is_ok()
}

} // verus!
