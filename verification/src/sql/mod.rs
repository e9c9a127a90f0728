//! SQL statements against Mastodon's database.
pub mod builder;
pub mod insert;
pub mod select_status;
pub mod update_media;

pub use insert::InsertSql;
pub use select_status::{SelectStatusSql, Status};
pub use update_media::UpdateMediaSql;
