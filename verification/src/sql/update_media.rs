//! Attaching an uploaded media file to a status.
use vstd::prelude::*;
use sea_query::Value;
use sea_query_postgres::PostgresValues;
use super::builder::{build_update_eq, sea_update_eq_postgres};

verus! {

/// `UPDATE media_attachments SET status_id = .. WHERE id = ..`.
#[derive(Debug)]
pub struct UpdateMediaSql {
    pub status_id: i64,
    pub media_attachment_id: i64,
}

impl Default for UpdateMediaSql {
    fn default() -> (r: UpdateMediaSql)
        ensures
            r.status_id == 0,
            r.media_attachment_id == 0,
    {
        UpdateMediaSql { status_id: 0, media_attachment_id: 0 }
    }
}

impl UpdateMediaSql {
    /// The query text and parameters of the statement.
    pub open spec fn query_spec(&self) -> (Seq<char>, PostgresValues) {
        sea_update_eq_postgres(
            "media_attachments"@,
            "status_id"@,
            self.status_id,
            "id"@,
            self.media_attachment_id,
        )
    }

    /// Sets the status the media is attached to.
    pub fn status_id(self, id: i64) -> (r: Self)
        ensures
            r.status_id == id,
            r.media_attachment_id == self.media_attachment_id,
    {
        let mut s = self;
        s.status_id = id;
        s
    }

    /// Sets the media attachment to update.
    pub fn media_id(self, media_attachment_id: i64) -> (r: Self)
        ensures
            r.status_id == self.status_id,
            r.media_attachment_id == media_attachment_id,
    {
        let mut s = self;
        s.media_attachment_id = media_attachment_id;
        s
    }

    /// The query text and its parameters.
    pub fn as_query_values(&self) -> (r: (String, PostgresValues))
        ensures
            (r.0@, r.1) == self.query_spec(),
    {
        build_update_eq("media_attachments", "status_id", self.status_id, "id", self.media_attachment_id)
    }
}

} // verus!
