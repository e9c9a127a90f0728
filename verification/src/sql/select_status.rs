//! Reading a status back.
use vstd::prelude::*;
use sea_query_postgres::PostgresValues;
use super::builder::{build_select_eq, sea_select_eq_postgres, string_views};
use crate::text::{format_i64, push_str, signed_decimal_string};
use crate::time::Timestamp;

verus! {

/// The columns read of a status.
pub open spec fn select_columns() -> Seq<Seq<char>> {
    seq![
        "id"@,
        "uri"@,
        "text"@,
        "created_at"@,
        "updated_at"@,
        "account_id"@,
        "in_reply_to_id"@,
        "ordered_media_attachment_ids"@,
    ]
}

/// An owned copy of a string slice.
fn owned(s: &str) -> (r: String)
    ensures
        r@ == s@,
{
    s.to_owned()
}

/// `SELECT .. FROM statuses WHERE id = .. LIMIT 1`.
#[derive(Debug)]
pub struct SelectStatusSql {
    pub status_id: i64,
}

impl Default for SelectStatusSql {
    fn default() -> (r: SelectStatusSql)
        ensures
            r.status_id == 0,
    {
        SelectStatusSql { status_id: 0 }
    }
}

impl SelectStatusSql {
    /// The query text and parameters of the statement.
    pub open spec fn query_spec(&self) -> (Seq<char>, PostgresValues) {
        sea_select_eq_postgres("statuses"@, select_columns(), "id"@, self.status_id, 1)
    }

    /// Sets the status to read.
    pub fn status_id(self, id: i64) -> (r: Self)
        ensures
            r.status_id == id,
    {
        let mut s = self;
        s.status_id = id;
        s
    }

    /// The query text and its parameters.
    pub fn as_query_values(&self) -> (r: (String, PostgresValues))
        ensures
            (r.0@, r.1) == self.query_spec(),
    {
        let mut columns: Vec<String> = Vec::new();
        columns.push(owned("id"));
        columns.push(owned("uri"));
        columns.push(owned("text"));
        columns.push(owned("created_at"));
        columns.push(owned("updated_at"));
        columns.push(owned("account_id"));
        columns.push(owned("in_reply_to_id"));
        columns.push(owned("ordered_media_attachment_ids"));
        assert(string_views(columns@) =~= select_columns());
        build_select_eq("statuses", &columns, "id", self.status_id, 1)
    }
}

/// A row of Mastodon's `statuses` table.
#[derive(Debug)]
pub struct Status {
    pub id: i64,
    pub uri: String,
    pub account_id: i64,
    pub text: String,
    pub created_at: Timestamp,
    pub updated_at: Timestamp,
    pub in_reply_to_id: Option<i64>,
    pub ordered_media_attachment_ids: Option<Vec<i64>>,
}

impl Default for Status {
    fn default() -> (r: Status)
        ensures
            r.id == 0,
            r.uri@ == Seq::<char>::empty(),
            r.account_id == 0,
            r.text@ == Seq::<char>::empty(),
            r.created_at.has_fields(1970, 1, 1, 0, 0, 0, 0),
            r.updated_at.has_fields(1970, 1, 1, 0, 0, 0, 0),
            r.in_reply_to_id is None,
            r.ordered_media_attachment_ids is None,
    {
        Status {
            id: 0,
            uri: String::new(),
            account_id: 0,
            text: String::new(),
            created_at: Timestamp::epoch(),
            updated_at: Timestamp::epoch(),
            in_reply_to_id: None,
            ordered_media_attachment_ids: None,
        }
    }
}

/// `media: {id}\n` for each media id, in order.
pub open spec fn media_lines(ids: Seq<i64>) -> Seq<char>
    decreases ids.len(),
{
    if ids.len() == 0 {
        seq![]
    } else {
        media_lines(ids.drop_last()) + "media: "@ + signed_decimal_string(ids.last() as int)
            + seq!['\n']
    }
}

impl Status {
    /// The ids of the media attached to the status, in order (none where
    /// the column is empty).
    pub open spec fn media_ids_spec(&self) -> Seq<i64> {
        match self.ordered_media_attachment_ids {
            Some(ids) => ids@,
            None => seq![],
        }
    }

    /// The number of media attached to the status.
    pub open spec fn media_count_spec(&self) -> nat {
        match self.ordered_media_attachment_ids {
            Some(ids) => ids@.len(),
            None => 0,
        }
    }

    /// The text `Display` writes for the status.
    pub open spec fn display_text(&self) -> Seq<char> {
        "id   : "@ + signed_decimal_string(self.id as int) + seq!['\n'] + "text : "@ + self.text@
            + seq!['\n'] + match self.ordered_media_attachment_ids {
            Some(ids) => media_lines(ids@),
            None => seq![],
        }
    }

    /// The number of media attached to the status.
    pub fn media_count(&self) -> (r: usize)
        ensures
            r == self.media_count_spec(),
    {
        if let Some(media_ids) = &self.ordered_media_attachment_ids {
            return media_ids.len();
        }
        0
    }

    /// The id, the text and the media ids, a line each.
    pub fn display(&self) -> (r: String)
        ensures
            r@ == self.display_text(),
    {
        let mut r = owned("id   : ");
        let id = format_i64(self.id);
        push_str(&mut r, id.as_str());
        push_str(&mut r, "\n");
        push_str(&mut r, "text : ");
        push_str(&mut r, self.text.as_str());
        push_str(&mut r, "\n");
        proof {
            reveal_strlit("\n");
        }
        let ghost head = r@;
        assert(head == "id   : "@ + signed_decimal_string(self.id as int) + seq!['\n'] + "text : "@
            + self.text@ + seq!['\n']);
        if let Some(media_ids) = &self.ordered_media_attachment_ids {
            let mut i: usize = 0;
            assert(media_ids@.take(0) =~= Seq::<i64>::empty());
            assert(head + media_lines(Seq::<i64>::empty()) =~= head);
            while i < media_ids.len()
                invariant
                    i <= media_ids.len(),
                    r@ == head + media_lines(media_ids@.take(i as int)),
                decreases media_ids.len() - i,
            {
                proof {
                    reveal_strlit("\n");
                }
                assert(media_ids@.take(i + 1).drop_last() =~= media_ids@.take(i as int));
                push_str(&mut r, "media: ");
                let m = format_i64(media_ids[i]);
                push_str(&mut r, m.as_str());
                push_str(&mut r, "\n");
                i = i + 1;
                assert(r@ =~= head + media_lines(media_ids@.take(i as int)));
            }
            assert(media_ids@.take(i as int) =~= media_ids@);
        } else {
            assert(r@ =~= head + Seq::<char>::empty());
        }
        r
    }
}

} // verus!
