//! Inserting a status.
use vstd::prelude::*;
use sea_query::Value;
use sea_query_postgres::PostgresValues;
use super::builder::{
    build_insert, sea_insert_postgres, sea_value_date_time, sea_value_opt_u64, sea_value_string,
    sea_value_u64, sea_value_u64_array, value_date_time, value_opt_u64, value_string, value_u64,
    value_u64_array,
};
use crate::text::{decimal_string, format_u64, push_str};
use crate::time::Timestamp;

verus! {

/// The URI of the status with the given id.
pub open spec fn status_uri(id: u64) -> Seq<char> {
    "https://twitter.com/bencord0/status/"@ + decimal_string(id as nat)
}

/// The columns the insert writes; the media column only where there is media.
pub open spec fn insert_columns(with_media: bool) -> Seq<Seq<char>> {
    let base = seq![
        "id"@,
        "uri"@,
        "text"@,
        "created_at"@,
        "updated_at"@,
        "account_id"@,
        "in_reply_to_id"@,
    ];
    if with_media {
        base.push("ordered_media_attachment_ids"@)
    } else {
        base
    }
}

/// The value of a timestamp for a query.
pub open spec fn timestamp_value(t: Timestamp) -> Value {
    sea_value_date_time(
        t.spec_year(),
        t.spec_month(),
        t.spec_day(),
        t.spec_hour(),
        t.spec_minute(),
        t.spec_second(),
        t.spec_nanosecond(),
    )
}

/// The value of a timestamp for a query.
fn timestamp_to_value(t: &Timestamp) -> (r: Value)
    ensures
        r == timestamp_value(*t),
{
    proof {
        use_type_invariant(t);
    }
    value_date_time(t.year(), t.month(), t.day(), t.hour(), t.minute(), t.second(), t.nanosecond())
}

/// An owned copy of a string slice.
fn owned(s: &str) -> (r: String)
    ensures
        r@ == s@,
{
    s.to_owned()
}

/// `INSERT INTO statuses .. ON CONFLICT (id) DO UPDATE ..`: a status made of a tweet.
#[derive(Debug)]
pub struct InsertSql {
    pub status_id: u64,
    pub account_id: u64,
    pub text: String,
    pub timestamp: Timestamp,
    pub media_attachment_ids: Vec<u64>,
    pub in_reply_to_id: Option<u64>,
}

impl Default for InsertSql {
    fn default() -> (r: InsertSql)
        ensures
            r.status_id == 0,
            r.account_id == 0,
            r.text@ == Seq::<char>::empty(),
            r.timestamp.has_fields(1970, 1, 1, 0, 0, 0, 0),
            r.media_attachment_ids@ == Seq::<u64>::empty(),
            r.in_reply_to_id is None,
    {
        InsertSql {
            status_id: 0,
            account_id: 0,
            text: String::new(),
            timestamp: Timestamp::epoch(),
            media_attachment_ids: Vec::new(),
            in_reply_to_id: None,
        }
    }
}

impl InsertSql {
    /// The values the insert writes, in the order of `insert_columns`.
    pub open spec fn values_spec(&self) -> Seq<Value> {
        let base = seq![
            sea_value_u64(self.status_id),
            sea_value_string(status_uri(self.status_id)),
            sea_value_string(self.text@),
            timestamp_value(self.timestamp),
            timestamp_value(self.timestamp),
            sea_value_u64(self.account_id),
            sea_value_opt_u64(self.in_reply_to_id),
        ];
        if self.media_attachment_ids@.len() > 0 {
            base.push(sea_value_u64_array(self.media_attachment_ids@))
        } else {
            base
        }
    }

    /// What an existing status with the same id gets instead, in the order
    /// the updates are given: the media list, then the parent.
    pub open spec fn conflict_updates_spec(&self) -> ((Seq<char>, Value), (Seq<char>, Value)) {
        (
            ("ordered_media_attachment_ids"@, sea_value_u64_array(self.media_attachment_ids@)),
            ("in_reply_to_id"@, sea_value_opt_u64(self.in_reply_to_id)),
        )
    }

    /// The query text and parameters of the statement.
    pub open spec fn query_spec(&self) -> (Seq<char>, PostgresValues) {
        sea_insert_postgres(
            "statuses"@,
            insert_columns(self.media_attachment_ids@.len() > 0),
            self.values_spec(),
            "id"@,
            self.conflict_updates_spec().0,
            self.conflict_updates_spec().1,
        )
    }

    pub fn status_id(self, id: u64) -> (r: Self)
        ensures
            r == (InsertSql { status_id: id, ..self }),
    {
        let mut s = self;
        s.status_id = id;
        s
    }

    pub fn account_id(self, id: u64) -> (r: Self)
        ensures
            r == (InsertSql { account_id: id, ..self }),
    {
        let mut s = self;
        s.account_id = id;
        s
    }

    pub fn text(self, text: String) -> (r: Self)
        ensures
            r == (InsertSql { text, ..self }),
    {
        let mut s = self;
        s.text = text;
        s
    }

    pub fn timestamp(self, timestamp: Timestamp) -> (r: Self)
        ensures
            r == (InsertSql { timestamp, ..self }),
    {
        let mut s = self;
        s.timestamp = timestamp;
        s
    }

    /// Sets the media attachments, in order.
    pub fn with_media(self, media_attachment_ids: &[u64]) -> (r: Self)
        ensures
            r.media_attachment_ids@ == media_attachment_ids@,
            r.status_id == self.status_id,
            r.account_id == self.account_id,
            r.text == self.text,
            r.timestamp == self.timestamp,
            r.in_reply_to_id == self.in_reply_to_id,
    {
        let mut s = self;
        s.media_attachment_ids = vstd::slice::slice_to_vec(media_attachment_ids);
        s
    }

    pub fn in_reply_to_id(self, in_reply_to_id: u64) -> (r: Self)
        ensures
            r == (InsertSql { in_reply_to_id: Some(in_reply_to_id), ..self }),
    {
        let mut s = self;
        s.in_reply_to_id = Some(in_reply_to_id);
        s
    }

    /// The query text and its parameters.
    pub fn as_query_values(&self) -> (r: (String, PostgresValues))
        ensures
            (r.0@, r.1) == self.query_spec(),
    {
        let with_media = self.media_attachment_ids.len() > 0;
        let mut columns: Vec<String> = Vec::new();
        columns.push(owned("id"));
        columns.push(owned("uri"));
        columns.push(owned("text"));
        columns.push(owned("created_at"));
        columns.push(owned("updated_at"));
        columns.push(owned("account_id"));
        columns.push(owned("in_reply_to_id"));
        let mut uri = owned("https://twitter.com/bencord0/status/");
        let id_text = format_u64(self.status_id);
        push_str(&mut uri, id_text.as_str());
        let mut values: Vec<Value> = Vec::new();
        values.push(value_u64(self.status_id));
        values.push(value_string(uri));
        values.push(value_string(self.text.clone()));
        values.push(timestamp_to_value(&self.timestamp));
        values.push(timestamp_to_value(&self.timestamp));
        values.push(value_u64(self.account_id));
        values.push(value_opt_u64(self.in_reply_to_id));
        if with_media {
            columns.push(owned("ordered_media_attachment_ids"));
            values.push(value_u64_array(self.media_attachment_ids.clone()));
        }
        assert(super::builder::string_views(columns@) =~= insert_columns(with_media));
        assert(values@ =~= self.values_spec());
        build_insert(
            "statuses",
            &columns,
            values,
            "id",
            ("ordered_media_attachment_ids", value_u64_array(self.media_attachment_ids.clone())),
            ("in_reply_to_id", value_opt_u64(self.in_reply_to_id)),
        )
    }
}

/// The insert binds each column to its own field: `id` to the status id,
/// `uri` to the status's URI, `text` to the text, `created_at` and
/// `updated_at` to the timestamp, `account_id` to the account,
/// `in_reply_to_id` to the parent and, where there are media,
/// `ordered_media_attachment_ids` to the media list; a status that already
/// exists gets the media list, then the parent.
pub proof fn lemma_insert_binds_each_column_to_its_field(q: InsertSql)
    ensures
        ({
            let with_media = q.media_attachment_ids@.len() > 0;
            let cols = insert_columns(with_media);
            let vals = q.values_spec();
            &&& cols.len() == vals.len()
            &&& cols.len() == if with_media { 8nat } else { 7nat }
            &&& forall|i: int|
                0 <= i < cols.len() ==> {
                    &&& #[trigger] cols[i] == "id"@ ==> vals[i] == sea_value_u64(q.status_id)
                    &&& cols[i] == "uri"@ ==> vals[i] == sea_value_string(
                        "https://twitter.com/bencord0/status/"@ + decimal_string(q.status_id as nat),
                    )
                    &&& cols[i] == "text"@ ==> vals[i] == sea_value_string(q.text@)
                    &&& (cols[i] == "created_at"@ || cols[i] == "updated_at"@) ==> vals[i]
                        == sea_value_date_time(
                        q.timestamp.spec_year(),
                        q.timestamp.spec_month(),
                        q.timestamp.spec_day(),
                        q.timestamp.spec_hour(),
                        q.timestamp.spec_minute(),
                        q.timestamp.spec_second(),
                        q.timestamp.spec_nanosecond(),
                    )
                    &&& cols[i] == "account_id"@ ==> vals[i] == sea_value_u64(q.account_id)
                    &&& cols[i] == "in_reply_to_id"@ ==> vals[i] == sea_value_opt_u64(q.in_reply_to_id)
                    &&& cols[i] == "ordered_media_attachment_ids"@ ==> vals[i] == sea_value_u64_array(
                        q.media_attachment_ids@,
                    )
                }
            &&& forall|i: int, j: int| 0 <= i < j < cols.len() ==> cols[i] != cols[j]
            &&& q.query_spec() == sea_insert_postgres(
                "statuses"@,
                cols,
                vals,
                "id"@,
                ("ordered_media_attachment_ids"@, sea_value_u64_array(q.media_attachment_ids@)),
                ("in_reply_to_id"@, sea_value_opt_u64(q.in_reply_to_id)),
            )
        }),
{
    reveal_strlit("id");
    reveal_strlit("uri");
    reveal_strlit("text");
    reveal_strlit("created_at");
    reveal_strlit("updated_at");
    reveal_strlit("account_id");
    reveal_strlit("in_reply_to_id");
    reveal_strlit("ordered_media_attachment_ids");
    let with_media = q.media_attachment_ids@.len() > 0;
    let cols = insert_columns(with_media);
    let vals = q.values_spec();
    let names = seq![
        "id"@,
        "uri"@,
        "text"@,
        "created_at"@,
        "updated_at"@,
        "account_id"@,
        "in_reply_to_id"@,
        "ordered_media_attachment_ids"@,
    ];
    assert forall|i: int, j: int| 0 <= i < j < 8 implies names[i] != names[j] by {
        if names[i].len() == names[j].len() {
            assert(names[i][0] != names[j][0]);
        }
    }
    assert forall|i: int| 0 <= i < cols.len() implies cols[i] == names[i] by {}
}

} // verus!
