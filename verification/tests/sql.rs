use archive_parser::{InsertSql, SelectStatusSql, Timestamp, UpdateMediaSql};

fn ts() -> Timestamp {
    Timestamp::new(2018, 10, 10, 20, 19, 24, 0).unwrap()
}

#[test]
fn insert_without_media() {
    let sql = InsertSql::default()
        .status_id(1049420839327883266)
        .account_id(109399109809644293)
        .text("hello".to_string())
        .timestamp(ts());
    let (query, values) = sql.as_query_values();
    assert_eq!(
        query,
        r#"INSERT INTO "statuses" ("id", "uri", "text", "created_at", "updated_at", "account_id", "in_reply_to_id") VALUES ($1, $2, $3, $4, $5, $6, $7) ON CONFLICT ("id") DO UPDATE SET "in_reply_to_id" = $8"#
    );
    assert_eq!(values.0.len(), 8);
    assert_eq!(
        values.0[1].0,
        sea_query::Value::from("https://twitter.com/bencord0/status/1049420839327883266".to_string())
    );
    assert_eq!(values.0[2].0, sea_query::Value::from("hello".to_string()));
    assert_eq!(values.0[6].0, sea_query::Value::from(None::<u64>));
    assert_eq!(values.0[7].0, sea_query::Value::from(None::<u64>));
}

#[test]
fn insert_with_media_writes_the_media_column() {
    let sql = InsertSql::default()
        .status_id(2)
        .in_reply_to_id(1)
        .timestamp(ts())
        .with_media(&[11, 12]);
    assert_eq!(sql.media_attachment_ids, vec![11, 12]);
    assert_eq!(sql.in_reply_to_id, Some(1));
    let (query, values) = sql.as_query_values();
    assert_eq!(
        query,
        r#"INSERT INTO "statuses" ("id", "uri", "text", "created_at", "updated_at", "account_id", "in_reply_to_id", "ordered_media_attachment_ids") VALUES ($1, $2, $3, $4, $5, $6, $7, $8) ON CONFLICT ("id") DO UPDATE SET "in_reply_to_id" = $9"#
    );
    assert_eq!(values.0.len(), 9);
    assert_eq!(values.0[6].0, sea_query::Value::from(Some(1u64)));
    assert_eq!(values.0[7].0, sea_query::Value::from(vec![11u64, 12u64]));
    assert_eq!(values.0[8].0, sea_query::Value::from(Some(1u64)));
    let created = chrono::NaiveDate::from_ymd_opt(2018, 10, 10).unwrap().and_hms_opt(20, 19, 24).unwrap();
    assert_eq!(values.0[3].0, sea_query::Value::from(created));
}

#[test]
fn insert_defaults() {
    let sql = InsertSql::default();
    assert_eq!((sql.status_id, sql.account_id), (0, 0));
    assert_eq!(sql.text, "");
    assert!(sql.media_attachment_ids.is_empty());
    assert_eq!(sql.in_reply_to_id, None);
    assert_eq!(sql.timestamp, Timestamp::default());
}

#[test]
fn select_status_by_id() {
    let sql = SelectStatusSql::default().status_id(1049420839327883266);
    let (query, values) = sql.as_query_values();
    assert_eq!(
        query,
        r#"SELECT "id", "uri", "text", "created_at", "updated_at", "account_id", "in_reply_to_id", "ordered_media_attachment_ids" FROM "statuses" WHERE "id" = $1 LIMIT $2"#
    );
    assert_eq!(values.0.len(), 2);
    assert_eq!(values.0[0].0, sea_query::Value::from(1049420839327883266i64));
}

#[test]
fn update_media_sets_the_status() {
    let sql = UpdateMediaSql::default().status_id(7).media_id(9);
    assert_eq!((sql.status_id, sql.media_attachment_id), (7, 9));
    let (query, values) = sql.as_query_values();
    assert_eq!(query, r#"UPDATE "media_attachments" SET "status_id" = $1 WHERE "id" = $2"#);
    assert_eq!(values.0[0].0, sea_query::Value::from(7i64));
    assert_eq!(values.0[1].0, sea_query::Value::from(9i64));
}
