//! The queries the library sends to PostgreSQL, built with `sea_query`.
use vstd::prelude::*;
use sea_query::{Alias, Expr, OnConflict, PostgresQueryBuilder, Query, SimpleExpr, Value};
use sea_query_postgres::{PostgresBinder, PostgresValues};
use crate::time::valid_date_time;

verus! {

#[verifier::external_type_specification]
#[verifier::external_body]
pub struct ExValue(sea_query::Value);

#[verifier::external_type_specification]
#[verifier::external_body]
pub struct ExPostgresValues(sea_query_postgres::PostgresValues);

/// The `sea_query::Value` that `Value::from` makes of a `u64`.
pub uninterp spec fn sea_value_u64(v: u64) -> Value;

/// The `sea_query::Value` that `Value::from` makes of an `Option<u64>`.
pub uninterp spec fn sea_value_opt_u64(v: Option<u64>) -> Value;

/// The `sea_query::Value` that `Value::from` makes of a `String`.
pub uninterp spec fn sea_value_string(s: Seq<char>) -> Value;

/// The `sea_query::Value` (an array) that `Value::from` makes of a `Vec<u64>`.
pub uninterp spec fn sea_value_u64_array(v: Seq<u64>) -> Value;

/// The `sea_query::Value` that `Value::from` makes of the
/// `chrono::NaiveDateTime` with the given fields.
pub uninterp spec fn sea_value_date_time(
    year: i32,
    month: u32,
    day: u32,
    hour: u32,
    minute: u32,
    second: u32,
    nanosecond: u32,
) -> Value;

/// Trusted: `sea_query::Value::from(u64)`; the result is a function of `v`.
#[verifier::external_body]
pub(crate) fn value_u64(v: u64) -> (r: Value)
    ensures
        r == sea_value_u64(v),
{
    Value::from(v)
}

/// Trusted: `sea_query::Value::from(Option<u64>)`; the result is a function
/// of `v`.
#[verifier::external_body]
pub(crate) fn value_opt_u64(v: Option<u64>) -> (r: Value)
    ensures
        r == sea_value_opt_u64(v),
{
    Value::from(v)
}

/// Trusted: `sea_query::Value::from(String)`; the result is a function of
/// the characters of `s`.
#[verifier::external_body]
pub(crate) fn value_string(s: String) -> (r: Value)
    ensures
        r == sea_value_string(s@),
{
    Value::from(s)
}

/// Trusted: `sea_query::Value::from(Vec<u64>)`; the result is a function of
/// the elements of `v`.
#[verifier::external_body]
pub(crate) fn value_u64_array(v: Vec<u64>) -> (r: Value)
    ensures
        r == sea_value_u64_array(v@),
{
    Value::from(v)
}

/// Trusted: builds the `chrono::NaiveDateTime` with the given fields
/// (`NaiveDate::from_ymd_opt`, `NaiveDate::and_hms_nano_opt`, which accept
/// exactly the valid date-times) and makes a `sea_query::Value` of it with
/// `Value::from`; the result is a function of the fields.
#[verifier::external_body]
pub(crate) fn value_date_time(
    year: i32,
    month: u32,
    day: u32,
    hour: u32,
    minute: u32,
    second: u32,
    nanosecond: u32,
) -> (r: Value)
    requires
        valid_date_time(
            year as int,
            month as int,
            day as int,
            hour as int,
            minute as int,
            second as int,
            nanosecond as int,
        ),
    ensures
        r == sea_value_date_time(year, month, day, hour, minute, second, nanosecond),
{
    let date = chrono::NaiveDate::from_ymd_opt(year, month, day).unwrap();
    Value::from(date.and_hms_nano_opt(hour, minute, second, nanosecond).unwrap())
}

/// The SQL text and bound parameters that `sea_query` builds for
/// `INSERT INTO table (columns) VALUES (values) ON CONFLICT (conflict_column)
/// DO UPDATE`, where `OnConflict::value` was called with `first_update`,
/// then with `second_update`, rendered by `build_postgres` with
/// `PostgresQueryBuilder`.
pub uninterp spec fn sea_insert_postgres(
    table: Seq<char>,
    columns: Seq<Seq<char>>,
    values: Seq<Value>,
    conflict_column: Seq<char>,
    first_update: (Seq<char>, Value),
    second_update: (Seq<char>, Value),
) -> (Seq<char>, PostgresValues);

/// The characters of each string.
pub open spec fn string_views(v: Seq<String>) -> Seq<Seq<char>> {
    v.map_values(|s: String| s@)
}

/// Trusted: `Query::insert().into_table(..).columns(..).values_panic(..)
/// .on_conflict(OnConflict::column(..).value(..).value(..).to_owned())
/// .build_postgres(PostgresQueryBuilder)` from `sea_query` and
/// `sea_query_postgres`, with every name made an identifier by `Alias::new`
/// and every value an expression by `SimpleExpr::Value`. `values_panic`
/// panics unless there are as many values as columns; the contract claims
/// the result is a function of the arguments.
#[verifier::external_body]
pub(crate) fn build_insert(
    table: &str,
    columns: &Vec<String>,
    values: Vec<Value>,
    conflict_column: &str,
    first_update: (&str, Value),
    second_update: (&str, Value),
) -> (r: (String, PostgresValues))
    requires
        columns.len() == values.len(),
    ensures
        (r.0@, r.1) == sea_insert_postgres(
            table@,
            string_views(columns@),
            values@,
            conflict_column@,
            (first_update.0@, first_update.1),
            (second_update.0@, second_update.1),
        ),
{
    let on_conflict = OnConflict::column(Alias::new(conflict_column))
        .value(Alias::new(first_update.0), SimpleExpr::Value(first_update.1))
        .value(Alias::new(second_update.0), SimpleExpr::Value(second_update.1))
        .to_owned();
    Query::insert()
        .into_table(Alias::new(table))
        .columns(columns.iter().map(|c| Alias::new(c)))
        .values_panic(values.into_iter().map(SimpleExpr::Value))
        .on_conflict(on_conflict)
        .build_postgres(PostgresQueryBuilder)
}

/// The SQL text and bound parameters that `sea_query` builds for
/// `SELECT columns FROM table WHERE key_column = key LIMIT limit`, rendered
/// by `build_postgres` with `PostgresQueryBuilder`.
pub uninterp spec fn sea_select_eq_postgres(
    table: Seq<char>,
    columns: Seq<Seq<char>>,
    key_column: Seq<char>,
    key: i64,
    limit: u64,
) -> (Seq<char>, PostgresValues);

/// Trusted: `Query::select().from(..).columns(..)
/// .and_where(Expr::col(..).eq(key)).limit(limit)
/// .build_postgres(PostgresQueryBuilder)` from `sea_query` and
/// `sea_query_postgres`, with every name made an identifier by
/// `Alias::new`; the result is a function of the arguments.
#[verifier::external_body]
pub(crate) fn build_select_eq(
    table: &str,
    columns: &Vec<String>,
    key_column: &str,
    key: i64,
    limit: u64,
) -> (r: (String, PostgresValues))
    ensures
        (r.0@, r.1) == sea_select_eq_postgres(table@, string_views(columns@), key_column@, key, limit),
{
    Query::select()
        .from(Alias::new(table))
        .columns(columns.iter().map(|c| Alias::new(c)))
        .and_where(Expr::col(Alias::new(key_column)).eq(key))
        .limit(limit)
        .build_postgres(PostgresQueryBuilder)
}

/// The SQL text and bound parameters that `sea_query` builds for
/// `UPDATE table SET set_column = set_value WHERE key_column = key`,
/// rendered by `build_postgres` with `PostgresQueryBuilder`.
pub uninterp spec fn sea_update_eq_postgres(
    table: Seq<char>,
    set_column: Seq<char>,
    set_value: i64,
    key_column: Seq<char>,
    key: i64,
) -> (Seq<char>, PostgresValues);

/// Trusted: `Query::update().table(..).values([(column, value)])
/// .and_where(Expr::col(..).eq(key)).build_postgres(PostgresQueryBuilder)`
/// from `sea_query` and `sea_query_postgres`, with every name made an
/// identifier by `Alias::new`; the result is a function of the arguments.
#[verifier::external_body]
pub(crate) fn build_update_eq(
    table: &str,
    set_column: &str,
    set_value: i64,
    key_column: &str,
    key: i64,
) -> (r: (String, PostgresValues))
    ensures
        (r.0@, r.1) == sea_update_eq_postgres(table@, set_column@, set_value, key_column@, key),
{
    Query::update()
        .table(Alias::new(table))
        .values([(Alias::new(set_column), SimpleExpr::from(set_value))])
        .and_where(Expr::col(Alias::new(key_column)).eq(key))
        .build_postgres(PostgresQueryBuilder)
}

} // verus!
