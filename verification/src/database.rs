//! The catalog: its tables, the statements that each operation sends to the
//! SQL engine, and how the rows that come back are read.

use vstd::prelude::*;
use crate::alias::{Alias, AliasView};
use crate::errors::{AppError, AppResult, AppResultU};
use crate::image_format::{format_name, from_str, is_format_name, ImageFormat, ImageFormatExt};
use crate::meta::{ratio_spec, Dimensions, FileMeta, Meta, MetaView};
use crate::search_history::SearchHistory;
use crate::tag::{tag_names, Tag};
use crate::text::{trim, trimmed};
use crate::time::{rfc3339_instant, rfc3339_utc, utc_instant, utc_text, Timestamp};

verus! {

pub const SELECT_PREFIX: &'static str = "SELECT * FROM images WHERE ";

pub const CREATE_IMAGES_TABLE: &'static str =
    "CREATE TABLE IF NOT EXISTS images (path TEXT PRIMARY KEY, width INTEGER, height INTEGER, ratio_w INTEGER, ratio_h INTEGER, format TEXT, animation BOOLEAN, size INTEGER, dhash TEXT, created TEXT, modified TEXT, accessed TEXT)";

pub const CREATE_TAGS_TABLE: &'static str =
    "CREATE TABLE IF NOT EXISTS tags (tag TEXT NOT NULL, path TEXT NOT NULL, source TEXT NOT NULL, PRIMARY KEY (tag, path, source), FOREIGN KEY (path) REFERENCES images (path) ON DELETE CASCADE)";

pub const CREATE_TAGS_INDEX: &'static str = "CREATE INDEX IF NOT EXISTS tags_index ON tags (tag)";

pub const CREATE_ALIASES_TABLE: &'static str =
    "CREATE TABLE IF NOT EXISTS aliases (name TEXT PRIMARY KEY, expression TEXT NOT NULL, recursive BOOLEAN NOT NULL)";

pub const CREATE_SEARCH_HISTORY_TABLE: &'static str =
    "CREATE TABLE IF NOT EXISTS search_history (expression TEXT PRIMARY KEY, uses INTEGER NOT NULL, modified TEXT NOT NULL)";

pub const CREATE_QUEUE_TABLE: &'static str =
    "CREATE TABLE IF NOT EXISTS download_queue (id INTEGER PRIMARY KEY AUTOINCREMENT, url TEXT NOT NULL, serialized_job_json TEXT NOT NULL)";

pub const UPDATE_IMAGE: &'static str =
    "UPDATE images SET width = ?2, height = ?3, ratio_w = ?4, ratio_h = ?5, format = ?6, animation = ?7, size = ?8, dhash = ?9, created = ?10, modified = ?11, accessed = ?12 WHERE path = ?1";

pub const INSERT_IMAGE: &'static str =
    "INSERT OR IGNORE INTO images VALUES (?1, ?2, ?3, ?4, ?5, ?6, ?7, ?8, ?9, ?10, ?11, ?12)";

pub const INSERT_TAG: &'static str = "INSERT OR IGNORE INTO tags (tag, path, source) VALUES (?1, ?2, ?3)";

pub const DELETE_TAG: &'static str = "DELETE FROM tags WHERE tag = ?1 AND path = ?2 AND source = ?3";

pub const CLEAR_TAGS: &'static str = "DELETE FROM tags WHERE path = ?1 AND source = ?2";

pub const UPDATE_ALIAS: &'static str = "UPDATE aliases SET expression = ?2, recursive = ?3 WHERE name = ?1";

pub const INSERT_ALIAS: &'static str =
    "INSERT OR IGNORE INTO aliases (name, expression, recursive) VALUES (?1, ?2, ?3)";

pub const DELETE_ALIAS: &'static str = "DELETE FROM aliases WHERE name = ?1";

pub const UPDATE_SEARCH_HISTORY: &'static str =
    "UPDATE search_history SET uses = uses + 1, modified = ?2 WHERE expression = ?1";

pub const INSERT_SEARCH_HISTORY: &'static str =
    "INSERT OR IGNORE INTO search_history (expression, uses, modified) VALUES (?1, 1, ?2)";

pub const DELETE_IMAGE: &'static str = "DELETE FROM images WHERE path = ?1";

pub const DELETE_IMAGE_TAGS: &'static str = "DELETE FROM tags WHERE path = ?1";

pub const DROP_IMAGES: &'static str = "DROP TABLE images";

pub const DROP_TAGS: &'static str = "DROP TABLE tags";

pub const BEGIN: &'static str = "BEGIN;";

pub const COMMIT: &'static str = "COMMIT;";

pub const SELECT_IMAGE: &'static str = "SELECT * FROM images WHERE path = ?1";

pub const PATH_EXISTS: &'static str = "SELECT 1 FROM images WHERE path = ?;";

pub const SELECT_TAGS: &'static str = "SELECT DISTINCT tag FROM tags ORDER BY length(tag)";

pub const SELECT_TAGS_BY_PATH: &'static str = "SELECT tag FROM tags WHERE path = ?1";

pub const SELECT_ALIASES: &'static str = "SELECT * FROM aliases";

pub const SELECT_SEARCH_HISTORY: &'static str =
    "SELECT expression, uses FROM search_history ORDER BY modified DESC";

pub const COUNT_IMAGES: &'static str = "SELECT COUNT(*) FROM images ";

pub const SELECT_IMAGES: &'static str = "SELECT * FROM images ";

pub const PREFIX_CLAUSE: &'static str = "WHERE path like (?1 || '%')";

pub const INSERT_JOB: &'static str = "INSERT INTO download_queue (url, serialized_job_json) VALUES (?1, ?2)";

pub const DELETE_JOB: &'static str = "DELETE FROM download_queue WHERE url = ?1 AND serialized_job_json = ?2";

/// A value that a statement is given, or that a row holds.
#[derive(Clone, Debug, PartialEq, Eq)]
pub enum SqlValue {
    Null,
    Integer(i64),
    Text(String),
}

/// What a [`SqlValue`] holds, as a mathematical value.
pub enum SqlValueView {
    Null,
    Integer(i64),
    Text(Seq<char>),
}

impl View for SqlValue {
    type V = SqlValueView;

    open spec fn view(&self) -> SqlValueView {
        match self {
            SqlValue::Null => SqlValueView::Null,
            SqlValue::Integer(n) => SqlValueView::Integer(*n),
            SqlValue::Text(s) => SqlValueView::Text(s@),
        }
    }
}

/// The views of a list of values.
pub open spec fn value_views(values: Seq<SqlValue>) -> Seq<SqlValueView> {
    Seq::new(values.len(), |i: int| values[i]@)
}

/// A statement for the SQL engine: its text and the values for its
/// parameters `?1`, `?2` and so on.
#[derive(Clone, Debug, PartialEq, Eq)]
pub struct Statement {
    pub sql: String,
    pub params: Vec<SqlValue>,
}

/// What a [`Statement`] holds, as mathematical values.
pub struct StatementView {
    pub sql: Seq<char>,
    pub params: Seq<SqlValueView>,
}

impl View for Statement {
    type V = StatementView;

    open spec fn view(&self) -> StatementView {
        StatementView { sql: self.sql@, params: value_views(self.params@) }
    }
}

/// The views of a list of statements.
pub open spec fn statement_views(statements: Seq<Statement>) -> Seq<StatementView> {
    Seq::new(statements.len(), |i: int| statements[i]@)
}

/// The statement with the text `sql` and the values `params`.
pub open spec fn stmt(sql: Seq<char>, params: Seq<SqlValueView>) -> StatementView {
    StatementView { sql, params }
}

pub open spec fn text_value(s: Seq<char>) -> SqlValueView {
    SqlValueView::Text(s)
}

pub open spec fn integer_value(n: int) -> SqlValueView {
    SqlValueView::Integer(n as i64)
}

pub open spec fn bool_value(b: bool) -> SqlValueView {
    SqlValueView::Integer(if b {
        1
    } else {
        0
    })
}

/// A text, or NULL where there is none.
pub open spec fn optional_text(s: Option<Seq<char>>) -> SqlValueView {
    match s {
        Some(text) => SqlValueView::Text(text),
        None => SqlValueView::Null,
    }
}

/// An instant as its RFC 3339 text; NULL where there is none, or none that
/// the calendar holds.
pub open spec fn instant_value(t: Option<Timestamp>) -> SqlValueView {
    match t {
        Some(instant) => optional_text(rfc3339_utc(instant.secs, instant.nanos)),
        None => SqlValueView::Null,
    }
}

/// The twelve values of an image's row, in the order of the columns.
pub open spec fn image_params(meta: MetaView) -> Seq<SqlValueView> {
    let ratio = ratio_spec(meta.width as nat, meta.height as nat);
    seq![
        text_value(meta.path),
        integer_value(meta.width as int),
        integer_value(meta.height as int),
        integer_value(ratio.0 as int),
        integer_value(ratio.1 as int),
        text_value(meta.format),
        bool_value(meta.animation),
        integer_value(meta.size as int),
        optional_text(meta.dhash),
        instant_value(meta.created),
        instant_value(meta.modified),
        instant_value(meta.accessed),
    ]
}

/// What `upsert` sends: the update of the row of that path, then the insert
/// that is ignored where the row is there; both with the same values.
pub open spec fn upsert_spec(meta: MetaView) -> Seq<StatementView> {
    seq![stmt(UPDATE_IMAGE@, image_params(meta)), stmt(INSERT_IMAGE@, image_params(meta))]
}

/// One statement with the values tag, path, source for each tag, in order.
pub open spec fn per_tag(
    sql: Seq<char>,
    path: Seq<char>,
    tags: Seq<Seq<char>>,
    source: Seq<char>,
) -> Seq<StatementView> {
    Seq::new(
        tags.len(),
        |i: int| stmt(sql, seq![text_value(tags[i]), text_value(path), text_value(source)]),
    )
}

/// What `clear_tags` sends.
pub open spec fn clear_tags_spec(path: Seq<char>, source: Seq<char>) -> StatementView {
    stmt(CLEAR_TAGS@, seq![text_value(path), text_value(source)])
}

/// What `upsert_alias` sends: update, then insert-or-ignore, with the same
/// values.
pub open spec fn upsert_alias_spec(name: Seq<char>, alias: AliasView) -> Seq<StatementView> {
    let params = seq![text_value(name), text_value(alias.expression), bool_value(alias.recursive)];
    seq![stmt(UPDATE_ALIAS@, params), stmt(INSERT_ALIAS@, params)]
}

/// What `add_search_history` sends: for the trimmed expression, the update
/// that counts one more use, then the insert of a first use, which is
/// ignored where the expression is there.
pub open spec fn add_search_history_spec(expression: Seq<char>, now: Timestamp) -> Seq<
    StatementView,
> {
    let params = seq![text_value(trimmed(expression)), instant_value(Some(now))];
    seq![stmt(UPDATE_SEARCH_HISTORY@, params), stmt(INSERT_SEARCH_HISTORY@, params)]
}

/// What removes an image: its row, then its tags.
pub open spec fn delete_path_spec(path: Seq<char>) -> Seq<StatementView> {
    seq![
        stmt(DELETE_IMAGE@, seq![text_value(path)]),
        stmt(DELETE_IMAGE_TAGS@, seq![text_value(path)]),
    ]
}

/// What makes the tables and the index, each only where it is missing.
pub open spec fn create_table_spec() -> Seq<StatementView> {
    seq![
        stmt(CREATE_IMAGES_TABLE@, Seq::empty()),
        stmt(CREATE_TAGS_TABLE@, Seq::empty()),
        stmt(CREATE_TAGS_INDEX@, Seq::empty()),
        stmt(CREATE_ALIASES_TABLE@, Seq::empty()),
        stmt(CREATE_SEARCH_HISTORY_TABLE@, Seq::empty()),
        stmt(CREATE_QUEUE_TABLE@, Seq::empty()),
    ]
}

/// The condition on the path for an optional prefix.
pub open spec fn prefix_clause(prefix: Option<Seq<char>>) -> Seq<char> {
    if prefix is Some {
        PREFIX_CLAUSE@
    } else {
        Seq::empty()
    }
}

/// The values for the condition on the path.
pub open spec fn prefix_params(prefix: Option<Seq<char>>) -> Seq<SqlValueView> {
    match prefix {
        Some(p) => seq![text_value(p)],
        None => Seq::empty(),
    }
}

/// The view of an optional text.
pub open spec fn optional_view(s: Option<&str>) -> Option<Seq<char>> {
    match s {
        Some(text) => Some(text@),
        None => None,
    }
}

fn text(s: &str) -> (value: SqlValue)
    ensures
        value@ == text_value(s@),
{
    SqlValue::Text(s.to_owned())
}

/// The one value `a`, a text.
fn one_text(a: &str) -> (params: Vec<SqlValue>)
    ensures
        value_views(params@) == seq![text_value(a@)],
{
    let mut params: Vec<SqlValue> = Vec::new();
    params.push(text(a));
    assert(value_views(params@) =~= seq![text_value(a@)]);
    params
}

/// The two values `a` and `b`, both texts.
fn two_texts(a: &str, b: &str) -> (params: Vec<SqlValue>)
    ensures
        value_views(params@) == seq![text_value(a@), text_value(b@)],
{
    let mut params: Vec<SqlValue> = Vec::new();
    params.push(text(a));
    params.push(text(b));
    assert(value_views(params@) =~= seq![text_value(a@), text_value(b@)]);
    params
}

fn boolean(b: bool) -> (value: SqlValue)
    ensures
        value@ == bool_value(b),
{
    SqlValue::Integer(if b {
        1
    } else {
        0
    })
}

fn instant(t: &Option<Timestamp>) -> (value: SqlValue)
    ensures
        value@ == instant_value(*t),
{
    match t {
        Some(instant) => match utc_text(instant.secs, instant.nanos) {
            Some(text) => SqlValue::Text(text),
            None => SqlValue::Null,
        },
        None => SqlValue::Null,
    }
}

/// A copy of the values.
pub fn duplicate_values(values: &Vec<SqlValue>) -> (copy: Vec<SqlValue>)
    ensures
        value_views(copy@) == value_views(values@),
{
    let mut copy: Vec<SqlValue> = Vec::new();
    let mut i: usize = 0;
    while i < values.len()
        invariant
            i <= values.len(),
            copy.len() == i,
            forall|k: int| 0 <= k < i ==> (#[trigger] copy[k])@ == values[k]@,
        decreases values.len() - i,
    {
        let value = match &values[i] {
            SqlValue::Null => SqlValue::Null,
            SqlValue::Integer(n) => SqlValue::Integer(*n),
            SqlValue::Text(s) => SqlValue::Text(s.clone()),
        };
        copy.push(value);
        i += 1;
    }
    assert(value_views(copy@) =~= value_views(values@));
    copy
}

/// The statement with the text `sql` and the values `params`.
pub fn statement(sql: &str, params: Vec<SqlValue>) -> (result: Statement)
    ensures
        result@ == stmt(sql@, value_views(params@)),
{
    Statement { sql: sql.to_owned(), params }
}

/// The statement with the text `sql` and no values.
pub fn plain(sql: &str) -> (result: Statement)
    ensures
        result@ == stmt(sql@, Seq::empty()),
{
    let params: Vec<SqlValue> = Vec::new();
    assert(value_views(params@) =~= Seq::empty());
    statement(sql, params)
}

/// The condition that holds the rows to those whose path begins with the
/// prefix; nothing where there is no prefix.
pub fn maybe_prefixed_where_clause(prefix: Option<&str>) -> (clause: &'static str)
    ensures
        clause@ == prefix_clause(optional_view(prefix)),
{
    if prefix.is_some() {
        PREFIX_CLAUSE
    } else {
        let clause = "";
        proof {
            reveal_strlit("");
        }
        assert(clause@ =~= Seq::<char>::empty());
        clause
    }
}

fn prefix_values(prefix: Option<&str>) -> (params: Vec<SqlValue>)
    ensures
        value_views(params@) == prefix_params(optional_view(prefix)),
{
    let mut params: Vec<SqlValue> = Vec::new();
    match prefix {
        Some(p) => {
            params.push(text(p));
        },
        None => {},
    }
    assert(value_views(params@) =~= prefix_params(optional_view(prefix)));
    params
}

/// The message of the error for a row that cannot be read.
pub open spec fn bad_row_message() -> Seq<char> {
    "Invalid column type"@
}

/// The message of the error for a transaction inside a transaction.
pub open spec fn nested_transaction_message() -> Seq<char> {
    "cannot start a transaction within a transaction"@
}

/// The message of the error for a commit outside a transaction.
pub open spec fn no_transaction_message() -> Seq<char> {
    "cannot commit - no transaction is active"@
}

/// A column that holds a text.
pub open spec fn as_text(v: SqlValueView) -> Option<Seq<char>> {
    match v {
        SqlValueView::Text(s) => Some(s),
        _ => None,
    }
}

/// A column that holds a number of 32 bits without sign.
pub open spec fn as_u32(v: SqlValueView) -> Option<u32> {
    match v {
        SqlValueView::Integer(n) => if 0 <= n <= u32::MAX {
            Some(n as u32)
        } else {
            None
        },
        _ => None,
    }
}

/// A column that holds a truth value: a number, true where it is not 0.
pub open spec fn as_bool(v: SqlValueView) -> Option<bool> {
    match v {
        SqlValueView::Integer(n) => Some(n != 0),
        _ => None,
    }
}

/// A column that holds a text or NULL.
pub open spec fn as_optional_text(v: SqlValueView) -> Option<Option<Seq<char>>> {
    match v {
        SqlValueView::Null => Some(None),
        SqlValueView::Text(s) => Some(Some(s)),
        _ => None,
    }
}

/// A column that holds an instant as RFC 3339 text, or NULL.
pub open spec fn as_instant(v: SqlValueView) -> Option<Option<Timestamp>> {
    match v {
        SqlValueView::Null => Some(None),
        SqlValueView::Text(s) => match rfc3339_instant(s) {
            Some((secs, nanos)) => Some(Some(Timestamp { secs, nanos })),
            None => None,
        },
        _ => None,
    }
}

/// The record that a row of the table of images holds; `None` for a row of
/// another shape, and for one whose format is not the name of a format.
pub open spec fn row_meta(row: Seq<SqlValueView>) -> Option<MetaView> {
    if row.len() != 12 {
        None
    } else if as_text(row[0]) is Some && as_u32(row[1]) is Some && as_u32(row[2]) is Some
        && as_text(row[5]) is Some && is_format_name(as_text(row[5])->0) && as_bool(row[6])
        is Some && as_u32(row[7]) is Some && as_optional_text(row[8]) is Some && as_instant(
        row[9],
    ) is Some && as_instant(row[10]) is Some && as_instant(row[11]) is Some {
        Some(
            MetaView {
                animation: as_bool(row[6])->0,
                dhash: as_optional_text(row[8])->0,
                width: as_u32(row[1])->0,
                height: as_u32(row[2])->0,
                path: as_text(row[0])->0,
                size: as_u32(row[7])->0,
                created: as_instant(row[9])->0,
                modified: as_instant(row[10])->0,
                accessed: as_instant(row[11])->0,
                format: as_text(row[5])->0,
            },
        )
    } else {
        None
    }
}

/// The alias that a row of the table of aliases holds, with its name.
pub open spec fn row_alias(row: Seq<SqlValueView>) -> Option<(Seq<char>, AliasView)> {
    if row.len() == 3 && as_text(row[0]) is Some && as_text(row[1]) is Some && as_bool(row[2])
        is Some {
        Some(
            (
                as_text(row[0])->0,
                AliasView { expression: as_text(row[1])->0, recursive: as_bool(row[2])->0 },
            ),
        )
    } else {
        None
    }
}

fn column_text(v: &SqlValue) -> (text: Option<String>)
    ensures
        match as_text(v@) {
            Some(s) => text matches Some(t) && t@ == s,
            None => text is None,
        },
{
    match v {
        SqlValue::Text(s) => Some(s.clone()),
        _ => None,
    }
}

fn column_u32(v: &SqlValue) -> (number: Option<u32>)
    ensures
        number == as_u32(v@),
{
    match v {
        SqlValue::Integer(n) => if 0 <= *n && *n <= u32::MAX as i64 {
            Some(*n as u32)
        } else {
            None
        },
        _ => None,
    }
}

fn column_bool(v: &SqlValue) -> (truth: Option<bool>)
    ensures
        truth == as_bool(v@),
{
    match v {
        SqlValue::Integer(n) => Some(*n != 0),
        _ => None,
    }
}

fn column_optional_text(v: &SqlValue) -> (text: Option<Option<String>>)
    ensures
        match as_optional_text(v@) {
            Some(Some(s)) => text matches Some(Some(t)) && t@ == s,
            Some(None) => text matches Some(None),
            None => text is None,
        },
{
    match v {
        SqlValue::Null => Some(None),
        SqlValue::Text(s) => Some(Some(s.clone())),
        _ => None,
    }
}

fn column_instant(v: &SqlValue) -> (instant: Option<Option<Timestamp>>)
    ensures
        instant == as_instant(v@),
{
    match v {
        SqlValue::Null => Some(None),
        SqlValue::Text(s) => match utc_instant(s.as_str()) {
            Some((secs, nanos)) => Some(Some(Timestamp { secs, nanos })),
            None => None,
        },
        _ => None,
    }
}

fn bad_row() -> (error: AppError)
    ensures
        error matches AppError::Sqlite(message) && message@ == bad_row_message(),
{
    AppError::Sqlite("Invalid column type".to_owned())
}

/// `result` is the error for a row that cannot be read.
pub open spec fn is_bad_row<T>(result: AppResult<T>) -> bool {
    result matches Err(AppError::Sqlite(message)) && message@ == bad_row_message()
}

/// Reads a row of the table of images.
pub fn from_row(row: &Vec<SqlValue>) -> (result: AppResult<Meta>)
    ensures
        match row_meta(value_views(row@)) {
            Some(meta) => result matches Ok(m) && m@ == meta,
            None => is_bad_row(result),
        },
{
    if row.len() != 12 {
        return Err(bad_row());
    }
    let ghost views = value_views(row@);
    assert(forall|i: int| 0 <= i < 12 ==> views[i] == row@[i]@);
    let path = match column_text(&row[0]) {
        Some(v) => v,
        None => { return Err(bad_row()); },
    };
    let width = match column_u32(&row[1]) {
        Some(v) => v,
        None => { return Err(bad_row()); },
    };
    let height = match column_u32(&row[2]) {
        Some(v) => v,
        None => { return Err(bad_row()); },
    };
    let format_text = match column_text(&row[5]) {
        Some(v) => v,
        None => { return Err(bad_row()); },
    };
    let format = match from_str(format_text.as_str()) {
        Some(v) => v.to_str(),
        None => { return Err(bad_row()); },
    };
    let animation = match column_bool(&row[6]) {
        Some(v) => v,
        None => { return Err(bad_row()); },
    };
    let size = match column_u32(&row[7]) {
        Some(v) => v,
        None => { return Err(bad_row()); },
    };
    let dhash = match column_optional_text(&row[8]) {
        Some(v) => v,
        None => { return Err(bad_row()); },
    };
    let created = match column_instant(&row[9]) {
        Some(v) => v,
        None => { return Err(bad_row()); },
    };
    let modified = match column_instant(&row[10]) {
        Some(v) => v,
        None => { return Err(bad_row()); },
    };
    let accessed = match column_instant(&row[11]) {
        Some(v) => v,
        None => { return Err(bad_row()); },
    };
    Ok(
        Meta {
            animation,
            dhash,
            dimensions: Dimensions { width, height },
            format,
            file: FileMeta { path, size, created, modified, accessed },
        },
    )
}

/// Reads a row of the table of aliases.
pub fn alias_from_row(row: &Vec<SqlValue>) -> (result: AppResult<(String, Alias)>)
    ensures
        match row_alias(value_views(row@)) {
            Some((name, alias)) => result matches Ok((n, a)) && n@ == name && a@ == alias,
            None => is_bad_row(result),
        },
{
    if row.len() != 3 {
        return Err(bad_row());
    }
    let ghost views = value_views(row@);
    assert(forall|i: int| 0 <= i < 3 ==> views[i] == row@[i]@);
    match (column_text(&row[0]), column_text(&row[1]), column_bool(&row[2])) {
        (Some(name), Some(expression), Some(recursive)) => Ok(
            (name, Alias { expression, recursive }),
        ),
        _ => Err(bad_row()),
    }
}

/// The entry that a row of the search history holds: the expression and the
/// number of its uses.
pub open spec fn row_history(row: Seq<SqlValueView>) -> Option<(Seq<char>, i64)> {
    if row.len() == 2 {
        match (row[0], row[1]) {
            (SqlValueView::Text(expression), SqlValueView::Integer(uses)) => Some(
                (expression, uses),
            ),
            _ => None,
        }
    } else {
        None
    }
}

/// The number that the one row of a count holds.
pub open spec fn row_count(row: Seq<SqlValueView>) -> Option<u64> {
    if row.len() == 1 {
        match row[0] {
            SqlValueView::Integer(n) => if n >= 0 {
                Some(n as u64)
            } else {
                None
            },
            _ => None,
        }
    } else {
        None
    }
}

/// Reads a row of the search history.
pub fn history_from_row(row: &Vec<SqlValue>) -> (result: AppResult<SearchHistory>)
    ensures
        match row_history(value_views(row@)) {
            Some((expression, uses)) => result matches Ok(entry) && entry.expression@
                == expression && entry.uses == uses,
            None => is_bad_row(result),
        },
{
    if row.len() != 2 {
        return Err(bad_row());
    }
    let ghost views = value_views(row@);
    assert(forall|i: int| 0 <= i < 2 ==> views[i] == row@[i]@);
    match (&row[0], &row[1]) {
        (SqlValue::Text(expression), SqlValue::Integer(uses)) => Ok(
            SearchHistory { expression: expression.clone(), uses: *uses },
        ),
        _ => Err(bad_row()),
    }
}

/// Reads the one row of a count.
pub fn count_from_row(row: &Vec<SqlValue>) -> (result: AppResult<u64>)
    ensures
        match row_count(value_views(row@)) {
            Some(count) => result == Ok::<u64, AppError>(count),
            None => is_bad_row(result),
        },
{
    if row.len() != 1 {
        return Err(bad_row());
    }
    let ghost views = value_views(row@);
    assert(views[0] == row@[0]@);
    match &row[0] {
        SqlValue::Integer(n) => if *n >= 0 {
            Ok(*n as u64)
        } else {
            Err(bad_row())
        },
        _ => Err(bad_row()),
    }
}

/// What the library knows of a connection to the catalog: whether a
/// transaction is open on it, by what the engine answered. A connection has
/// one transaction at a time.
#[derive(Debug)]
pub struct Database {
    in_transaction: bool,
}

impl Database {
    /// Whether a transaction is open.
    pub closed spec fn is_in_transaction(&self) -> bool {
        self.in_transaction
    }

    /// A connection that was just opened, with no transaction on it, and
    /// the statements that make the tables that are missing.
    pub fn open() -> (opened: (Database, Vec<Statement>))
        ensures
            !opened.0.is_in_transaction(),
            statement_views(opened.1@) == create_table_spec(),
    {
        (Database { in_transaction: false }, create_table())
    }

    /// Whether a transaction is open.
    pub fn in_transaction(&self) -> (open: bool)
        ensures
            open == self.is_in_transaction(),
    {
        self.in_transaction
    }

    /// The statement that opens a transaction; with one open already, the
    /// error for a transaction inside a transaction. The transaction counts
    /// as open once [`Database::began`] has noted that the engine took the
    /// statement.
    pub fn begin(&self) -> (result: AppResult<Statement>)
        ensures
            match result {
                Ok(statement) => !self.is_in_transaction() && statement@ == stmt(
                    BEGIN@,
                    Seq::empty(),
                ),
                Err(AppError::Sqlite(message)) => self.is_in_transaction() && message@
                    == nested_transaction_message(),
                Err(_) => false,
            },
    {
        if self.in_transaction {
            Err(AppError::Sqlite("cannot start a transaction within a transaction".to_owned()))
        } else {
            Ok(plain(BEGIN))
        }
    }

    /// Notes the engine's answer to the statement of [`Database::begin`]:
    /// where it was taken, a transaction is open; where it was refused,
    /// nothing has changed.
    pub fn began(&mut self, accepted: bool)
        ensures
            final(self).is_in_transaction() == (old(self).is_in_transaction() || accepted),
    {
        if accepted {
            self.in_transaction = true;
        }
    }

    /// The statement that opens a transaction, as [`Database::begin`] gives
    /// it. Who holds the transaction commits it when done.
    pub fn transaction(&self) -> (result: AppResult<Statement>)
        ensures
            match result {
                Ok(statement) => !self.is_in_transaction() && statement@ == stmt(
                    BEGIN@,
                    Seq::empty(),
                ),
                Err(AppError::Sqlite(message)) => self.is_in_transaction() && message@
                    == nested_transaction_message(),
                Err(_) => false,
            },
    {
        self.begin()
    }

    /// The statement that commits the open transaction; with none open, the
    /// error for a commit outside a transaction. The transaction counts as
    /// closed once [`Database::committed`] has noted that the engine took
    /// the statement.
    pub fn commit(&self) -> (result: AppResult<Statement>)
        ensures
            match result {
                Ok(statement) => self.is_in_transaction() && statement@ == stmt(
                    COMMIT@,
                    Seq::empty(),
                ),
                Err(AppError::Sqlite(message)) => !self.is_in_transaction() && message@
                    == no_transaction_message(),
                Err(_) => false,
            },
    {
        if self.in_transaction {
            Ok(plain(COMMIT))
        } else {
            Err(AppError::Sqlite("cannot commit - no transaction is active".to_owned()))
        }
    }

    /// Notes the engine's answer to the statement of [`Database::commit`]:
    /// where it was taken, no transaction is open; where it was refused, the
    /// transaction is open as before.
    pub fn committed(&mut self, accepted: bool)
        ensures
            final(self).is_in_transaction() == (old(self).is_in_transaction() && !accepted),
    {
        if accepted {
            self.in_transaction = false;
        }
    }

    /// `Ok` for a path that the catalog holds, `PathNotFound` with the path
    /// for one that it does not. `exists` is the engine's answer to
    /// [`Database::path_exists`].
    pub fn check_path_existence(&self, path: &str, exists: bool) -> (result: AppResultU)
        ensures
            match result {
                Ok(()) => exists,
                Err(AppError::PathNotFound(missing)) => !exists && missing@ == path@,
                Err(_) => false,
            },
    {
        if exists {
            Ok(())
        } else {
            Err(AppError::PathNotFound(path.to_owned()))
        }
    }

    /// Writes the record of an image: the row of its path is updated, and
    /// inserted where there is none. Both statements carry the same values,
    /// the aspect ratio in lowest terms among them.
    pub fn upsert(&self, meta: &Meta) -> (statements: Vec<Statement>)
        ensures
            statement_views(statements@) == upsert_spec(meta@),
    {
        let (ratio_width, ratio_height) = meta.dimensions.ratio();
        let mut params: Vec<SqlValue> = Vec::new();
        params.push(text(meta.file.path.as_str()));
        params.push(SqlValue::Integer(meta.dimensions.width as i64));
        params.push(SqlValue::Integer(meta.dimensions.height as i64));
        params.push(SqlValue::Integer(ratio_width as i64));
        params.push(SqlValue::Integer(ratio_height as i64));
        params.push(text(meta.format));
        params.push(boolean(meta.animation));
        params.push(SqlValue::Integer(meta.file.size as i64));
        params.push(
            match &meta.dhash {
                Some(hash) => text(hash.as_str()),
                None => SqlValue::Null,
            },
        );
        params.push(instant(&meta.file.created));
        params.push(instant(&meta.file.modified));
        params.push(instant(&meta.file.accessed));
        assert(value_views(params@) =~= image_params(meta@));
        let again = duplicate_values(&params);
        let mut statements: Vec<Statement> = Vec::new();
        statements.push(statement(UPDATE_IMAGE, params));
        statements.push(statement(INSERT_IMAGE, again));
        assert(statement_views(statements@) =~= upsert_spec(meta@));
        statements
    }

    /// Binds `tags` to the image at `path` under `source`, one insert a tag,
    /// each ignored where the binding is there. `path_exists` is the engine's
    /// answer to [`Database::path_exists`]: a path that the catalog does not
    /// hold is refused with `PathNotFound`.
    pub fn add_tags(&self, path: &str, tags: &Vec<Tag>, source: &str, path_exists: bool) -> (result:
        AppResult<Vec<Statement>>)
        ensures
            match result {
                Ok(statements) => path_exists && statement_views(statements@) == per_tag(
                    INSERT_TAG@,
                    path@,
                    tag_names(tags@),
                    source@,
                ),
                Err(AppError::PathNotFound(missing)) => !path_exists && missing@ == path@,
                Err(_) => false,
            },
    {
        match self.check_path_existence(path, path_exists) {
            Ok(()) => Ok(tag_statements(INSERT_TAG, path, tags, source)),
            Err(error) => Err(error),
        }
    }

    /// Takes the bindings of `tags` to `path` under `source` away, one
    /// delete a tag.
    pub fn delete_tags(&self, path: &str, tags: &Vec<Tag>, source: &str) -> (statements: Vec<
        Statement,
    >)
        ensures
            statement_views(statements@) == per_tag(
                DELETE_TAG@,
                path@,
                tag_names(tags@),
                source@,
            ),
    {
        tag_statements(DELETE_TAG, path, tags, source)
    }

    /// Takes all bindings to `path` under `source` away. A path that the
    /// catalog does not hold is refused with `PathNotFound`.
    pub fn clear_tags(&self, path: &str, source: &str, path_exists: bool) -> (result: AppResult<
        Statement,
    >)
        ensures
            match result {
                Ok(statement) => path_exists && statement@ == clear_tags_spec(path@, source@),
                Err(AppError::PathNotFound(missing)) => !path_exists && missing@ == path@,
                Err(_) => false,
            },
    {
        match self.check_path_existence(path, path_exists) {
            Ok(()) => {
                Ok(statement(CLEAR_TAGS, two_texts(path, source)))
            },
            Err(error) => Err(error),
        }
    }

    /// Lets `tags` be the tags of `path` under `source`: what is bound under
    /// that source is cleared, then the tags are added.
    pub fn set_tags(&self, path: &str, tags: &Vec<Tag>, source: &str, path_exists: bool) -> (result:
        AppResult<Vec<Statement>>)
        ensures
            match result {
                Ok(statements) => path_exists && statement_views(statements@) == seq![
                    clear_tags_spec(path@, source@),
                ] + per_tag(INSERT_TAG@, path@, tag_names(tags@), source@),
                Err(AppError::PathNotFound(missing)) => !path_exists && missing@ == path@,
                Err(_) => false,
            },
    {
        let clear = match self.clear_tags(path, source, path_exists) {
            Ok(statement) => statement,
            Err(error) => { return Err(error); },
        };
        let mut adds = match self.add_tags(path, tags, source, path_exists) {
            Ok(statements) => statements,
            Err(error) => { return Err(error); },
        };
        let ghost added = statement_views(adds@);
        adds.insert(0, clear);
        assert(statement_views(adds@) =~= seq![clear_tags_spec(path@, source@)] + added);
        Ok(adds)
    }

    /// Removes the image at `path` with its tags.
    pub fn delete_path(&self, path: &str) -> (statements: Vec<Statement>)
        ensures
            statement_views(statements@) == delete_path_spec(path@),
    {
        let mut statements: Vec<Statement> = Vec::new();
        statements.push(statement(DELETE_IMAGE, one_text(path)));
        statements.push(statement(DELETE_IMAGE_TAGS, one_text(path)));
        assert(statement_views(statements@) =~= delete_path_spec(path@));
        statements
    }

    /// Lets `name` stand for `expression` in this catalog: the alias of that
    /// name is updated, and inserted where there is none.
    pub fn upsert_alias(&self, name: &str, expression: &str, recursive: bool) -> (statements: Vec<
        Statement,
    >)
        ensures
            statement_views(statements@) == upsert_alias_spec(
                name@,
                AliasView { expression: expression@, recursive },
            ),
    {
        let mut params: Vec<SqlValue> = Vec::new();
        params.push(text(name));
        params.push(text(expression));
        params.push(boolean(recursive));
        assert(value_views(params@) =~= seq![
            text_value(name@),
            text_value(expression@),
            bool_value(recursive),
        ]);
        let again = duplicate_values(&params);
        let mut statements: Vec<Statement> = Vec::new();
        statements.push(statement(UPDATE_ALIAS, params));
        statements.push(statement(INSERT_ALIAS, again));
        assert(statement_views(statements@) =~= upsert_alias_spec(
            name@,
            AliasView { expression: expression@, recursive },
        ));
        statements
    }

    /// Removes the alias `name` from this catalog.
    pub fn delete_alias(&self, name: &str) -> (result: Statement)
        ensures
            result@ == stmt(DELETE_ALIAS@, seq![text_value(name@)]),
    {
        statement(DELETE_ALIAS, one_text(name))
    }

    /// Notes a use of the search `where_expression` at the instant `now`:
    /// the expression is trimmed; its uses are counted up and the instant is
    /// written, and where it was not there it is inserted with one use.
    pub fn add_search_history(&self, where_expression: &str, now: Timestamp) -> (statements: Vec<
        Statement,
    >)
        ensures
            statement_views(statements@) == add_search_history_spec(where_expression@, now),
    {
        let expression = trim(where_expression);
        let mut params: Vec<SqlValue> = Vec::new();
        params.push(SqlValue::Text(expression));
        params.push(instant(&Some(now)));
        assert(value_views(params@) =~= seq![
            text_value(trimmed(where_expression@)),
            instant_value(Some(now)),
        ]);
        let again = duplicate_values(&params);
        let mut statements: Vec<Statement> = Vec::new();
        statements.push(statement(UPDATE_SEARCH_HISTORY, params));
        statements.push(statement(INSERT_SEARCH_HISTORY, again));
        assert(statement_views(statements@) =~= add_search_history_spec(where_expression@, now));
        statements
    }

    /// Empties the catalog of images and tags: both tables are dropped, then
    /// every table that is missing is made.
    pub fn reset(&self) -> (statements: Vec<Statement>)
        ensures
            statement_views(statements@) == seq![
                stmt(DROP_IMAGES@, Seq::empty()),
                stmt(DROP_TAGS@, Seq::empty()),
            ] + create_table_spec(),
    {
        let mut statements = create_table();
        let ghost made = statement_views(statements@);
        statements.insert(0, plain(DROP_TAGS));
        statements.insert(0, plain(DROP_IMAGES));
        assert(statement_views(statements@) =~= seq![
            stmt(DROP_IMAGES@, Seq::empty()),
            stmt(DROP_TAGS@, Seq::empty()),
        ] + made);
        statements
    }

    /// Asks for the record of the image at `path`, which is a canonical path.
    pub fn get(&self, path: &str) -> (query: Statement)
        ensures
            query@ == stmt(SELECT_IMAGE@, seq![text_value(path@)]),
    {
        statement(SELECT_IMAGE, one_text(path))
    }

    /// Asks whether the catalog holds an image at `path`.
    pub fn path_exists(&self, path: &str) -> (query: Statement)
        ensures
            query@ == stmt(PATH_EXISTS@, seq![text_value(path@)]),
    {
        statement(PATH_EXISTS, one_text(path))
    }

    /// Asks for the images that meet the condition `where_expression`.
    pub fn select(&self, where_expression: &str) -> (query: Statement)
        ensures
            query@ == stmt(SELECT_PREFIX@ + where_expression@, Seq::empty()),
    {
        let mut sql = SELECT_PREFIX.to_owned();
        sql.append(where_expression);
        let params: Vec<SqlValue> = Vec::new();
        assert(value_views(params@) =~= Seq::empty());
        Statement { sql, params }
    }

    /// Asks for the tags that are bound to anything, each once, the shorter
    /// first.
    pub fn tags(&self) -> (query: Statement)
        ensures
            query@ == stmt(SELECT_TAGS@, Seq::empty()),
    {
        plain(SELECT_TAGS)
    }

    /// Asks for the tags that are bound to `path`.
    pub fn tags_by_path(&self, path: &str) -> (query: Statement)
        ensures
            query@ == stmt(SELECT_TAGS_BY_PATH@, seq![text_value(path@)]),
    {
        statement(SELECT_TAGS_BY_PATH, one_text(path))
    }

    /// Asks for the aliases of this catalog.
    pub fn aliases(&self) -> (query: Statement)
        ensures
            query@ == stmt(SELECT_ALIASES@, Seq::empty()),
    {
        plain(SELECT_ALIASES)
    }

    /// Asks for the searches of the past, the latest first.
    pub fn search_history(&self) -> (query: Statement)
        ensures
            query@ == stmt(SELECT_SEARCH_HISTORY@, Seq::empty()),
    {
        plain(SELECT_SEARCH_HISTORY)
    }

    /// Asks how many images the catalog holds, of those whose path begins
    /// with `prefix` where one is given.
    pub fn get_total_images(&self, prefix: Option<&str>) -> (query: Statement)
        ensures
            query@ == stmt(
                COUNT_IMAGES@ + prefix_clause(optional_view(prefix)),
                prefix_params(optional_view(prefix)),
            ),
    {
        let mut sql = COUNT_IMAGES.to_owned();
        sql.append(maybe_prefixed_where_clause(prefix));
        Statement { sql, params: prefix_values(prefix) }
    }

    /// Asks for the images that a vacuum looks at: all, or those whose path
    /// begins with `prefix`.
    pub fn _vacuum(&self, prefix: Option<&str>) -> (query: Statement)
        ensures
            query@ == stmt(
                SELECT_IMAGES@ + prefix_clause(optional_view(prefix)),
                prefix_params(optional_view(prefix)),
            ),
    {
        let mut sql = SELECT_IMAGES.to_owned();
        sql.append(maybe_prefixed_where_clause(prefix));
        Statement { sql, params: prefix_values(prefix) }
    }

    /// What a vacuum does with a row: where no file is left at its path, the
    /// image is removed with its tags; else nothing.
    pub fn vacuum_row(&self, path: &str, is_file: bool) -> (statements: Vec<Statement>)
        ensures
            statement_views(statements@) == (if is_file {
                Seq::empty()
            } else {
                delete_path_spec(path@)
            }),
    {
        if is_file {
            let statements: Vec<Statement> = Vec::new();
            assert(statement_views(statements@) =~= Seq::empty());
            statements
        } else {
            self.delete_path(path)
        }
    }

    /// What a search does with a row that it found at `path`. With `vacuum`
    /// asked for and no file left at the path, the image is removed with its
    /// tags and the row counts as vacuumed; else nothing is removed. `is_file`
    /// says whether a file is at the path; it is not read without `vacuum`.
    pub fn select_row(&self, path: &str, vacuum: bool, is_file: bool) -> (outcome: (
        bool,
        Vec<Statement>,
    ))
        ensures
            outcome.0 == (vacuum && !is_file),
            statement_views(outcome.1@) == (if vacuum && !is_file {
                delete_path_spec(path@)
            } else {
                Seq::empty()
            }),
    {
        if vacuum && !is_file {
            (true, self.delete_path(path))
        } else {
            let statements: Vec<Statement> = Vec::new();
            assert(statement_views(statements@) =~= Seq::empty());
            (false, statements)
        }
    }

    /// Puts a download job, as JSON, on the queue that outlasts the process.
    pub fn queue(&self, url: &str, job: &str) -> (result: Statement)
        ensures
            result@ == stmt(INSERT_JOB@, seq![text_value(url@), text_value(job@)]),
    {
        statement(INSERT_JOB, two_texts(url, job))
    }

    /// Takes a download job off the queue, once it is done.
    pub fn unqueue(&self, url: &str, job: &str) -> (result: Statement)
        ensures
            result@ == stmt(DELETE_JOB@, seq![text_value(url@), text_value(job@)]),
    {
        statement(DELETE_JOB, two_texts(url, job))
    }
}

/// The statements that make the tables and the index, each only where it is
/// missing.
pub fn create_table() -> (statements: Vec<Statement>)
    ensures
        statement_views(statements@) == create_table_spec(),
{
    let mut statements: Vec<Statement> = Vec::new();
    statements.push(plain(CREATE_IMAGES_TABLE));
    statements.push(plain(CREATE_TAGS_TABLE));
    statements.push(plain(CREATE_TAGS_INDEX));
    statements.push(plain(CREATE_ALIASES_TABLE));
    statements.push(plain(CREATE_SEARCH_HISTORY_TABLE));
    statements.push(plain(CREATE_QUEUE_TABLE));
    assert(statement_views(statements@) =~= create_table_spec());
    statements
}

fn tag_statements(sql: &'static str, path: &str, tags: &Vec<Tag>, source: &str) -> (statements: Vec<
    Statement,
>)
    ensures
        statement_views(statements@) == per_tag(sql@, path@, tag_names(tags@), source@),
{
    let mut statements: Vec<Statement> = Vec::new();
    let mut i: usize = 0;
    while i < tags.len()
        invariant
            i <= tags.len(),
            statements.len() == i,
            forall|k: int|
                0 <= k < i ==> (#[trigger] statements[k])@ == stmt(
                    sql@,
                    seq![text_value(tags[k]@), text_value(path@), text_value(source@)],
                ),
        decreases tags.len() - i,
    {
        let mut params: Vec<SqlValue> = Vec::new();
        params.push(text(tags[i].as_str()));
        params.push(text(path));
        params.push(text(source));
        assert(value_views(params@) =~= seq![
            text_value(tags[i as int]@),
            text_value(path@),
            text_value(source@),
        ]);
        statements.push(statement(sql, params));
        i += 1;
    }
    assert(statement_views(statements@) =~= per_tag(sql@, path@, tag_names(tags@), source@));
    statements
}

} // verus!
