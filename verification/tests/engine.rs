use noir::database::{
    alias_from_row, count_from_row, from_row, history_from_row, Database, SqlValue, Statement,
};
use noir::expander::Expander;
use noir::image_format::ImageFormat;
use noir::meta::{Dimensions, FileMeta, ImageProbe, Meta};
use noir::tag::Tag;
use noir::time::Timestamp;
use rusqlite::functions::FunctionFlags;
use rusqlite::types::{Value, ValueRef};
use rusqlite::{params_from_iter, Connection};

fn to_value(value: &SqlValue) -> Value {
    match value {
        SqlValue::Null => Value::Null,
        SqlValue::Integer(n) => Value::Integer(*n),
        SqlValue::Text(s) => Value::Text(s.clone()),
    }
}

fn execute(connection: &Connection, statements: &[Statement]) {
    for statement in statements {
        connection
            .execute(
                &statement.sql,
                params_from_iter(statement.params.iter().map(to_value)),
            )
            .unwrap();
    }
}

fn query(connection: &Connection, statement: &Statement) -> Vec<Vec<SqlValue>> {
    let mut prepared = connection.prepare(&statement.sql).unwrap();
    let columns = prepared.column_count();
    let mut rows = prepared
        .query(params_from_iter(statement.params.iter().map(to_value)))
        .unwrap();
    let mut result = vec![];
    while let Some(row) = rows.next().unwrap() {
        let mut values = vec![];
        for index in 0..columns {
            values.push(match row.get_ref(index).unwrap() {
                ValueRef::Null => SqlValue::Null,
                ValueRef::Integer(n) => SqlValue::Integer(n),
                ValueRef::Text(bytes) => SqlValue::Text(String::from_utf8(bytes.to_vec()).unwrap()),
                other => panic!("{:?}", other),
            });
        }
        result.push(values);
    }
    result
}

fn open() -> (Connection, Database) {
    let connection = Connection::open_in_memory().unwrap();
    let flags = FunctionFlags::SQLITE_UTF8 | FunctionFlags::SQLITE_DETERMINISTIC;
    connection
        .create_scalar_function("dist", 2, flags, |ctx| {
            let a = ctx.get_raw(0);
            let b = ctx.get_raw(1);
            Ok(noir::defun::dist(a.as_str().ok(), b.as_str().ok()))
        })
        .unwrap();
    connection
        .create_scalar_function("imatch", 2, flags, |ctx| {
            let pattern = ctx.get_raw(0);
            let text = ctx.get_raw(1);
            Ok(noir::defun::match_text(
                pattern.as_str().unwrap(),
                text.as_str().unwrap(),
                true,
            ))
        })
        .unwrap();
    connection
        .create_scalar_function("match", 2, flags, |ctx| {
            let pattern = ctx.get_raw(0);
            let text = ctx.get_raw(1);
            Ok(noir::defun::match_text(
                pattern.as_str().unwrap(),
                text.as_str().unwrap(),
                false,
            ))
        })
        .unwrap();
    connection
        .create_scalar_function("recent", 1, FunctionFlags::SQLITE_UTF8, |ctx| {
            let span: String = ctx.get(0)?;
            Ok(noir::defun::recent(fixed_now(), &span).unwrap())
        })
        .unwrap();
    let (database, create) = Database::open();
    execute(&connection, &create);
    (connection, database)
}

fn fixed_now() -> Timestamp {
    Timestamp::new(1431820800, 0).unwrap()
}

fn image(path: &str, width: u32, height: u32, hash: u64, modified: i64) -> Meta {
    Meta::with_hashing(
        &ImageProbe {
            format: ImageFormat::Jpeg,
            dimensions: Dimensions { width, height },
            animation: false,
        },
        ImageFormat::Jpeg,
        width,
        height,
        hash,
        FileMeta {
            path: path.to_owned(),
            size: 10,
            created: None,
            modified: Timestamp::new(modified, 0),
            accessed: None,
        },
    )
}

fn select(connection: &Connection, database: &Database, expression: &str) -> Vec<String> {
    let expander = Expander::new(vec![], vec![]);
    let expanded = expander.expand_str(expression).unwrap();
    let mut paths: Vec<String> = query(connection, &database.select(expanded.as_ref()))
        .iter()
        .map(|row| from_row(row).unwrap().file.path)
        .collect();
    paths.sort();
    paths
}

fn count(connection: &Connection, sql: &str) -> u64 {
    let statement = noir::database::plain(sql);
    count_from_row(&query(connection, &statement)[0]).unwrap()
}

fn tags(names: &[&str]) -> Vec<Tag> {
    names.iter().map(|name| Tag::from_str(name).unwrap()).collect()
}

#[test]
fn two_upserts_leave_one_row_with_the_latest_values() {
    let (connection, database) = open();
    execute(&connection, &database.upsert(&image("/a.jpg", 10, 20, 1, 0)));
    execute(&connection, &database.upsert(&image("/a.jpg", 10, 20, 1, 0)));
    assert_eq!(count(&connection, "SELECT COUNT(*) FROM images"), 1);
    let latest = image("/a.jpg", 300, 200, 0xff, 1431648000);
    execute(&connection, &database.upsert(&latest));
    let rows = query(&connection, &database.get("/a.jpg"));
    assert_eq!(rows.len(), 1);
    assert_eq!(from_row(&rows[0]).unwrap(), latest);
    assert_eq!(rows[0][3], SqlValue::Integer(3));
    assert_eq!(rows[0][4], SqlValue::Integer(2));
    assert_eq!(
        count_from_row(&query(&connection, &database.get_total_images(None))[0]).unwrap(),
        1
    );
    assert_eq!(query(&connection, &database.path_exists("/a.jpg")).len(), 1);
    assert_eq!(query(&connection, &database.path_exists("/b.jpg")).len(), 0);
}

#[test]
fn adding_a_tag_twice_leaves_one_binding() {
    let (connection, database) = open();
    execute(&connection, &database.upsert(&image("/a.jpg", 1, 1, 0, 0)));
    for _ in 0..2 {
        execute(
            &connection,
            &database.add_tags("/a.jpg", &tags(&["cat"]), "me", true).unwrap(),
        );
    }
    assert_eq!(count(&connection, "SELECT COUNT(*) FROM tags"), 1);
    execute(
        &connection,
        &database.add_tags("/a.jpg", &tags(&["cat", "kitten"]), "other", true).unwrap(),
    );
    assert_eq!(count(&connection, "SELECT COUNT(*) FROM tags"), 3);
    assert_eq!(
        query(&connection, &database.tags()),
        vec![
            vec![SqlValue::Text("cat".to_owned())],
            vec![SqlValue::Text("kitten".to_owned())]
        ]
    );
    execute(
        &connection,
        &database.set_tags("/a.jpg", &tags(&["dog"]), "me", true).unwrap(),
    );
    let mut bound: Vec<Vec<SqlValue>> = query(&connection, &database.tags_by_path("/a.jpg"));
    bound.sort_by_key(|row| format!("{:?}", row));
    assert_eq!(
        bound,
        vec![
            vec![SqlValue::Text("cat".to_owned())],
            vec![SqlValue::Text("dog".to_owned())],
            vec![SqlValue::Text("kitten".to_owned())]
        ]
    );
    execute(&connection, &database.delete_tags("/a.jpg", &tags(&["cat"]), "other"));
    execute(&connection, &[database.clear_tags("/a.jpg", "me", true).unwrap()]);
    assert_eq!(
        query(&connection, &database.tags_by_path("/a.jpg")),
        vec![vec![SqlValue::Text("kitten".to_owned())]]
    );
}

#[test]
fn a_search_used_n_times_has_one_row_with_n_uses() {
    let (connection, database) = open();
    for i in 0..5 {
        let now = Timestamp::new(1431648000 + i, 0).unwrap();
        execute(&connection, &database.add_search_history(" q ", now));
    }
    execute(
        &connection,
        &database.add_search_history("earlier", Timestamp::new(0, 0).unwrap()),
    );
    let history: Vec<_> = query(&connection, &database.search_history())
        .iter()
        .map(|row| history_from_row(row).unwrap())
        .collect();
    assert_eq!(history.len(), 2);
    assert_eq!(history[0].expression, "q");
    assert_eq!(history[0].uses, 5);
    assert_eq!(history[1].expression, "earlier");
    assert_eq!(history[1].uses, 1);
}

#[test]
fn aliases_are_kept_by_name() {
    let (connection, database) = open();
    execute(&connection, &database.upsert_alias("cats", "#feline", true));
    execute(&connection, &database.upsert_alias("cats", "#cat", false));
    execute(&connection, &database.upsert_alias("dogs", "#dog", true));
    let mut aliases: Vec<_> = query(&connection, &database.aliases())
        .iter()
        .map(|row| alias_from_row(row).unwrap())
        .collect();
    aliases.sort_by(|a, b| a.0.cmp(&b.0));
    assert_eq!(aliases.len(), 2);
    assert_eq!(aliases[0].0, "cats");
    assert_eq!(aliases[0].1.expression, "#cat");
    assert!(!aliases[0].1.recursive);
    assert!(aliases[1].1.recursive);
    execute(&connection, &[database.delete_alias("cats")]);
    assert_eq!(query(&connection, &database.aliases()).len(), 1);
}

#[test]
fn a_vacuum_removes_the_row_and_its_tags() {
    let (connection, database) = open();
    execute(&connection, &database.upsert(&image("/gone.jpg", 1, 1, 0, 0)));
    execute(&connection, &database.upsert(&image("/here.jpg", 1, 1, 0, 0)));
    execute(
        &connection,
        &database.add_tags("/gone.jpg", &tags(&["a", "b"]), "me", true).unwrap(),
    );
    let rows = query(&connection, &database._vacuum(Some("/g")));
    assert_eq!(rows.len(), 1);
    let mut removed = 0;
    for row in &rows {
        let meta = from_row(row).unwrap();
        let statements = database.vacuum_row(&meta.file.path, false);
        if !statements.is_empty() {
            removed += 1;
        }
        execute(&connection, &statements);
    }
    assert_eq!(removed, 1);
    assert_eq!(count(&connection, "SELECT COUNT(*) FROM images"), 1);
    assert_eq!(count(&connection, "SELECT COUNT(*) FROM tags"), 0);
    assert_eq!(
        count_from_row(&query(&connection, &database.get_total_images(Some("/h")))[0]).unwrap(),
        1
    );
}

#[test]
fn a_search_with_vacuum_removes_what_has_no_file() {
    let (connection, database) = open();
    for path in ["/gone.jpg", "/here.jpg", "/other.png"] {
        execute(&connection, &database.upsert(&image(path, 1, 1, 0, 0)));
        execute(
            &connection,
            &database.add_tags(path, &tags(&["t"]), "me", true).unwrap(),
        );
    }
    let on_disk = |path: &str| path == "/here.jpg";
    let mut seen = vec![];
    for vacuum in [false, true] {
        let expander = Expander::new(vec![], vec![]);
        let expanded = expander.expand_str("match('*.jpg', path)").unwrap();
        for row in query(&connection, &database.select(expanded.as_ref())) {
            let meta = from_row(&row).unwrap();
            let (vacuumed, statements) =
                database.select_row(&meta.file.path, vacuum, on_disk(&meta.file.path));
            execute(&connection, &statements);
            seen.push((vacuum, meta.file.path, vacuumed));
        }
        if !vacuum {
            assert_eq!(count(&connection, "SELECT COUNT(*) FROM images"), 3);
            assert_eq!(count(&connection, "SELECT COUNT(*) FROM tags"), 3);
        }
    }
    seen.sort();
    assert_eq!(
        seen,
        vec![
            (false, "/gone.jpg".to_owned(), false),
            (false, "/here.jpg".to_owned(), false),
            (true, "/gone.jpg".to_owned(), true),
            (true, "/here.jpg".to_owned(), false),
        ]
    );
    assert_eq!(
        select(&connection, &database, "1 = 1"),
        vec!["/here.jpg", "/other.png"]
    );
    assert_eq!(count(&connection, "SELECT COUNT(*) FROM tags"), 2);
}

#[test]
fn a_search_selects_by_distance_of_hashes() {
    let (connection, database) = open();
    execute(&connection, &database.upsert(&image("/near.jpg", 1, 1, u64::MAX - 0b1111, 0)));
    execute(&connection, &database.upsert(&image("/edge.jpg", 1, 1, u64::MAX - 0b11111, 0)));
    execute(&connection, &database.upsert(&image("/same.jpg", 1, 1, u64::MAX, 0)));
    execute(&connection, &database.upsert(&image("/far.jpg", 1, 1, 0, 0)));
    let plain = Meta::without_hashing(
        &ImageProbe {
            format: ImageFormat::Png,
            dimensions: Dimensions {
                width: 1,
                height: 1,
            },
            animation: false,
        },
        FileMeta {
            path: "/nohash.png".to_owned(),
            size: 1,
            created: None,
            modified: None,
            accessed: None,
        },
    );
    execute(&connection, &database.upsert(&plain));
    assert_eq!(
        select(&connection, &database, "dist(dhash, 'ffffffffffffffff') < 5"),
        vec!["/near.jpg", "/same.jpg"]
    );
}

#[test]
fn a_search_matches_paths_in_any_case() {
    let (connection, database) = open();
    for path in ["/a.JPG", "/b.jpg", "/c.Jpg", "/d.png", "/jpg"] {
        execute(&connection, &database.upsert(&image(path, 1, 1, 0, 0)));
    }
    assert_eq!(
        select(&connection, &database, "imatch('*.JPG', path)"),
        vec!["/a.JPG", "/b.jpg", "/c.Jpg"]
    );
    assert_eq!(
        select(&connection, &database, "match('*.JPG', path)"),
        vec!["/a.JPG"]
    );
    assert_eq!(
        select(&connection, &database, "`.J`"),
        vec!["/a.JPG", "/b.jpg", "/c.Jpg"]
    );
}

#[test]
fn a_search_selects_what_changed_of_late() {
    let (connection, database) = open();
    let now = fixed_now().secs;
    execute(&connection, &database.upsert(&image("/new.jpg", 1, 1, 0, now - 86400)));
    execute(&connection, &database.upsert(&image("/old.jpg", 1, 1, 0, now - 3 * 86400)));
    assert_eq!(
        select(&connection, &database, "modified > recent('2 days')"),
        vec!["/new.jpg"]
    );
    assert_eq!(
        select(&connection, &database, "modified > recent('4 days')"),
        vec!["/new.jpg", "/old.jpg"]
    );
}

#[test]
fn a_search_selects_by_tag() {
    let (connection, database) = open();
    for path in ["/a.jpg", "/b.jpg", "/c.jpg"] {
        execute(&connection, &database.upsert(&image(path, 1, 1, 0, 0)));
    }
    execute(
        &connection,
        &database.add_tags("/a.jpg", &tags(&["feline", "kittens"]), "me", true).unwrap(),
    );
    execute(
        &connection,
        &database.add_tags("/b.jpg", &tags(&["feline"]), "me", true).unwrap(),
    );
    let expander = Expander::new(
        vec![(
            "cats".to_owned(),
            noir::alias::Alias {
                expression: "#feline".to_owned(),
                recursive: true,
            },
        )],
        vec![],
    );
    let expanded = expander.expand_str("cats and #kittens").unwrap();
    let found = query(&connection, &database.select(expanded.as_ref()));
    assert_eq!(found.len(), 1);
    assert_eq!(from_row(&found[0]).unwrap().file.path, "/a.jpg");
    assert_eq!(select(&connection, &database, "#feline").len(), 2);
    assert_eq!(select(&connection, &database, "#it's").len(), 0);
}

#[test]
fn a_transaction_is_begun_and_committed() {
    let (connection, mut database) = open();
    execute(&connection, &[database.begin().unwrap()]);
    database.began(true);
    execute(&connection, &database.upsert(&image("/a.jpg", 1, 1, 0, 0)));
    assert!(!connection.is_autocommit());
    assert!(database.in_transaction());
    execute(&connection, &[database.commit().unwrap()]);
    database.committed(true);
    assert!(connection.is_autocommit());
    assert!(!database.in_transaction());
    assert_eq!(count(&connection, "SELECT COUNT(*) FROM images"), 1);
}

#[test]
fn a_reset_empties_images_and_tags() {
    let (connection, database) = open();
    execute(&connection, &database.upsert(&image("/a.jpg", 1, 1, 0, 0)));
    execute(&connection, &database.upsert_alias("cats", "#cat", false));
    execute(&connection, &database.reset());
    assert_eq!(count(&connection, "SELECT COUNT(*) FROM images"), 0);
    assert_eq!(count(&connection, "SELECT COUNT(*) FROM aliases"), 1);
}

#[test]
fn a_job_is_queued_and_taken_off() {
    let (connection, database) = open();
    execute(&connection, &[database.queue("http://x/a.png", "{\"url\":1}")]);
    execute(&connection, &[database.queue("http://x/b.png", "{}")]);
    assert_eq!(count(&connection, "SELECT COUNT(*) FROM download_queue"), 2);
    execute(&connection, &[database.unqueue("http://x/a.png", "{\"url\":1}")]);
    assert_eq!(count(&connection, "SELECT COUNT(*) FROM download_queue"), 1);
}
