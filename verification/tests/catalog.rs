use noir::database::{
    alias_from_row, count_from_row, create_table, from_row, history_from_row,
    maybe_prefixed_where_clause, plain, statement, Database, SqlValue, Statement, SELECT_PREFIX,
};
use noir::errors::AppError;
use noir::image_format::ImageFormat;
use noir::loader::{
    generate_tags, generated_tags, has_image_extension, Config, FilePlan, Loader,
};
use noir::meta::{Dimensions, FileMeta, ImageProbe, Meta};
use noir::search_history::SearchHistory;
use noir::server::download::{record_config, Job, Manager, Tags};
use noir::tag::Tag;
use noir::time::Timestamp;

fn text(s: &str) -> SqlValue {
    SqlValue::Text(s.to_owned())
}

fn sample() -> Meta {
    Meta::with_hashing(
        &ImageProbe {
            format: ImageFormat::Gif,
            dimensions: Dimensions {
                width: 1,
                height: 1,
            },
            animation: true,
        },
        ImageFormat::Gif,
        1920,
        1080,
        0xff,
        FileMeta {
            path: "/pics/a.gif".to_owned(),
            size: 4096,
            created: Timestamp::new(1431648000, 0),
            modified: Timestamp::new(1431648000, 500_000_000),
            accessed: None,
        },
    )
}

fn sample_row() -> Vec<SqlValue> {
    vec![
        text("/pics/a.gif"),
        SqlValue::Integer(1920),
        SqlValue::Integer(1080),
        SqlValue::Integer(16),
        SqlValue::Integer(9),
        text("gif"),
        SqlValue::Integer(1),
        SqlValue::Integer(4096),
        text("00000000000000ff"),
        text("2015-05-15T00:00:00+00:00"),
        text("2015-05-15T00:00:00.500+00:00"),
        SqlValue::Null,
    ]
}

fn tags(names: &[&str]) -> Vec<Tag> {
    names.iter().map(|name| Tag::from_str(name).unwrap()).collect()
}

fn job(url: &str) -> Job {
    Job {
        tags: None,
        to: "/data/x.png".to_owned(),
        url: url.to_owned(),
    }
}

#[test]
fn upsert_updates_then_inserts_with_the_same_values() {
    let (db, _) = Database::open();
    let statements = db.upsert(&sample());
    assert_eq!(statements.len(), 2);
    assert_eq!(statements[0].params, sample_row());
    assert_eq!(statements[1].params, sample_row());
    assert!(statements[0].sql.starts_with("UPDATE images SET "));
    assert!(statements[0].sql.ends_with(" WHERE path = ?1"));
    assert!(statements[1].sql.starts_with("INSERT OR IGNORE INTO images "));
    assert_eq!(db.upsert(&sample()), statements);
}

#[test]
fn rows_of_images_are_read_back() {
    assert_eq!(from_row(&sample_row()).unwrap(), sample());
    let (db, _) = Database::open();
    assert_eq!(from_row(&db.upsert(&sample())[0].params).unwrap(), sample());

    let mut row = sample_row();
    row[6] = SqlValue::Integer(0);
    row[8] = SqlValue::Null;
    row[9] = SqlValue::Null;
    let meta = from_row(&row).unwrap();
    assert!(!meta.animation);
    assert_eq!(meta.dhash, None);
    assert_eq!(meta.file.created, None);
    assert_eq!(meta.file.modified, Timestamp::new(1431648000, 500_000_000));
}

#[test]
fn rows_of_another_shape_are_refused() {
    let bad = |row: Vec<SqlValue>| match from_row(&row) {
        Err(AppError::Sqlite(message)) => assert_eq!(message, "Invalid column type"),
        other => panic!("{:?}", other),
    };
    bad(vec![]);
    let mut row = sample_row();
    row.pop();
    bad(row);
    let mut row = sample_row();
    row[0] = SqlValue::Null;
    bad(row);
    let mut row = sample_row();
    row[1] = SqlValue::Integer(-1);
    bad(row);
    let mut row = sample_row();
    row[2] = SqlValue::Integer(u32::MAX as i64 + 1);
    bad(row);
    let mut row = sample_row();
    row[5] = text("jpg");
    bad(row);
    let mut row = sample_row();
    row[6] = text("true");
    bad(row);
    let mut row = sample_row();
    row[8] = SqlValue::Integer(255);
    bad(row);
    let mut row = sample_row();
    row[10] = text("yesterday");
    bad(row);
}

#[test]
fn tags_are_added_to_paths_that_exist() {
    let (db, _) = Database::open();
    let statements = db
        .add_tags("/p", &tags(&["cat", "dog"]), "noir", true)
        .unwrap();
    let sql = "INSERT OR IGNORE INTO tags (tag, path, source) VALUES (?1, ?2, ?3)";
    assert_eq!(
        statements,
        vec![
            statement(sql, vec![text("cat"), text("/p"), text("noir")]),
            statement(sql, vec![text("dog"), text("/p"), text("noir")]),
        ]
    );
    assert_eq!(db.add_tags("/p", &tags(&[]), "noir", true).unwrap(), vec![]);
    match db.add_tags("/p", &tags(&["cat"]), "noir", false) {
        Err(AppError::PathNotFound(path)) => assert_eq!(path, "/p"),
        other => panic!("{:?}", other),
    }
    assert!(db.check_path_existence("/p", true).is_ok());
    assert!(matches!(
        db.check_path_existence("/p", false),
        Err(AppError::PathNotFound(_))
    ));
}

#[test]
fn tags_are_deleted_cleared_and_set() {
    let (db, _) = Database::open();
    let delete = "DELETE FROM tags WHERE tag = ?1 AND path = ?2 AND source = ?3";
    assert_eq!(
        db.delete_tags("/p", &tags(&["cat"]), "s"),
        vec![statement(delete, vec![text("cat"), text("/p"), text("s")])]
    );
    let clear = statement(
        "DELETE FROM tags WHERE path = ?1 AND source = ?2",
        vec![text("/p"), text("s")],
    );
    assert_eq!(db.clear_tags("/p", "s", true).unwrap(), clear);
    assert!(matches!(
        db.clear_tags("/p", "s", false),
        Err(AppError::PathNotFound(_))
    ));
    let set = db.set_tags("/p", &tags(&["a", "b"]), "s", true).unwrap();
    assert_eq!(set.len(), 3);
    assert_eq!(set[0], clear);
    assert_eq!(set[1..].to_vec(), db.add_tags("/p", &tags(&["a", "b"]), "s", true).unwrap());
    assert!(matches!(
        db.set_tags("/p", &tags(&["a"]), "s", false),
        Err(AppError::PathNotFound(_))
    ));
}

#[test]
fn aliases_are_upserted_deleted_and_read() {
    let (db, _) = Database::open();
    let statements = db.upsert_alias("cats", "#feline", true);
    let params = vec![text("cats"), text("#feline"), SqlValue::Integer(1)];
    assert_eq!(
        statements,
        vec![
            statement(
                "UPDATE aliases SET expression = ?2, recursive = ?3 WHERE name = ?1",
                params.clone()
            ),
            statement(
                "INSERT OR IGNORE INTO aliases (name, expression, recursive) VALUES (?1, ?2, ?3)",
                params.clone()
            ),
        ]
    );
    assert_eq!(
        db.delete_alias("cats"),
        statement("DELETE FROM aliases WHERE name = ?1", vec![text("cats")])
    );
    let (name, alias) = alias_from_row(&params).unwrap();
    assert_eq!(name, "cats");
    assert_eq!(alias.expression, "#feline");
    assert!(alias.recursive);
    let (_, alias) = alias_from_row(&vec![text("a"), text("b"), SqlValue::Integer(0)]).unwrap();
    assert!(!alias.recursive);
    assert!(alias_from_row(&vec![text("a"), text("b")]).is_err());
    assert!(alias_from_row(&vec![text("a"), SqlValue::Null, SqlValue::Integer(0)]).is_err());
}

#[test]
fn search_history_is_trimmed_and_counted() {
    let (db, _) = Database::open();
    let now = Timestamp::new(1431648000, 0).unwrap();
    let statements = db.add_search_history("  #cats and #dogs \n", now);
    let params = vec![text("#cats and #dogs"), text("2015-05-15T00:00:00+00:00")];
    assert_eq!(
        statements,
        vec![
            statement(
                "UPDATE search_history SET uses = uses + 1, modified = ?2 WHERE expression = ?1",
                params.clone()
            ),
            statement(
                "INSERT OR IGNORE INTO search_history (expression, uses, modified) VALUES (?1, 1, ?2)",
                params
            ),
        ]
    );
    assert_eq!(
        history_from_row(&vec![text("q"), SqlValue::Integer(3)]).unwrap(),
        SearchHistory {
            expression: "q".to_owned(),
            uses: 3
        }
    );
    assert!(history_from_row(&vec![text("q")]).is_err());
    assert!(history_from_row(&vec![SqlValue::Integer(3), text("q")]).is_err());
}

#[test]
fn a_connection_has_one_transaction_at_a_time() {
    let (mut db, _) = Database::open();
    assert!(!db.in_transaction());
    match db.commit() {
        Err(AppError::Sqlite(message)) => {
            assert_eq!(message, "cannot commit - no transaction is active")
        }
        other => panic!("{:?}", other),
    }
    assert_eq!(db.begin().unwrap(), plain("BEGIN;"));
    db.began(true);
    assert!(db.in_transaction());
    match db.begin() {
        Err(AppError::Sqlite(message)) => {
            assert_eq!(message, "cannot start a transaction within a transaction")
        }
        other => panic!("{:?}", other),
    }
    assert!(db.in_transaction());
    assert_eq!(db.commit().unwrap(), plain("COMMIT;"));
    db.committed(true);
    assert!(!db.in_transaction());
    assert_eq!(db.transaction().unwrap(), plain("BEGIN;"));
    db.began(true);
    assert!(db.transaction().is_err());
}

#[test]
fn a_refused_statement_leaves_the_transaction_as_it_was() {
    let (mut db, _) = Database::open();
    assert_eq!(db.begin().unwrap(), plain("BEGIN;"));
    assert!(!db.in_transaction());
    db.began(false);
    assert!(!db.in_transaction());
    assert_eq!(db.begin().unwrap(), plain("BEGIN;"));
    db.began(true);
    assert!(db.in_transaction());
    assert_eq!(db.commit().unwrap(), plain("COMMIT;"));
    assert!(db.in_transaction());
    db.committed(false);
    assert!(db.in_transaction());
    assert_eq!(db.commit().unwrap(), plain("COMMIT;"));
    db.committed(true);
    assert!(!db.in_transaction());
}

#[test]
fn tables_are_made_where_they_are_missing() {
    let (db, made) = Database::open();
    assert_eq!(made, create_table());
    assert_eq!(made.len(), 6);
    for statement in &made {
        assert!(statement.sql.starts_with("CREATE "));
        assert!(statement.sql.contains(" IF NOT EXISTS "));
        assert_eq!(statement.params, vec![]);
    }
    let reset = db.reset();
    assert_eq!(reset[0], plain("DROP TABLE images"));
    assert_eq!(reset[1], plain("DROP TABLE tags"));
    assert_eq!(reset[2..].to_vec(), made);
}

#[test]
fn queries_are_written_with_their_values() {
    let (db, _) = Database::open();
    assert_eq!(SELECT_PREFIX, "SELECT * FROM images WHERE ");
    assert_eq!(
        db.select("width > 100"),
        plain("SELECT * FROM images WHERE width > 100")
    );
    assert_eq!(
        db.get("/p"),
        statement("SELECT * FROM images WHERE path = ?1", vec![text("/p")])
    );
    assert_eq!(
        db.path_exists("/p"),
        statement("SELECT 1 FROM images WHERE path = ?;", vec![text("/p")])
    );
    assert_eq!(
        db.tags(),
        plain("SELECT DISTINCT tag FROM tags ORDER BY length(tag)")
    );
    assert_eq!(
        db.tags_by_path("/p"),
        statement("SELECT tag FROM tags WHERE path = ?1", vec![text("/p")])
    );
    assert_eq!(db.aliases(), plain("SELECT * FROM aliases"));
    assert_eq!(
        db.search_history(),
        plain("SELECT expression, uses FROM search_history ORDER BY modified DESC")
    );
    assert_eq!(
        db.queue("http://x/y.png", "{}"),
        statement(
            "INSERT INTO download_queue (url, serialized_job_json) VALUES (?1, ?2)",
            vec![text("http://x/y.png"), text("{}")]
        )
    );
    assert_eq!(
        db.unqueue("http://x/y.png", "{}"),
        statement(
            "DELETE FROM download_queue WHERE url = ?1 AND serialized_job_json = ?2",
            vec![text("http://x/y.png"), text("{}")]
        )
    );
}

#[test]
fn a_prefix_narrows_counts_and_vacuums() {
    let (db, _) = Database::open();
    assert_eq!(maybe_prefixed_where_clause(None), "");
    assert_eq!(
        maybe_prefixed_where_clause(Some("/pics")),
        "WHERE path like (?1 || '%')"
    );
    assert_eq!(db.get_total_images(None), plain("SELECT COUNT(*) FROM images "));
    assert_eq!(
        db.get_total_images(Some("/pics")),
        statement(
            "SELECT COUNT(*) FROM images WHERE path like (?1 || '%')",
            vec![text("/pics")]
        )
    );
    assert_eq!(db._vacuum(None), plain("SELECT * FROM images "));
    assert_eq!(
        db._vacuum(Some("/pics")),
        statement(
            "SELECT * FROM images WHERE path like (?1 || '%')",
            vec![text("/pics")]
        )
    );
    assert_eq!(count_from_row(&vec![SqlValue::Integer(7)]).unwrap(), 7);
    assert!(count_from_row(&vec![SqlValue::Integer(-1)]).is_err());
    assert!(count_from_row(&vec![]).is_err());
    assert!(count_from_row(&vec![text("7")]).is_err());
}

#[test]
fn a_vacuum_removes_images_without_a_file() {
    let (db, _) = Database::open();
    assert_eq!(db.vacuum_row("/p", true), vec![]);
    let removal: Vec<Statement> = vec![
        statement("DELETE FROM images WHERE path = ?1", vec![text("/p")]),
        statement("DELETE FROM tags WHERE path = ?1", vec![text("/p")]),
    ];
    assert_eq!(db.vacuum_row("/p", false), removal);
    assert_eq!(db.delete_path("/p"), removal);
}

#[test]
fn a_search_vacuums_only_where_asked() {
    let (db, _) = Database::open();
    assert_eq!(db.select_row("/p", false, true), (false, vec![]));
    assert_eq!(db.select_row("/p", false, false), (false, vec![]));
    assert_eq!(db.select_row("/p", true, true), (false, vec![]));
    assert_eq!(db.select_row("/p", true, false), (true, db.delete_path("/p")));
}

#[test]
fn image_extensions_are_told_in_any_case() {
    for yes in ["png", "jpg", "jpeg", "gif", "webp", "PNG", "Jpeg", "WebP"] {
        assert!(has_image_extension(Some(yes)), "{}", yes);
    }
    for no in ["", "bmp", "txt", "pngx", "jp g"] {
        assert!(!has_image_extension(Some(no)), "{}", no);
    }
    assert!(!has_image_extension(None));
}

#[test]
fn a_loader_plans_each_file() {
    let loader = Loader::new(Config::default());
    assert!(loader.accepts(None));
    assert!(loader.accepts(Some("txt")));
    assert!(loader.asks_catalog());
    assert_eq!(loader.plan(true), FilePlan::Skip);
    assert_eq!(loader.plan(false), FilePlan::Ingest);
    assert_eq!(loader.tag_source(), "unknown");
    assert_eq!(loader.config().tag_generator, None);

    let loader = Loader::new(Config {
        check_extension: true,
        update: true,
        dry_run: true,
        tag_source: Some("me"),
        ..Config::default()
    });
    assert!(!loader.accepts(None));
    assert!(!loader.accepts(Some("txt")));
    assert!(loader.accepts(Some("JPG")));
    assert!(!loader.asks_catalog());
    assert_eq!(loader.plan(true), FilePlan::DryRun);
    assert_eq!(loader.plan(false), FilePlan::DryRun);
    assert_eq!(loader.tag_source(), "me");

    let loader = Loader::new(Config {
        update: true,
        ..Config::default()
    });
    assert_eq!(loader.plan(true), FilePlan::Ingest);
    let loader = Loader::new(Config {
        dry_run: true,
        ..Config::default()
    });
    assert_eq!(loader.plan(true), FilePlan::Skip);
    assert_eq!(loader.plan(false), FilePlan::DryRun);
}

#[test]
fn a_loader_renews_the_transaction_every_hundred_files() {
    let mut loader = Loader::new(Config::default());
    for i in 1..=350 {
        assert_eq!(loader.count_upsert(), i % 100 == 0, "{}", i);
    }
}

#[test]
fn a_loader_skips_errors_where_asked() {
    let strict = Loader::new(Config::default());
    assert!(strict.load_file(Ok(())).is_ok());
    assert!(matches!(
        strict.load_file(Err(AppError::UnknownUtf8)),
        Err(AppError::UnknownUtf8)
    ));
    let lenient = Loader::new(Config {
        skip_errors: true,
        ..Config::default()
    });
    assert!(lenient.load_file(Ok(())).is_ok());
    assert!(lenient.load_file(Err(AppError::UnknownUtf8)).is_ok());
}

#[test]
fn generated_tags_are_the_lines_that_are_not_empty() {
    assert_eq!(generated_tags("cat\ndog\n"), vec!["cat", "dog"]);
    assert_eq!(generated_tags("cat\r\n\r\n\ndog"), vec!["cat", "dog"]);
    assert_eq!(generated_tags(""), Vec::<String>::new());
    assert_eq!(generated_tags("\n\n"), Vec::<String>::new());
    assert_eq!(generated_tags("a b\n"), vec!["a b"]);
    assert_eq!(generated_tags("cat\r"), vec!["cat\r"]);
    assert_eq!(generated_tags("\r\ncat"), vec!["cat"]);
    for output in ["a\nb", "a\r\nb\r\n", "\r", "a\r\r\nb", "\n\r\n", "x\n\ny\rz\n"] {
        let expected: Vec<String> = output
            .lines()
            .filter(|line| !line.is_empty())
            .map(|line| line.to_owned())
            .collect();
        assert_eq!(generated_tags(output), expected, "{:?}", output);
    }
}

#[test]
fn a_failed_tag_generator_is_an_error() {
    assert_eq!(generate_tags(true, "a\nb\n", "noise").unwrap(), vec!["a", "b"]);
    match generate_tags(false, "a\nb\n", "it broke") {
        Err(AppError::TagGeneratorFailed(words)) => assert_eq!(words, "it broke"),
        other => panic!("{:?}", other),
    }
}

#[test]
fn jobs_are_done_in_the_order_they_came() {
    let mut manager = Manager::new();
    assert_eq!(manager.pending(), 0);
    assert_eq!(manager.step(vec![]), None);
    manager.download(job("a"));
    manager.download(job("b"));
    assert_eq!(manager.pending(), 2);
    assert_eq!(manager.step(vec![job("c"), job("d")]), Some(job("a")));
    assert_eq!(manager.pending(), 3);
    assert_eq!(manager.step(vec![]), Some(job("b")));
    assert_eq!(manager.step(vec![job("e")]), Some(job("c")));
    assert_eq!(manager.step(vec![]), Some(job("d")));
    assert_eq!(manager.step(vec![]), Some(job("e")));
    assert_eq!(manager.step(vec![]), None);
    assert_eq!(manager.step(vec![job("f")]), Some(job("f")));
    assert_eq!(manager.pending(), 0);
}

#[test]
fn failed_jobs_are_counted_and_not_queued_again() {
    let mut manager = Manager::new();
    manager.download(job("a"));
    let taken = manager.step(vec![]);
    assert_eq!(taken, Some(job("a")));
    manager.finished(false);
    assert_eq!(manager.errors(), 1);
    assert_eq!(manager.pending(), 0);
    manager.finished(true);
    assert_eq!(manager.errors(), 1);
    manager.finished(false);
    assert_eq!(manager.errors(), 2);
}

#[test]
fn a_job_names_the_tags_to_bind() {
    assert_eq!(job("a").tags_to_add().unwrap(), None);
    let tagged = Job {
        tags: Some(Tags {
            items: vec!["x".to_owned(), "y".to_owned()],
            source: "noir".to_owned(),
        }),
        ..job("a")
    };
    assert_eq!(tagged.tags_to_add().unwrap(), Some(tags(&["x", "y"])));
    let bad = Job {
        tags: Some(Tags {
            items: vec!["x".to_owned(), "not a tag".to_owned()],
            source: "noir".to_owned(),
        }),
        ..job("a")
    };
    match bad.tags_to_add() {
        Err(AppError::InvalidTagFormat(given)) => assert_eq!(given, "not a tag"),
        other => panic!("{:?}", other),
    }
}

#[test]
fn a_downloaded_file_is_ingested_with_its_hash() {
    let config = record_config();
    assert!(config.compute_dhash);
    assert!(!config.check_extension);
    assert!(!config.dry_run);
    assert!(!config.skip_errors);
    assert!(!config.update);
    assert_eq!(config.tag_generator, None);
    assert_eq!(config.tag_source, None);
    let loader = Loader::new(config);
    assert_eq!(loader.plan(false), FilePlan::Ingest);
    assert_eq!(loader.plan(true), FilePlan::Skip);
}
