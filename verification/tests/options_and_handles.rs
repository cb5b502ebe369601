use mongo_php_async_driver::bson::{Bson, Document};
use mongo_php_async_driver::client::MongoClient;
use mongo_php_async_driver::conversion::PhpDocument;
use mongo_php_async_driver::find_options::MongoFindOptions;

fn doc1(k: &str) -> PhpDocument {
    PhpDocument(Document { entries: vec![(k.to_string(), Bson::Int32(1))] })
}

#[test]
fn find_options_carry_each_value() {
    let o = MongoFindOptions::__construct(
        Some(true),
        None,
        Some(10),
        Some("c".to_string()),
        Some(doc1("ignored")),
        Some(2),
        Some(-5),
        Some(doc1("max")),
        Some(1_000),
        Some(7),
        Some(2_000_000),
        None,
        Some(false),
        Some(doc1("p")),
        None,
        Some(true),
        Some(3),
        Some(doc1("s")),
        None,
    );
    let f = o.options;
    assert_eq!(f.allow_disk_use, Some(true));
    assert_eq!(f.allow_partial_results, None);
    assert_eq!(f.batch_size, Some(10));
    assert_eq!(f.comment, Some("c".to_string()));
    assert_eq!(f.limit, Some(-5));
    assert_eq!(f.max, Some(doc1("max").0));
    assert_eq!(f.max_await_time_nanos, Some(1_000));
    assert_eq!(f.max_scan, Some(7));
    assert_eq!(f.max_time_nanos, Some(2_000_000));
    assert_eq!(f.min, None);
    assert_eq!(f.no_cursor_timeout, Some(false));
    assert_eq!(f.projection, Some(doc1("p").0));
    assert_eq!(f.return_key, None);
    assert_eq!(f.show_record_id, Some(true));
    assert_eq!(f.skip, Some(3));
    assert_eq!(f.sort, Some(doc1("s").0));
    assert_eq!(f.let_vars, None);
}

fn client(default_db: Option<&str>) -> (tokio::runtime::Runtime, MongoClient) {
    let rt = tokio::runtime::Builder::new_current_thread().enable_all().build().unwrap();
    let c = {
        let _guard = rt.enter();
        let mut opts = mongodb::options::ClientOptions::default();
        opts.hosts = vec![mongodb::options::ServerAddress::Tcp { host: "localhost".to_string(), port: Some(27017) }];
        opts.default_database = default_db.map(|s| s.to_string());
        mongodb::Client::with_options(opts).unwrap()
    };
    (rt, MongoClient { client: c })
}

#[test]
fn database_answers_its_name() {
    let (rt, c) = client(None);
    let _guard = rt.enter();
    let db = c.database("shop");
    assert_eq!(db.name(), "shop");
    let coll = db.collection("items");
    assert_eq!(coll.collection.name(), "items");
    assert_eq!(coll.collection.namespace().db, "shop");
    assert_eq!(coll.collection.namespace().coll, "items");
}

#[test]
fn default_database() {
    let (rt, c) = client(None);
    {
        let _guard = rt.enter();
        assert!(c.defaultDatabase().is_none());
    }
    let (rt2, c2) = client(Some("main"));
    let _guard = rt2.enter();
    assert_eq!(c2.defaultDatabase().unwrap().name(), "main");
}
