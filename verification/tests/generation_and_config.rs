use foo_service::configuration::{get_property, Configuration};
use foo_service::error::AppError;
use foo_service::repository::es::init_entities;
use foo_service::repository::mongo::init_documents;
use foo_service::text::{make_description, usize_to_string};

#[test]
fn renders_small_numbers() {
    assert_eq!(usize_to_string(0), "0");
    assert_eq!(usize_to_string(7), "7");
    assert_eq!(usize_to_string(10), "10");
    assert_eq!(usize_to_string(123456), "123456");
}

#[test]
fn renders_description() {
    assert_eq!(make_description(0), "I am foo number 0");
    assert_eq!(make_description(42), "I am foo number 42");
}

#[test]
fn generates_documents_in_order() {
    let docs = init_documents(3);
    assert_eq!(docs.len(), 3);
    for (i, doc) in docs.iter().enumerate() {
        assert_eq!(doc._id, i.to_string());
        assert_eq!(doc.description, format!("I am foo number {}", i));
    }
}

#[test]
fn generates_search_entities_in_order() {
    let entities = init_entities(3);
    assert_eq!(entities.len(), 3);
    for (i, entity) in entities.iter().enumerate() {
        assert_eq!(entity.id, i.to_string());
        assert_eq!(entity.description, format!("I am foo number {}", i));
    }
}

#[test]
fn generates_nothing_for_zero() {
    assert_eq!(init_documents(0).len(), 0);
    assert_eq!(init_entities(0).len(), 0);
}

#[test]
fn repeated_generation_is_identical() {
    let first = init_documents(5);
    let second = init_documents(5);
    assert_eq!(first.len(), second.len());
    for (a, b) in first.iter().zip(second.iter()) {
        assert_eq!(a._id, b._id);
        assert_eq!(a.description, b.description);
    }
}

#[test]
fn larger_generation_covers_stale_ids() {
    // The ids a shrinking re-initialization leaves behind in the search
    // index are exactly the tail of the larger batch.
    let larger = init_entities(5);
    let smaller = init_entities(3);
    assert_eq!(smaller.len(), 3);
    assert_eq!(larger[3].id, "3");
    assert_eq!(larger[4].id, "4");
    assert_eq!(larger[3].description, "I am foo number 3");
}

#[test]
fn get_property_finds_value() {
    let mut props = vec![
        ("alpha".to_string(), "1".to_string()),
        ("beta".to_string(), "2".to_string()),
    ];
    let value = get_property(&mut props, "beta").unwrap();
    assert_eq!(value, "2");
    assert_eq!(props.len(), 1);
    assert_eq!(props[0].0, "alpha");
}

#[test]
fn get_property_last_entry_wins() {
    let mut props = vec![
        ("key".to_string(), "old".to_string()),
        ("other".to_string(), "x".to_string()),
        ("key".to_string(), "new".to_string()),
    ];
    let value = get_property(&mut props, "key").unwrap();
    assert_eq!(value, "new");
    assert_eq!(props.len(), 1);
    assert_eq!(props[0].0, "other");
}

#[test]
fn get_property_missing_key() {
    let mut props = vec![("alpha".to_string(), "1".to_string())];
    match get_property(&mut props, "beta") {
        Err(AppError::Initialization(message)) => {
            assert_eq!(message, "Missing property 'beta'");
        }
        other => panic!("expected an initialization error, got {:?}", other.is_ok()),
    }
    assert_eq!(props.len(), 1);
}

#[test]
fn configuration_from_properties() {
    let bytes = b"mongodb_connection_string=mongodb://localhost:27017\n\
                  elasticsearch_url=http://localhost:9200\n";
    let configuration = Configuration::from_properties(bytes).unwrap();
    assert_eq!(
        configuration.mongodb_connection_string,
        "mongodb://localhost:27017"
    );
    assert_eq!(configuration.elasticsearch_url, "http://localhost:9200");
}

#[test]
fn configuration_last_entry_wins() {
    let bytes = b"mongodb_connection_string=first\n\
                  elasticsearch_url=http://localhost:9200\n\
                  mongodb_connection_string=second\n";
    let configuration = Configuration::from_properties(bytes).unwrap();
    assert_eq!(configuration.mongodb_connection_string, "second");
}

#[test]
fn configuration_parses_comments_and_escapes() {
    // Properties syntax is the parser's own: comments are skipped and a
    // colon separates just as well as an equals sign.
    let bytes = b"# a comment\nmongodb_connection_string: mongodb://h\nelasticsearch_url=http\\://e\n";
    let configuration = Configuration::from_properties(bytes).unwrap();
    assert_eq!(configuration.mongodb_connection_string, "mongodb://h");
    assert_eq!(configuration.elasticsearch_url, "http://e");
}

#[test]
fn configuration_refused_source_is_internal() {
    // A malformed \uxxxx escape makes the properties parser itself refuse
    // the source, which surfaces as an internal error, not a missing key.
    let bytes = b"mongodb_connection_string=\\uZZZZ\nelasticsearch_url=http://e\n";
    match Configuration::from_properties(bytes) {
        Err(AppError::Internal(_)) => {}
        _ => panic!("expected an internal error"),
    }
}

#[test]
fn configuration_missing_mongo_key() {
    let bytes = b"elasticsearch_url=http://localhost:9200\n";
    match Configuration::from_properties(bytes) {
        Err(AppError::Initialization(message)) => {
            assert_eq!(message, "Missing property 'mongodb_connection_string'");
        }
        _ => panic!("expected an initialization error"),
    }
}

#[test]
fn configuration_missing_es_key() {
    let bytes = b"mongodb_connection_string=mongodb://localhost:27017\n";
    match Configuration::from_properties(bytes) {
        Err(AppError::Initialization(message)) => {
            assert_eq!(message, "Missing property 'elasticsearch_url'");
        }
        _ => panic!("expected an initialization error"),
    }
}
