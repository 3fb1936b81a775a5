use foo_service::error::{AppError, ErrorDetail, ValidationIssue};
use foo_service::handlers::{
    get_es_status, get_foo_by_id, get_mongo_status, health_check, init_data, parse_health_status,
    search_foo, search_results, Foo, HealthStatus, Status,
};
use foo_service::repository::es::{search_query_body, FooESEntity, FooSearchRequest};
use foo_service::repository::mongo::FooEntity;

fn request(size: u32, text: &str) -> FooSearchRequest {
    FooSearchRequest {
        from: FooSearchRequest::default_from(),
        size,
        text: text.to_string(),
    }
}

#[test]
fn defaults_match_declared_values() {
    assert_eq!(FooSearchRequest::default_from(), 0);
    assert_eq!(FooSearchRequest::default_size(), 10);
}

#[test]
fn valid_request_passes() {
    assert!(request(1, "x").validate().is_ok());
    assert!(request(100, "x").validate().is_ok());
    assert!(request(10, "number 2").validate().is_ok());
}

fn expect_validation(r: Result<(), AppError>) -> Vec<ValidationIssue> {
    match r {
        Err(AppError::Validation(issues)) => issues,
        _ => panic!("expected a validation error"),
    }
}

#[test]
fn size_zero_is_rejected() {
    let issues = expect_validation(request(0, "x").validate());
    assert_eq!(issues.len(), 1);
    assert_eq!(issues[0].field, "size");
    assert_eq!(
        issues[0].message.as_deref(),
        Some("size must be at least 1 and at most 100")
    );
}

#[test]
fn size_above_hundred_is_rejected() {
    let issues = expect_validation(request(101, "x").validate());
    assert_eq!(issues.len(), 1);
    assert_eq!(issues[0].field, "size");
}

#[test]
fn blank_text_is_rejected() {
    let issues = expect_validation(request(10, "").validate());
    assert_eq!(issues.len(), 1);
    assert_eq!(issues[0].field, "text");
    assert_eq!(issues[0].message.as_deref(), Some("text must not be blank"));
}

#[test]
fn both_rules_violated_give_two_issues() {
    let issues = expect_validation(request(0, "").validate());
    assert_eq!(issues.len(), 2);
    assert_eq!(issues[0].field, "size");
    assert_eq!(issues[1].field, "text");
}

#[test]
fn validation_error_response_names_fields() {
    let error = match request(0, "").validate() {
        Err(e) => e,
        Ok(()) => panic!("expected a validation error"),
    };
    let (status, details) = error.error_response();
    assert_eq!(status, 400);
    assert_eq!(details.len(), 2);
    assert_eq!(
        details[0].message,
        "Field 'size' is invalid: size must be at least 1 and at most 100"
    );
    assert_eq!(
        details[1].message,
        "Field 'text' is invalid: text must not be blank"
    );
}

#[test]
fn validation_message_renders_issues() {
    let error = match request(0, "").validate() {
        Err(e) => e,
        Ok(()) => panic!("expected a validation error"),
    };
    assert_eq!(
        error.message(),
        "Invalid request: Field 'size' is invalid: size must be at least 1 and at most 100, \
         Field 'text' is invalid: text must not be blank"
    );
}

#[test]
fn error_responses_by_kind() {
    let (status, details) = AppError::NotFound.error_response();
    assert_eq!(status, 404);
    assert_eq!(details.len(), 1);
    assert_eq!(details[0].message, "Resource not found");

    let (status, details) = AppError::Internal("boom".to_string()).error_response();
    assert_eq!(status, 500);
    assert_eq!(details[0].message, "Internal server error: boom");

    let (status, details) = AppError::Initialization("no file".to_string()).error_response();
    assert_eq!(status, 500);
    assert_eq!(details[0].message, "Failed to initialize app: no file");
}

#[test]
fn error_detail_new_keeps_message() {
    let detail = ErrorDetail::new("anything".to_string());
    assert_eq!(detail.message, "anything");
}

#[test]
fn search_foo_rejects_invalid_request() {
    match search_foo(&request(0, "x")) {
        Err(AppError::Validation(issues)) => assert_eq!(issues[0].field, "size"),
        _ => panic!("expected a validation error"),
    }
}

#[test]
fn search_foo_builds_match_query() {
    let body = search_foo(&request(10, "number 2")).unwrap();
    let value: serde_json::Value = serde_json::from_str(&body).unwrap();
    assert_eq!(
        value["query"]["match"]["description"]["query"],
        serde_json::Value::String("number 2".to_string())
    );
}

#[test]
fn query_body_escapes_special_characters() {
    let text = "a \"quoted\\path\"\nwith\tcontrol\u{1}chars";
    let body = search_query_body(text);
    let value: serde_json::Value = serde_json::from_str(&body).unwrap();
    assert_eq!(
        value["query"]["match"]["description"]["query"],
        serde_json::Value::String(text.to_string())
    );
}

#[test]
fn search_results_keep_order_and_fields() {
    let entities = vec![
        FooESEntity {
            id: "2".to_string(),
            description: "I am foo number 2".to_string(),
        },
        FooESEntity {
            id: "0".to_string(),
            description: "I am foo number 0".to_string(),
        },
    ];
    let foos = search_results(entities);
    assert_eq!(foos.len(), 2);
    assert_eq!(foos[0].id, "2");
    assert_eq!(foos[0].description, "I am foo number 2");
    assert_eq!(foos[1].id, "0");
}

#[test]
fn init_data_generates_both_batches() {
    let (es_batch, mongo_batch) = init_data(3);
    assert_eq!(es_batch.len(), 3);
    assert_eq!(mongo_batch.len(), 3);
    for i in 0..3 {
        assert_eq!(es_batch[i].id, mongo_batch[i]._id);
        assert_eq!(es_batch[i].description, mongo_batch[i].description);
    }
    // The record a later lookup of id "1" returns.
    let foo = Foo::from(FooEntity {
        _id: mongo_batch[1]._id.clone(),
        description: mongo_batch[1].description.clone(),
    });
    assert_eq!(foo.id, "1");
    assert_eq!(foo.description, "I am foo number 1");
}

#[test]
fn lookup_maps_absence_to_not_found() {
    match get_foo_by_id(None) {
        Err(error) => assert_eq!(error.status_code(), 404),
        Ok(_) => panic!("expected the not-found outcome"),
    }
}

#[test]
fn lookup_maps_record_to_foo() {
    let found = Some(FooEntity {
        _id: "1".to_string(),
        description: "I am foo number 1".to_string(),
    });
    let foo = get_foo_by_id(found).unwrap();
    assert_eq!(foo.id, "1");
    assert_eq!(foo.description, "I am foo number 1");
}

#[test]
fn health_aggregation_is_and() {
    assert_eq!(
        health_check(Status::UP, Status::UP).1.status,
        Status::UP
    );
    assert_eq!(
        health_check(Status::UP, Status::DOWN).1.status,
        Status::DOWN
    );
    assert_eq!(
        health_check(Status::DOWN, Status::UP).1.status,
        Status::DOWN
    );
    assert_eq!(
        health_check(Status::DOWN, Status::DOWN).1.status,
        Status::DOWN
    );
}

#[test]
fn health_endpoint_is_always_ok() {
    assert_eq!(health_check(Status::UP, Status::UP).0, 200);
    assert_eq!(health_check(Status::DOWN, Status::DOWN).0, 200);
}

#[test]
fn mongo_probe_classification() {
    assert_eq!(get_mongo_status(true), Status::UP);
    assert_eq!(get_mongo_status(false), Status::DOWN);
}

#[test]
fn es_probe_classification() {
    assert_eq!(get_es_status(Some(HealthStatus::GREEN)), Status::UP);
    assert_eq!(get_es_status(Some(HealthStatus::YELLOW)), Status::UP);
    assert_eq!(get_es_status(Some(HealthStatus::RED)), Status::DOWN);
    assert_eq!(get_es_status(None), Status::DOWN);
}

#[test]
fn cluster_colour_parsing() {
    assert_eq!(parse_health_status("green"), Some(HealthStatus::GREEN));
    assert_eq!(parse_health_status("yellow"), Some(HealthStatus::YELLOW));
    assert_eq!(parse_health_status("red"), Some(HealthStatus::RED));
    assert_eq!(parse_health_status("purple"), None);
    assert_eq!(parse_health_status(""), None);
}
