use rung::json::{validate_json, JsonError};

fn schema_text() -> String {
    r#"
    {
        "$schema": "http://json-schema.org/draft-07/schema#",
        "$id": "http://example.com/product.schema.json",
        "type": "object",
        "properties": {
            "name": {
                "type": "string"
            }
        },
        "required": ["name"]
    }
    "#
    .to_string()
}

#[test]
fn check_json_test_passes_validation() {
    let json_text = r#"
    {
        "name": "Denys"
    }
    "#
    .to_string();

    assert_eq!(
        Ok(true),
        validate_json(&Some(json_text), &Some(schema_text()))
    );
}

#[test]
fn check_json_test_fails_validation() {
    let json_text = r#"
    {
        "name": true
    }
    "#
    .to_string();

    assert_eq!(
        Ok(false),
        validate_json(&Some(json_text), &Some(schema_text()))
    );
}

#[test]
fn fails_validation_for_missing_documents() {
    assert_eq!(Ok(false), validate_json(&None, &Some(schema_text())));
    assert_eq!(
        Ok(false),
        validate_json(&Some("{}".to_string()), &None)
    );
}

#[test]
fn fails_validation_for_incorrect_content() {
    assert_eq!(
        Ok(false),
        validate_json(
            &Some("Not a JSON file at all.".to_string()),
            &Some(schema_text())
        )
    );
    assert_eq!(
        Ok(false),
        validate_json(
            &Some("{}".to_string()),
            &Some("Not a JSON file at all.".to_string())
        )
    );
}

#[test]
fn reports_invalid_schema() {
    let bad_schema = r#"{"type": 123}"#.to_string();

    assert_eq!(
        Err(JsonError::InvalidSchema),
        validate_json(&Some("{}".to_string()), &Some(bad_schema))
    );
}
