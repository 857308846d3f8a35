use rung::json::validate_json;

fn schema_text() -> String {
    r#"
    {
        "$schema": "http://json-schema.org/draft-07/schema#",
        "$id": "http://example.com/product.schema.json",
        "type": "object",
        "properties": {
            "name": {
                "type": "string"
            }
        },
        "required": ["name"]
    }
    "#
    .to_string()
}

#[test]
fn validate_json_test_passes_validation() {
    let json_text = r#"
    {
        "name": "Denys"
    }
    "#
    .to_string();

    assert_eq!(
        Ok(true),
        validate_json(&Some(json_text), &Some(schema_text()))
    );
}

#[test]
fn validate_json_test_fails_validation() {
    let json_text = r#"
    {
        "name": true
    }
    "#
    .to_string();

    assert_eq!(
        Ok(false),
        validate_json(&Some(json_text), &Some(schema_text()))
    );
}
