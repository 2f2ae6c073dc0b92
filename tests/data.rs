use signrs::data::{load_data_document, DataDocument};
use signrs::host::ArgumentError;
use signrs::script::{require_export, ScriptError};

#[test]
fn json_text_is_parsed() {
    match load_data_document(Some("{\"title\": \"Lobby\", \"slides\": [1, 2]}")) {
        DataDocument::Parsed(v) => {
            assert_eq!(v["title"], serde_json::Value::String("Lobby".to_string()));
            assert_eq!(v["slides"][1], serde_json::Value::from(2));
        }
        DataDocument::Empty => panic!("expected a parsed document"),
    }
}

#[test]
fn bad_or_missing_json_gives_the_empty_document() {
    assert!(matches!(load_data_document(Some("{not json")), DataDocument::Empty));
    assert!(matches!(load_data_document(Some("")), DataDocument::Empty));
    assert!(matches!(load_data_document(None), DataDocument::Empty));
}

#[test]
fn missing_export_is_its_own_error() {
    assert_eq!(require_export("draw", Some(5)), Ok(5));
    assert_eq!(require_export::<u8>("draw", None), Err(ScriptError::MissingExport("draw".to_string())));
    assert_ne!(
        require_export::<u8>("init", None),
        Err(ScriptError::Argument(ArgumentError::UnexpectedCount(0)))
    );
}
