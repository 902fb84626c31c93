use editor_core::error::ParsingError;

#[test]
fn constructors_keep_their_argument() {
    assert_eq!(
        ParsingError::missing_entry("Credits"),
        ParsingError::MissingEntry("Credits".to_string())
    );
    assert_eq!(
        ParsingError::failed_cast("IntProperty"),
        ParsingError::FailedCastError("IntProperty".to_string())
    );
    assert_ne!(ParsingError::missing_entry("x"), ParsingError::failed_cast("x"));
}

#[test]
fn messages_name_the_entry_or_the_kind() {
    assert_eq!(ParsingError::missing_entry("Credits").message(), "Entry Credits is missing");
    assert_eq!(
        ParsingError::failed_cast("MapProperty").message(),
        "Failed to cast property to MapProperty"
    );
    assert_eq!(ParsingError::missing_entry("").message(), "Entry  is missing");
}
