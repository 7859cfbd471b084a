use x4_variants::pattern::{Pattern, PatternError};

#[test]
fn invalid_patterns_are_refused() {
    assert!(matches!(Pattern::new("foo(bar"), Err(PatternError::Invalid)));
    assert!(Pattern::new("<price.* />").is_ok());
    assert!(Pattern::new("\\d+").is_ok());
}
