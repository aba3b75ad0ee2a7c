use libra::prompt::{parse_context_mode, ContextMode};

#[test]
fn test_embedded_content_nonempty() {
    assert!(!ContextMode::Dev.embedded_content().is_empty());
    assert!(!ContextMode::Review.embedded_content().is_empty());
    assert!(!ContextMode::Research.embedded_content().is_empty());
}

#[test]
fn test_custom_context() {
    let ctx = ContextMode::Custom("My custom context".to_string());
    assert_eq!(ctx.embedded_content(), "My custom context");
    assert!(ctx.filename().is_none());
}

#[test]
fn test_display() {
    assert_eq!(ContextMode::Dev.display_name(), "dev");
    assert_eq!(ContextMode::Review.display_name(), "review");
    assert_eq!(ContextMode::Research.display_name(), "research");
    assert_eq!(ContextMode::Custom("x".into()).display_name(), "custom");
}

#[test]
fn test_from_str() {
    assert_eq!("dev".parse::<ContextMode>().unwrap(), ContextMode::Dev);
    assert_eq!("review".parse::<ContextMode>().unwrap(), ContextMode::Review);
    assert_eq!("research".parse::<ContextMode>().unwrap(), ContextMode::Research);
    assert_eq!("development".parse::<ContextMode>().unwrap(), ContextMode::Dev);
    assert_eq!("code-review".parse::<ContextMode>().unwrap(), ContextMode::Review);
    assert_eq!("explore".parse::<ContextMode>().unwrap(), ContextMode::Research);
    assert!("unknown".parse::<ContextMode>().is_err());
}

#[test]
fn context_names_are_case_insensitive() {
    assert_eq!(parse_context_mode("DEV").unwrap(), ContextMode::Dev);
    assert_eq!(parse_context_mode("Review").unwrap(), ContextMode::Review);
}
