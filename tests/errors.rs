use astmatch::error::{render_error, ErrorContext, ErrorMessage, CONFIG_GUIDE, PLAYGROUND};

fn causes_of(error: &anyhow::Error) -> Vec<String> {
    error.chain().skip(1).map(|e| e.to_string()).collect()
}

#[test]
fn test_display_error() {
    let error = anyhow::Error::msg("test error").context(ErrorContext::ReadConfiguration.title());
    let display = render_error(&ErrorContext::ReadConfiguration, &causes_of(&error));
    assert_eq!(display.lines().count(), 6);
    assert!(display.contains("Cannot read configuration."));
    assert!(
        display.contains("Caused by"),
        "Should display the error chain"
    );
    assert!(display.contains("test error"));
}

#[test]
fn test_bare_anyhow() {
    let error = anyhow::Error::msg(ErrorContext::ReadConfiguration.title());
    let display = render_error(&ErrorContext::ReadConfiguration, &causes_of(&error));
    assert_eq!(display.lines().count(), 3);
    assert!(display.contains("Cannot read configuration."));
    assert!(
        !display.contains("Caused by"),
        "Should not contain error chain"
    );
}

#[test]
fn exit_codes() {
    assert_eq!(ErrorContext::ReadConfiguration.exit_code(), 2);
    assert_eq!(ErrorContext::ReadRule("r.yml".to_string()).exit_code(), 2);
    assert_eq!(ErrorContext::WalkRuleDir("rules".to_string()).exit_code(), 2);
    assert_eq!(ErrorContext::TestFail("bad".to_string()).exit_code(), 3);
    assert_eq!(ErrorContext::ParseTest("t.yml".to_string()).exit_code(), 5);
    assert_eq!(ErrorContext::ParseRule("r.yml".to_string()).exit_code(), 5);
    assert_eq!(ErrorContext::ParseConfiguration.exit_code(), 5);
    assert_eq!(ErrorContext::OpenEditor.exit_code(), 126);
    assert_eq!(ErrorContext::DiagnosticError(4).exit_code(), 1);
    assert_eq!(ErrorContext::ParsePattern.exit_code(), 1);
}

#[test]
fn messages_from_context() {
    let m = ErrorMessage::from_context(&ErrorContext::DiagnosticError(12));
    assert_eq!(m.title, "12 error(s) found in code.");
    assert_eq!(m.link, None);
    let m = ErrorMessage::from_context(&ErrorContext::DiagnosticError(0));
    assert_eq!(m.title, "0 error(s) found in code.");
    let m = ErrorMessage::from_context(&ErrorContext::ReadRule("rules/a.yml".to_string()));
    assert_eq!(m.title, "Cannot read rule rules/a.yml");
    assert_eq!(m.link, Some(CONFIG_GUIDE));
    let m = ErrorMessage::from_context(&ErrorContext::TestFail("case failed".to_string()));
    assert_eq!(m.title, "case failed");
    assert_eq!(m.link, Some(PLAYGROUND));
    let m = ErrorMessage::from_context(&ErrorContext::WriteFile("a.ts".to_string()));
    assert_eq!(m.title, "Cannot rewrite file a.ts");
    assert_eq!(m.description, "Fail to apply fix to the file. Skip to next file");
}

#[test]
fn rendering_paints_and_lists_causes() {
    let causes = vec!["first".to_string(), "second".to_string()];
    let display = render_error(&ErrorContext::WalkRuleDir("rules".to_string()), &causes);
    // no link for this context: title, help, blank, header, two causes
    assert_eq!(display.lines().count(), 6);
    assert!(display.contains("\u{1b}[31mError:\u{1b}[0m"));
    assert!(display.contains("Cannot read rule directory rules"));
    assert!(display.find("first").unwrap() < display.find("second").unwrap());
    assert!(!display.contains("See also"));
}
