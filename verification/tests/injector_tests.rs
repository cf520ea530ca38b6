use fluxvoice::injector::{copy_to_clipboard, InjectStep, TextInjector};

#[test]
fn inject_text_produces_the_paste_plan() {
    let mut injector = TextInjector::new();
    let steps = injector.inject_text("hello");
    assert_eq!(
        steps,
        vec![
            InjectStep::Delay(100),
            InjectStep::SetClipboard("hello".to_string()),
            InjectStep::PressControl,
            InjectStep::Delay(50),
            InjectStep::ClickV,
            InjectStep::Delay(50),
            InjectStep::ReleaseControl,
        ]
    );
}

#[test]
fn requests_are_applied_in_submission_order_without_interleaving() {
    let mut injector = TextInjector::new();
    let first = injector.inject_text("first");
    let second = injector.inject_text("second");
    assert_eq!(first.len(), 7);
    assert_eq!(second.len(), 7);
    assert!(matches!(&first[1], InjectStep::SetClipboard(t) if t == "first"));
    assert!(matches!(&second[1], InjectStep::SetClipboard(t) if t == "second"));
}

#[test]
fn clipboard_is_unsupported_on_this_platform() {
    let r = copy_to_clipboard("text");
    assert_eq!(
        r.unwrap_err(),
        "Clipboard operation not supported on this platform"
    );
}
