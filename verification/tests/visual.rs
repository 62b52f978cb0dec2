use dictatord::visual::{status_label, top_right_position, Flow, Overlay, VisualCommand};

#[test]
fn status_lines() {
    assert_eq!(status_label(""), "Listening\u{2026}");
    assert_eq!(status_label("Processing\u{2026}"), "Processing\u{2026}");
    assert_eq!(status_label("short"), "short");
    assert_eq!(status_label("exactly twenty-two ch!"), "exactly twenty-two ch!");
    assert_eq!(status_label("exactly twenty-three ch"), "exactly twenty-thre...");
    // 18 ASCII bytes then a 1-byte char at 19: cut after byte 19
    let s = "abcdefghijklmnopqrs\u{e9}tuvwxyz";
    assert_eq!(status_label(s), format!("{}...", &s[..19]));
}

#[test]
fn positions() {
    assert_eq!(top_right_position(0, 0, 1920), (1704, 16));
    assert_eq!(top_right_position(1920, 100, 1280), (2984, 116));
}

#[test]
fn overlay_commands() {
    let mut o = Overlay::new();
    assert!(!o.visible);
    assert_eq!(o.handle(VisualCommand::Show), Flow::Continue);
    assert!(o.visible);
    assert_eq!(o.handle(VisualCommand::SetPreviewText("Processing\u{2026}".to_string())), Flow::Continue);
    assert_eq!(o.preview, "Processing\u{2026}");
    assert!(o.visible);
    assert_eq!(o.handle(VisualCommand::Hide), Flow::Continue);
    assert!(!o.visible);
    assert_eq!(o.preview, "");
    assert_eq!(o.handle(VisualCommand::Shutdown), Flow::Quit);
}
