use capture_canvas::{
    first_capture_target, is_capture_target, matches_capture_rule, route_stream_event, BitmapFormat,
    FrameAction,
    StreamEventKind, WindowInfo,
};

fn window(title: &str, app: &str) -> WindowInfo {
    WindowInfo { title: title.to_string(), app_identifier: app.to_string() }
}

#[test]
fn chrome_window_with_title_is_target() {
    assert!(is_capture_target("Inbox", "com.google.chrome"));
}

#[test]
fn identifier_is_lowercased_before_matching() {
    assert!(is_capture_target("Inbox", "com.google.Chrome"));
    assert!(is_capture_target("Inbox", "GOOGLE CHROME"));
}

#[test]
fn untitled_window_is_not_target() {
    assert!(!is_capture_target("", "com.google.chrome"));
}

#[test]
fn other_application_is_not_target() {
    assert!(!is_capture_target("Inbox", "org.mozilla.firefox"));
    assert!(!is_capture_target("chrome", "chrom"));
    assert!(!is_capture_target("Inbox", ""));
}

#[test]
fn first_target_window_is_picked() {
    let ws = vec![
        window("", "com.google.Chrome"),
        window("Terminal", "com.apple.Terminal"),
        window("Docs", "com.google.Chrome"),
        window("Mail", "com.google.Chrome.app"),
    ];
    assert_eq!(first_capture_target(&ws), Some(2));
}

#[test]
fn no_target_window() {
    let ws = vec![window("Terminal", "com.apple.Terminal"), window("", "chrome")];
    assert_eq!(first_capture_target(&ws), None);
    assert_eq!(first_capture_target(&Vec::new()), None);
}

#[test]
fn bgra_frames_are_displayed() {
    let ev = StreamEventKind::Video { bitmap: Some(BitmapFormat::BgraUnorm8x4) };
    assert_eq!(route_stream_event(ev), FrameAction::Display);
}

#[test]
fn other_formats_are_reported() {
    for f in [BitmapFormat::ArgbUnormPacked2101010, BitmapFormat::RgbaF16x4, BitmapFormat::YCbCr] {
        let ev = StreamEventKind::Video { bitmap: Some(f) };
        assert_eq!(route_stream_event(ev), FrameAction::ReportFormat(f));
    }
}

#[test]
fn errors_are_reported_and_other_events_ignored() {
    assert_eq!(
        route_stream_event(StreamEventKind::Video { bitmap: None }),
        FrameAction::ReportBitmapError
    );
    assert_eq!(route_stream_event(StreamEventKind::Failed), FrameAction::ReportStreamError);
    assert_eq!(route_stream_event(StreamEventKind::Other), FrameAction::Ignore);
}

#[test]
fn format_names() {
    assert_eq!(BitmapFormat::BgraUnorm8x4.name(), "BgraUnorm8x4");
    assert_eq!(BitmapFormat::ArgbUnormPacked2101010.name(), "ArgbUnormPacked2101010");
    assert_eq!(BitmapFormat::RgbaF16x4.name(), "RgbaF16x4");
    assert_eq!(BitmapFormat::YCbCr.name(), "YCbCr");
}

#[test]
fn rule_on_lowercased_identifier() {
    assert!(matches_capture_rule("Docs", "com.google.chrome"));
    assert!(matches_capture_rule("Docs", "chrome"));
    assert!(!matches_capture_rule("Docs", "com.google.Chrome"));
    assert!(!matches_capture_rule("", "chrome"));
    assert!(!matches_capture_rule("Docs", "chrom"));
}
