use pulse_shell::command::{parse_host_command, tab_runtime_update, HostCommand};
use pulse_shell::json::JsonValue;
use pulse_shell::geometry::ContentBounds;

fn parse(args: &[&str]) -> Option<HostCommand> {
    let args: Vec<String> = args.iter().map(|s| s.to_string()).collect();
    parse_host_command(&args)
}

#[test]
fn ensure_tab_with_and_without_url() {
    assert_eq!(
        parse(&["ensure-tab", "t1", "https://example.com"]),
        Some(HostCommand::EnsureTab {
            tab_id: "t1".to_string(),
            initial_url: "https://example.com".to_string()
        })
    );
    assert_eq!(
        parse(&["ensure-tab", "t1"]),
        Some(HostCommand::EnsureTab {
            tab_id: "t1".to_string(),
            initial_url: "about:blank".to_string()
        })
    );
    assert_eq!(parse(&["ensure-tab"]), None);
}

#[test]
fn tab_addressed_commands() {
    let t = || "t".to_string();
    assert_eq!(parse(&["activate-tab", "t"]), Some(HostCommand::ActivateTab { tab_id: t() }));
    assert_eq!(parse(&["close-tab", "t"]), Some(HostCommand::CloseTab { tab_id: t() }));
    assert_eq!(parse(&["browser-back", "t"]), Some(HostCommand::BrowserBack { tab_id: t() }));
    assert_eq!(parse(&["browser-forward", "t"]), Some(HostCommand::BrowserForward { tab_id: t() }));
    assert_eq!(parse(&["browser-reload", "t"]), Some(HostCommand::BrowserReload { tab_id: t() }));
    assert_eq!(parse(&["browser-stop", "t"]), Some(HostCommand::BrowserStop { tab_id: t() }));
    assert_eq!(parse(&["close-tab"]), None);
}

#[test]
fn navigation_commands_trim_and_need_url() {
    assert_eq!(
        parse(&["navigate-tab", "t", "  https://a.test  "]),
        Some(HostCommand::NavigateTab { tab_id: "t".to_string(), url: "https://a.test".to_string() })
    );
    assert_eq!(parse(&["navigate-tab", "t", "   "]), None);
    assert_eq!(parse(&["navigate-tab", "t"]), None);
    assert_eq!(
        parse(&["navigate", " https://b.test"]),
        Some(HostCommand::Navigate { url: "https://b.test".to_string() })
    );
    assert_eq!(parse(&["navigate", ""]), None);
}

#[test]
fn content_bounds_command() {
    assert_eq!(
        parse(&["set-content-bounds", "10", " -20 ", "0", "+300"]),
        Some(HostCommand::SetContentBounds {
            bounds: ContentBounds { x: 10, y: -20, width: 1, height: 300 }
        })
    );
    assert_eq!(parse(&["set-content-bounds", "10", "20", "30"]), None);
    assert_eq!(parse(&["set-content-bounds", "10", "20", "x", "40"]), None);
    assert_eq!(parse(&["set-content-bounds", "1.5", "20", "30", "40"]), None);
    assert_eq!(parse(&["set-content-bounds", "2147483648", "0", "1", "1"]), None);
}

#[test]
fn content_visible_command() {
    assert_eq!(parse(&["set-content-visible", " TRUE "]), Some(HostCommand::SetContentVisible { visible: true }));
    assert_eq!(parse(&["set-content-visible", "1"]), Some(HostCommand::SetContentVisible { visible: true }));
    assert_eq!(parse(&["set-content-visible", "False"]), Some(HostCommand::SetContentVisible { visible: false }));
    assert_eq!(parse(&["set-content-visible", "0"]), Some(HostCommand::SetContentVisible { visible: false }));
    assert_eq!(parse(&["set-content-visible", "yes"]), None);
    assert_eq!(parse(&["set-content-visible"]), None);
}

#[test]
fn unknown_or_empty_commands() {
    assert_eq!(parse(&[]), None);
    assert_eq!(parse(&["launch-rockets", "now"]), None);
    assert_eq!(parse(&["Activate-Tab", "t"]), None);
}

#[test]
fn runtime_update_detail() {
    let detail = tab_runtime_update("t1", Some("https://a.test".to_string()), Some(String::new()));
    assert_eq!(
        detail,
        JsonValue::Object(vec![
            ("tabId".to_string(), JsonValue::Str("t1".to_string())),
            ("url".to_string(), JsonValue::Str("https://a.test".to_string())),
            ("title".to_string(), JsonValue::Null),
        ])
    );
    let detail = tab_runtime_update("t2", None, Some("Title".to_string()));
    assert_eq!(
        detail,
        JsonValue::Object(vec![
            ("tabId".to_string(), JsonValue::Str("t2".to_string())),
            ("url".to_string(), JsonValue::Null),
            ("title".to_string(), JsonValue::Str("Title".to_string())),
        ])
    );
}
