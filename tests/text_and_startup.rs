use pulse_shell::startup::{
    extend_search_path, search_path_contains, resolve_default_ui_url, resolve_flag_from_args, resolve_update_url, trusted_ui_origin_prefix,
    ui_url, unix_time_ms,
};
use pulse_shell::text::{
    is_trusted_ui_url, non_empty, parse_bool_arg, parse_i32, parse_i32_arg, str_lt,
    trim_trailing_slashes,
};

fn strings(args: &[&str]) -> Vec<String> {
    args.iter().map(|s| s.to_string()).collect()
}

#[test]
fn parse_i32_follows_std() {
    for s in ["0", "42", "+7", "-7", "-2147483648", "2147483647", "007", "", "-", "+", " 1", "1 ",
        "2147483648", "-2147483649", "99999999999999999999", "1e3", "--1", "12a"] {
        assert_eq!(parse_i32(s), s.parse::<i32>().ok(), "input {s:?}");
    }
}

#[test]
fn integer_argument_is_trimmed() {
    assert_eq!(parse_i32_arg("  -15\t"), Some(-15));
    assert_eq!(parse_i32_arg("  "), None);
}

#[test]
fn bool_argument() {
    assert_eq!(parse_bool_arg("tRuE"), Some(true));
    assert_eq!(parse_bool_arg(" 0 "), Some(false));
    assert_eq!(parse_bool_arg("no"), None);
    assert_eq!(parse_bool_arg(""), None);
}

#[test]
fn non_empty_trims() {
    assert_eq!(non_empty("  https://u.test \n").as_deref(), Some("https://u.test"));
    assert_eq!(non_empty(" \t "), None);
}

#[test]
fn trailing_slashes_removed() {
    assert_eq!(trim_trailing_slashes("http://h:1///"), "http://h:1");
    assert_eq!(trim_trailing_slashes("///"), "");
    assert_eq!(trim_trailing_slashes("a/b"), "a/b");
    assert_eq!(trusted_ui_origin_prefix("http://localhost:5173/"), "http://localhost:5173");
}

#[test]
fn trusted_url_matching() {
    let origin = "http://localhost:5173/";
    assert!(is_trusted_ui_url("http://localhost:5173", origin));
    assert!(is_trusted_ui_url("http://localhost:5173/", origin));
    assert!(is_trusted_ui_url("http://localhost:5173/index.html", origin));
    assert!(!is_trusted_ui_url("http://localhost:51730/", origin));
    assert!(!is_trusted_ui_url("http://evil.test/http://localhost:5173/", origin));
}

#[test]
fn lexicographic_order() {
    assert!(str_lt("a", "b"));
    assert!(str_lt("ab", "abc"));
    assert!(!str_lt("abc", "abc"));
    assert!(!str_lt("b", "a"));
    assert!(str_lt("Z", "a"));
}

#[test]
fn flag_lookup() {
    let args = strings(&["shell", "--ui-url", "http://a", "--pulse-ui-url=http://b"]);
    assert_eq!(resolve_flag_from_args(&args, "--pulse-ui-url").as_deref(), Some("http://b"));
    assert_eq!(resolve_flag_from_args(&args, "--ui-url").as_deref(), Some("http://a"));
    assert_eq!(resolve_flag_from_args(&args, "--type"), None);
    let args = strings(&["shell", "--ui-url=  ", "--ui-url", " ", "--ui-url", "http://c"]);
    assert_eq!(resolve_flag_from_args(&args, "--ui-url").as_deref(), Some("http://c"));
    let args = strings(&["shell", "--ui-url"]);
    assert_eq!(resolve_flag_from_args(&args, "--ui-url"), None);
}

#[test]
fn ui_url_choice() {
    assert_eq!(ui_url(Some("http://x".to_string())), "http://x");
    assert_eq!(ui_url(Some("   ".to_string())), "http://localhost:5173");
    assert_eq!(ui_url(None), "http://localhost:5173");
    assert_eq!(resolve_default_ui_url(true, Some("file:///ui/index.html".to_string())), "http://localhost:5173");
    assert_eq!(resolve_default_ui_url(false, Some("file:///ui/index.html".to_string())), "file:///ui/index.html");
    assert_eq!(resolve_default_ui_url(false, None), "http://localhost:5173");
}

#[test]
fn update_url_choice() {
    assert_eq!(
        resolve_update_url(Some(" https://e ".to_string()), Some("https://b".to_string())).as_deref(),
        Some("https://e")
    );
    assert_eq!(
        resolve_update_url(Some("  ".to_string()), Some(" https://b".to_string())).as_deref(),
        Some("https://b")
    );
    assert_eq!(resolve_update_url(None, None), None);
}

#[test]
fn epoch_millis() {
    assert_eq!(unix_time_ms(Some(1_700_000_000_000)), 1_700_000_000_000);
    assert_eq!(unix_time_ms(None), 0);
    assert_eq!(unix_time_ms(Some(u64::MAX as u128 + 2)), 1);
}

#[test]
fn search_path_extension() {
    assert_eq!(extend_search_path("C:\\a;C:\\b", "C:\\cef").as_deref(), Some("C:\\a;C:\\b;C:\\cef"));
    assert_eq!(extend_search_path("C:\\a;c:\\CEF;C:\\b", "C:\\cef"), None);
    assert_eq!(extend_search_path("C:\\a", ""), None);
    assert_eq!(extend_search_path("", "x").as_deref(), Some(";x"));
    assert!(search_path_contains("x;;y", ""));
    assert!(!search_path_contains("C:\\cefx", "C:\\cef"));
    assert!(search_path_contains("C:\\cef", "c:\\cef"));
}
