use pulse_shell::geometry::{ContentBounds, Rect};
use pulse_shell::shell::{ShellState, SurfaceNavigation, SurfaceRequest};

fn add(state: &mut ShellState, id: &str, url: &str, surface: i32) -> bool {
    match state.ensure_tab(id, url) {
        Some(req) => {
            state.register_content_tab(req.tab_id, surface);
            true
        }
        None => false,
    }
}

fn tab_ids(state: &ShellState) -> Vec<String> {
    let mut ids: Vec<String> = state.content_tabs.iter().map(|t| t.tab_id.clone()).collect();
    ids.sort();
    ids
}

#[test]
fn close_active_tab_moves_to_remaining() {
    let mut s = ShellState::new();
    assert!(add(&mut s, "t1", "about:blank", 11));
    assert!(add(&mut s, "t2", "https://example.com", 12));
    assert_eq!(s.active_tab_id.as_deref(), Some("t1"));
    assert_eq!(s.close_tab("t1"), Some(11));
    assert_eq!(s.active_tab_id.as_deref(), Some("t2"));
    assert_eq!(tab_ids(&s), vec!["t2".to_string()]);
}

#[test]
fn ensure_twice_creates_one_surface() {
    let mut s = ShellState::new();
    let mut creations = 0;
    for surface in [1, 2] {
        if add(&mut s, "tab", "https://example.com", surface) {
            creations += 1;
        }
    }
    assert_eq!(creations, 1);
    assert_eq!(s.content_tabs.len(), 1);
    assert_eq!(s.browser_for_tab("tab"), Some(1));
}

#[test]
fn ensure_trims_id_and_normalizes_url() {
    let s = ShellState::new();
    assert_eq!(
        s.ensure_tab("  a  ", "   "),
        Some(SurfaceRequest { tab_id: "a".to_string(), url: "about:blank".to_string() })
    );
    assert_eq!(
        s.ensure_tab("b", " https://x.test "),
        Some(SurfaceRequest { tab_id: "b".to_string(), url: "https://x.test".to_string() })
    );
    assert_eq!(s.ensure_tab("   ", "https://x.test"), None);
}

#[test]
fn ensure_sees_trimmed_existing_id() {
    let mut s = ShellState::new();
    assert!(add(&mut s, "a", "", 5));
    assert_eq!(s.ensure_tab(" a ", "https://y.test"), None);
}

#[test]
fn active_tab_always_names_a_tab() {
    let mut s = ShellState::new();
    let check = |s: &ShellState| match &s.active_tab_id {
        Some(id) => assert!(s.has_tab(id)),
        None => {}
    };
    add(&mut s, "c", "", 3);
    check(&s);
    add(&mut s, "a", "", 1);
    check(&s);
    s.activate_tab("missing");
    check(&s);
    assert_eq!(s.active_tab_id.as_deref(), Some("c"));
    s.activate_tab("a");
    assert_eq!(s.active_tab_id.as_deref(), Some("a"));
    s.close_tab("a");
    check(&s);
    assert_eq!(s.active_tab_id.as_deref(), Some("c"));
    s.close_tab("c");
    check(&s);
    assert_eq!(s.active_tab_id, None);
    assert_eq!(s.close_tab("c"), None);
}

#[test]
fn closing_picks_lexicographically_first() {
    let mut s = ShellState::new();
    add(&mut s, "m", "", 1);
    add(&mut s, "z", "", 2);
    add(&mut s, "b", "", 3);
    add(&mut s, "k", "", 4);
    assert_eq!(s.first_tab_id().as_deref(), Some("b"));
    s.close_tab("m");
    assert_eq!(s.active_tab_id.as_deref(), Some("b"));
}

#[test]
fn closing_inactive_tab_keeps_active() {
    let mut s = ShellState::new();
    add(&mut s, "a", "", 1);
    add(&mut s, "b", "", 2);
    assert_eq!(s.close_tab("b"), Some(2));
    assert_eq!(s.active_tab_id.as_deref(), Some("a"));
}

#[test]
fn layout_shows_only_active_tab() {
    let mut s = ShellState::new();
    add(&mut s, "a", "", 1);
    add(&mut s, "b", "", 2);
    add(&mut s, "c", "", 3);
    s.activate_tab("b");
    let layout = s.layout();
    let visible: Vec<&str> =
        layout.tabs.iter().filter(|t| t.visible).map(|t| t.tab_id.as_str()).collect();
    assert_eq!(visible, vec!["b"]);
    for t in &layout.tabs {
        assert_eq!(t.bounds, Rect { x: 345, y: 104, width: 1071, height: 772 });
    }
    s.set_content_visible(false);
    assert!(s.layout().tabs.iter().all(|t| !t.visible));
}

#[test]
fn layout_places_chrome_over_window() {
    let mut s = ShellState::new();
    assert_eq!(s.layout().chrome_bounds, None);
    s.set_ui_view(true);
    s.set_window_bounds(Rect { x: 5, y: 6, width: 800, height: 600 });
    assert_eq!(s.layout().chrome_bounds, Some(Rect { x: 5, y: 6, width: 800, height: 600 }));
}

#[test]
fn layout_uses_requested_bounds_clamped() {
    let mut s = ShellState::new();
    add(&mut s, "a", "", 1);
    s.set_window_bounds(Rect { x: 0, y: 0, width: 800, height: 600 });
    s.set_content_bounds(ContentBounds { x: 700, y: 10, width: 500, height: 100 });
    let layout = s.layout();
    assert_eq!(layout.tabs[0].bounds, Rect { x: 700, y: 10, width: 100, height: 100 });
    assert!(layout.tabs[0].visible);
}

#[test]
fn navigate_shows_content_and_targets_surface() {
    let mut s = ShellState::new();
    add(&mut s, "a", "", 7);
    s.set_content_visible(false);
    let nav = s.navigate_tab("a", "https://n.test");
    assert_eq!(nav, Some(SurfaceNavigation { surface_id: 7, url: "https://n.test".to_string() }));
    assert!(s.content_visible);
    s.set_content_visible(false);
    assert_eq!(s.navigate_tab("zz", "https://n.test"), None);
    assert!(s.content_visible);
}

#[test]
fn navigate_active_tab_without_tabs_still_shows_content() {
    let mut s = ShellState::new();
    s.set_content_visible(false);
    assert_eq!(s.navigate_active_tab("https://n.test"), None);
    assert!(s.content_visible);
    add(&mut s, "a", "", 4);
    assert_eq!(
        s.navigate_active_tab("https://m.test"),
        Some(SurfaceNavigation { surface_id: 4, url: "https://m.test".to_string() })
    );
}

#[test]
fn surface_lookup_both_ways() {
    let mut s = ShellState::new();
    add(&mut s, "a", "", 40);
    add(&mut s, "b", "", 41);
    assert_eq!(s.tab_id_for_browser_id(41).as_deref(), Some("b"));
    assert_eq!(s.tab_id_for_browser_id(99), None);
    assert_eq!(s.browser_back("a"), Some(40));
    assert_eq!(s.browser_forward("b"), Some(41));
    assert_eq!(s.browser_reload("b"), Some(41));
    assert_eq!(s.browser_stop("x"), None);
}

#[test]
fn remove_by_surface_matches_close() {
    let mut by_surface = ShellState::new();
    let mut by_id = ShellState::new();
    for s in [&mut by_surface, &mut by_id] {
        add(s, "a", "", 1);
        add(s, "b", "", 2);
    }
    by_surface.remove_content_tab_by_browser_id(1);
    by_id.close_tab("a");
    assert_eq!(tab_ids(&by_surface), tab_ids(&by_id));
    assert_eq!(by_surface.active_tab_id, by_id.active_tab_id);
    assert_eq!(by_surface.active_tab_id.as_deref(), Some("b"));
    by_surface.remove_content_tab_by_browser_id(1);
    assert_eq!(tab_ids(&by_surface), vec!["b".to_string()]);
}

#[test]
fn clear_empties_everything() {
    let mut s = ShellState::new();
    add(&mut s, "a", "", 1);
    add(&mut s, "b", "", 2);
    s.set_window(true);
    s.clear_content_tabs();
    assert!(s.content_tabs.is_empty());
    assert_eq!(s.active_tab_id, None);
    assert!(s.layout().tabs.is_empty());
}

#[test]
fn register_existing_id_replaces_surface() {
    let mut s = ShellState::new();
    s.register_content_tab("a".to_string(), 1);
    s.register_content_tab("a".to_string(), 2);
    assert_eq!(s.content_tabs.len(), 1);
    assert_eq!(s.browser_for_tab("a"), Some(2));
}

#[test]
fn default_state() {
    let s = ShellState::default();
    assert_eq!(s.window_bounds, Rect { x: 0, y: 0, width: 1440, height: 900 });
    assert!(s.content_visible);
    assert!(!s.has_window);
    assert_eq!(s.ui_browser_id, None);
    let mut s = s;
    s.set_ui_browser_id(Some(3));
    assert_eq!(s.ui_browser_id, Some(3));
}
