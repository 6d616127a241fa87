use vstd::prelude::*;

use crate::geometry::{effective_content_bounds, effective_rect, ContentBounds, Rect};
use crate::text::{
    chars_lt, lemma_chars_lt_irreflexive, lemma_chars_lt_transitive, str_lt, trim_str, trimmed,
};

verus! {

/// Window width assumed until the window reports its bounds.
pub const DEFAULT_WINDOW_WIDTH: i32 = 1440;

/// Window height assumed until the window reports its bounds.
pub const DEFAULT_WINDOW_HEIGHT: i32 = 900;

/// A content tab: its id and the engine's identifier of its surface.
#[derive(Debug)]
pub struct TabSession {
    pub tab_id: String,
    pub surface_id: i32,
}

/// No two tabs share an id.
pub open spec fn ids_unique(tabs: Seq<TabSession>) -> bool {
    forall|i: int, j: int|
        0 <= i < j < tabs.len() ==> #[trigger] tabs[i].tab_id@ != #[trigger] tabs[j].tab_id@
}

/// The tabs as a map from id to surface identifier.
pub open spec fn tab_map_of(tabs: Seq<TabSession>) -> Map<Seq<char>, i32>
    decreases tabs.len(),
{
    if tabs.len() == 0 {
        Map::empty()
    } else {
        tab_map_of(tabs.drop_last()).insert(tabs.last().tab_id@, tabs.last().surface_id)
    }
}

proof fn lemma_tab_map_keys(tabs: Seq<TabSession>)
    ensures
        forall|k: Seq<char>|
            #[trigger] tab_map_of(tabs).contains_key(k) <==> exists|i: int|
                0 <= i < tabs.len() && tabs[i].tab_id@ == k,
    decreases tabs.len(),
{
    if tabs.len() > 0 {
        let init = tabs.drop_last();
        lemma_tab_map_keys(init);
        assert(tab_map_of(tabs) == tab_map_of(init).insert(tabs.last().tab_id@, tabs.last().surface_id));
        assert forall|k: Seq<char>|
            #[trigger] tab_map_of(tabs).contains_key(k) <==> exists|i: int|
                0 <= i < tabs.len() && tabs[i].tab_id@ == k by {
            if tab_map_of(tabs).contains_key(k) {
                if k == tabs.last().tab_id@ {
                    assert(tabs[tabs.len() - 1].tab_id@ == k);
                } else {
                    assert(tab_map_of(init).contains_key(k));
                    let i = choose|i: int| 0 <= i < init.len() && init[i].tab_id@ == k;
                    assert(tabs[i] == init[i]);
                }
            }
            if exists|i: int| 0 <= i < tabs.len() && tabs[i].tab_id@ == k {
                let i = choose|i: int| 0 <= i < tabs.len() && tabs[i].tab_id@ == k;
                if i < tabs.len() - 1 {
                    assert(init[i] == tabs[i]);
                    assert(tab_map_of(init).contains_key(k));
                }
            }
        }
    }
}

proof fn lemma_tab_map_value(tabs: Seq<TabSession>, i: int)
    requires
        ids_unique(tabs),
        0 <= i < tabs.len(),
    ensures
        tab_map_of(tabs).contains_key(tabs[i].tab_id@),
        tab_map_of(tabs)[tabs[i].tab_id@] == tabs[i].surface_id,
    decreases tabs.len(),
{
    let init = tabs.drop_last();
    if i < tabs.len() - 1 {
        assert(init[i] == tabs[i]);
        assert(ids_unique(init)) by {
            assert forall|a: int, b: int| 0 <= a < b < init.len() implies #[trigger] init[a].tab_id@
                != #[trigger] init[b].tab_id@ by {
                assert(init[a] == tabs[a] && init[b] == tabs[b]);
            }
        }
        lemma_tab_map_value(init, i);
        assert(tabs[i].tab_id@ != tabs[tabs.len() - 1].tab_id@);
    }
}

proof fn lemma_tab_map_remove(tabs: Seq<TabSession>, i: int)
    requires
        ids_unique(tabs),
        0 <= i < tabs.len(),
    ensures
        ids_unique(tabs.remove(i)),
        tab_map_of(tabs.remove(i)) == tab_map_of(tabs).remove(tabs[i].tab_id@),
{
    let r = tabs.remove(i);
    let gone = tabs[i].tab_id@;
    assert forall|j: int| 0 <= j < r.len() implies #[trigger] r[j] == tabs[if j < i {
        j
    } else {
        j + 1
    }] by {}
    assert(ids_unique(r)) by {
        assert forall|a: int, b: int| 0 <= a < b < r.len() implies #[trigger] r[a].tab_id@
            != #[trigger] r[b].tab_id@ by {
            assert(r[a] == tabs[if a < i { a } else { a + 1 }]);
            assert(r[b] == tabs[if b < i { b } else { b + 1 }]);
        }
    }
    lemma_tab_map_keys(tabs);
    lemma_tab_map_keys(r);
    let m = tab_map_of(tabs).remove(gone);
    assert forall|k: Seq<char>| #[trigger] tab_map_of(r).contains_key(k) <==> m.contains_key(k) by {
        if tab_map_of(r).contains_key(k) {
            let j = choose|j: int| 0 <= j < r.len() && r[j].tab_id@ == k;
            let t = if j < i { j } else { j + 1 };
            assert(r[j] == tabs[t]);
            assert(k != gone);
        }
        if m.contains_key(k) {
            let t = choose|t: int| 0 <= t < tabs.len() && tabs[t].tab_id@ == k;
            assert(t != i);
            let j = if t < i { t } else { t - 1 };
            assert(r[j] == tabs[t]);
        }
    }
    assert forall|k: Seq<char>| #[trigger] tab_map_of(r).contains_key(k) implies tab_map_of(r)[k]
        == m[k] by {
        let j = choose|j: int| 0 <= j < r.len() && r[j].tab_id@ == k;
        let t = if j < i { j } else { j + 1 };
        assert(r[j] == tabs[t]);
        lemma_tab_map_value(r, j);
        lemma_tab_map_value(tabs, t);
    }
    assert(tab_map_of(r) =~= m);
}

proof fn lemma_tab_map_push(tabs: Seq<TabSession>, t: TabSession)
    requires
        ids_unique(tabs),
        !tab_map_of(tabs).contains_key(t.tab_id@),
    ensures
        ids_unique(tabs.push(t)),
        tab_map_of(tabs.push(t)) == tab_map_of(tabs).insert(t.tab_id@, t.surface_id),
{
    let p = tabs.push(t);
    assert(p.drop_last() =~= tabs);
    lemma_tab_map_keys(tabs);
    assert forall|a: int, b: int| 0 <= a < b < p.len() implies #[trigger] p[a].tab_id@
        != #[trigger] p[b].tab_id@ by {
        if b == tabs.len() {
            assert(p[a] == tabs[a]);
        } else {
            assert(p[a] == tabs[a] && p[b] == tabs[b]);
        }
    }
}

/// The view of an optional id.
pub open spec fn opt_view(o: Option<String>) -> Option<Seq<char>> {
    match o {
        Some(s) => Some(s@),
        None => None,
    }
}

/// `first` is the lexicographically smallest key of `m`, or `None` when `m`
/// is empty.
pub open spec fn is_first_key(m: Map<Seq<char>, i32>, first: Option<Seq<char>>) -> bool {
    match first {
        Some(k) => m.contains_key(k) && forall|k2: Seq<char>|
            #[trigger] m.contains_key(k2) ==> !chars_lt(k2, k),
        None => forall|k2: Seq<char>| !(#[trigger] m.contains_key(k2)),
    }
}

/// The URL a new tab opens: the trimmed request, or `about:blank` when that
/// is empty.
pub open spec fn initial_tab_url(url: Seq<char>) -> Seq<char> {
    if trimmed(url).len() == 0 {
        "about:blank"@
    } else {
        trimmed(url)
    }
}

/// The id a new tab would get from `ensure_tab(tab_id, ..)` on tabs `m`, or
/// `None` when the call creates nothing (blank id, or a tab already there).
pub open spec fn ensure_target(m: Map<Seq<char>, i32>, tab_id: Seq<char>) -> Option<Seq<char>> {
    if trimmed(tab_id).len() == 0 || m.contains_key(trimmed(tab_id)) {
        None
    } else {
        Some(trimmed(tab_id))
    }
}

/// A surface the engine should create for a new tab.
#[derive(Debug, PartialEq, Eq)]
pub struct SurfaceRequest {
    pub tab_id: String,
    pub url: String,
}

/// A load the engine should perform in a tab's surface.
#[derive(Debug, PartialEq, Eq)]
pub struct SurfaceNavigation {
    pub surface_id: i32,
    pub url: String,
}

/// Where one tab's surface goes: shown at `bounds`, or hidden.
#[derive(Debug, PartialEq, Eq)]
pub struct TabPlacement {
    pub tab_id: String,
    pub surface_id: i32,
    pub visible: bool,
    pub bounds: Rect,
}

/// Where every surface goes: the chrome surface fills the window when there
/// is one, and each tab is shown or hidden.
#[derive(Debug, PartialEq, Eq)]
pub struct Layout {
    pub chrome_bounds: Option<Rect>,
    pub tabs: Vec<TabPlacement>,
}

/// The coordinator's model of the window, the chrome surface and the tabs.
#[derive(Debug)]
pub struct ShellState {
    /// Engine identifier of the trusted chrome surface.
    pub ui_browser_id: Option<i32>,
    /// Whether the chrome surface's view is attached.
    pub has_ui_view: bool,
    /// Whether the host window exists.
    pub has_window: bool,
    /// The tabs, in the order they were registered.
    pub content_tabs: Vec<TabSession>,
    /// The tab shown in the content area, if any.
    pub active_tab_id: Option<String>,
    pub window_bounds: Rect,
    pub requested_content_bounds: Option<ContentBounds>,
    /// Whether the active tab is shown at all.
    pub content_visible: bool,
}

/// Everything but the tabs and the active tab is the same in `a` and `b`.
pub open spec fn same_frame(a: ShellState, b: ShellState) -> bool {
    &&& a.ui_browser_id == b.ui_browser_id
    &&& a.has_ui_view == b.has_ui_view
    &&& a.has_window == b.has_window
    &&& a.window_bounds == b.window_bounds
    &&& a.requested_content_bounds == b.requested_content_bounds
    &&& a.content_visible == b.content_visible
}

/// `new` is `old` with tab `k` closed: gone from the tabs, and, if it was
/// active, the first remaining tab made active.
pub open spec fn tab_closed(old: ShellState, new: ShellState, k: Seq<char>) -> bool {
    &&& new.tabs() == old.tabs().remove(k)
    &&& if old.active() == Some(k) {
        is_first_key(new.tabs(), new.active())
    } else {
        new.active() == old.active()
    }
    &&& same_frame(old, new)
}

impl ShellState {
    /// The tabs, from id to surface identifier.
    pub open spec fn tabs(&self) -> Map<Seq<char>, i32> {
        tab_map_of(self.content_tabs@)
    }

    /// The active tab's id.
    pub open spec fn active(&self) -> Option<Seq<char>> {
        opt_view(self.active_tab_id)
    }

    /// Tab ids are unique and the active tab, if any, is one of the tabs.
    pub open spec fn wf(&self) -> bool {
        &&& ids_unique(self.content_tabs@)
        &&& match self.active() {
            Some(k) => self.tabs().contains_key(k),
            None => true,
        }
    }

    /// A state with no window, no chrome surface and no tabs, the window
    /// assumed 1440 by 900 and content shown.
    pub fn new() -> (r: ShellState)
        ensures
            r.wf(),
            r.tabs() == Map::<Seq<char>, i32>::empty(),
            r.active() is None,
            r.ui_browser_id is None,
            !r.has_ui_view,
            !r.has_window,
            r.window_bounds == (Rect {
                x: 0,
                y: 0,
                width: DEFAULT_WINDOW_WIDTH,
                height: DEFAULT_WINDOW_HEIGHT,
            }),
            r.requested_content_bounds is None,
            r.content_visible,
    {
        ShellState {
            ui_browser_id: None,
            has_ui_view: false,
            has_window: false,
            content_tabs: Vec::new(),
            active_tab_id: None,
            window_bounds: Rect {
                x: 0,
                y: 0,
                width: DEFAULT_WINDOW_WIDTH,
                height: DEFAULT_WINDOW_HEIGHT,
            },
            requested_content_bounds: None,
            content_visible: true,
        }
    }

    /// Records the engine identifier of the chrome surface.
    pub fn set_ui_browser_id(&mut self, browser_id: Option<i32>)
        ensures
            *final(self) == (ShellState { ui_browser_id: browser_id, ..*old(self) }),
    {
        self.ui_browser_id = browser_id;
    }

    /// Records whether the chrome surface's view is attached.
    pub fn set_ui_view(&mut self, present: bool)
        ensures
            *final(self) == (ShellState { has_ui_view: present, ..*old(self) }),
    {
        self.has_ui_view = present;
    }

    /// Records whether the host window exists.
    pub fn set_window(&mut self, present: bool)
        ensures
            *final(self) == (ShellState { has_window: present, ..*old(self) }),
    {
        self.has_window = present;
    }

    /// Replaces the window bounds.
    pub fn set_window_bounds(&mut self, bounds: Rect)
        ensures
            *final(self) == (ShellState { window_bounds: bounds, ..*old(self) }),
    {
        self.window_bounds = bounds;
    }

    /// Replaces the rectangle requested for content.
    pub fn set_content_bounds(&mut self, bounds: ContentBounds)
        ensures
            *final(self) == (ShellState { requested_content_bounds: Some(bounds), ..*old(self) }),
    {
        self.requested_content_bounds = Some(bounds);
    }

    /// Shows or hides the content area.
    pub fn set_content_visible(&mut self, visible: bool)
        ensures
            *final(self) == (ShellState { content_visible: visible, ..*old(self) }),
    {
        self.content_visible = visible;
    }

    /// The index of the tab named `tab_id`.
    fn find_tab(&self, tab_id: &str) -> (r: Option<usize>)
        ensures
            match r {
                Some(i) => i < self.content_tabs@.len() && self.content_tabs@[i as int].tab_id@
                    == tab_id@,
                None => !self.tabs().contains_key(tab_id@),
            },
    {
        proof {
            lemma_tab_map_keys(self.content_tabs@);
        }
        let key = String::from_str(tab_id);
        let mut i: usize = 0;
        while i < self.content_tabs.len()
            invariant
                0 <= i <= self.content_tabs@.len(),
                key@ == tab_id@,
                forall|j: int| 0 <= j < i ==> self.content_tabs@[j].tab_id@ != tab_id@,
            decreases self.content_tabs@.len() - i,
        {
            if self.content_tabs[i].tab_id == key {
                return Some(i);
            }
            i = i + 1;
        }
        None
    }

    /// Whether a tab named `tab_id` exists.
    pub fn has_tab(&self, tab_id: &str) -> (r: bool)
        requires
            self.wf(),
        ensures
            r == self.tabs().contains_key(tab_id@),
    {
        proof {
            lemma_tab_map_keys(self.content_tabs@);
        }
        self.find_tab(tab_id).is_some()
    }

    /// The id of the tab whose surface has identifier `browser_id`.
    pub fn tab_id_for_browser_id(&self, browser_id: i32) -> (r: Option<String>)
        requires
            self.wf(),
        ensures
            match r {
                Some(k) => self.tabs().contains_key(k@) && self.tabs()[k@] == browser_id,
                None => forall|k: Seq<char>| #[trigger]
                    self.tabs().contains_key(k) ==> self.tabs()[k] != browser_id,
            },
    {
        proof {
            lemma_tab_map_keys(self.content_tabs@);
        }
        let mut i: usize = 0;
        while i < self.content_tabs.len()
            invariant
                0 <= i <= self.content_tabs@.len(),
                self.wf(),
                forall|j: int| 0 <= j < i ==> self.content_tabs@[j].surface_id != browser_id,
            decreases self.content_tabs@.len() - i,
        {
            if self.content_tabs[i].surface_id == browser_id {
                proof {
                    lemma_tab_map_value(self.content_tabs@, i as int);
                }
                return Some(self.content_tabs[i].tab_id.clone());
            }
            i = i + 1;
        }
        proof {
            assert forall|k: Seq<char>| #[trigger]
                self.tabs().contains_key(k) implies self.tabs()[k] != browser_id by {
                let j = choose|j: int|
                    0 <= j < self.content_tabs@.len() && self.content_tabs@[j].tab_id@ == k;
                lemma_tab_map_value(self.content_tabs@, j);
            }
        }
        None
    }

    /// The surface identifier of tab `tab_id`, if it exists.
    pub fn browser_for_tab(&self, tab_id: &str) -> (r: Option<i32>)
        requires
            self.wf(),
        ensures
            r == (if self.tabs().contains_key(tab_id@) {
                Some(self.tabs()[tab_id@])
            } else {
                None::<i32>
            }),
    {
        match self.find_tab(tab_id) {
            Some(i) => {
                proof {
                    lemma_tab_map_value(self.content_tabs@, i as int);
                }
                Some(self.content_tabs[i].surface_id)
            },
            None => None,
        }
    }

    /// The surface to send "back" to, for tab `tab_id`.
    pub fn browser_back(&self, tab_id: &str) -> (r: Option<i32>)
        requires
            self.wf(),
        ensures
            r == (if self.tabs().contains_key(tab_id@) {
                Some(self.tabs()[tab_id@])
            } else {
                None::<i32>
            }),
    {
        self.browser_for_tab(tab_id)
    }

    /// The surface to send "forward" to, for tab `tab_id`.
    pub fn browser_forward(&self, tab_id: &str) -> (r: Option<i32>)
        requires
            self.wf(),
        ensures
            r == (if self.tabs().contains_key(tab_id@) {
                Some(self.tabs()[tab_id@])
            } else {
                None::<i32>
            }),
    {
        self.browser_for_tab(tab_id)
    }

    /// The surface to reload, for tab `tab_id`.
    pub fn browser_reload(&self, tab_id: &str) -> (r: Option<i32>)
        requires
            self.wf(),
        ensures
            r == (if self.tabs().contains_key(tab_id@) {
                Some(self.tabs()[tab_id@])
            } else {
                None::<i32>
            }),
    {
        self.browser_for_tab(tab_id)
    }

    /// The surface whose loading to stop, for tab `tab_id`.
    pub fn browser_stop(&self, tab_id: &str) -> (r: Option<i32>)
        requires
            self.wf(),
        ensures
            r == (if self.tabs().contains_key(tab_id@) {
                Some(self.tabs()[tab_id@])
            } else {
                None::<i32>
            }),
    {
        self.browser_for_tab(tab_id)
    }

    /// The lexicographically smallest tab id, if there is a tab.
    pub fn first_tab_id(&self) -> (r: Option<String>)
        requires
            ids_unique(self.content_tabs@),
        ensures
            is_first_key(self.tabs(), opt_view(r)),
    {
        proof {
            lemma_tab_map_keys(self.content_tabs@);
        }
        if self.content_tabs.len() == 0 {
            return None;
        }
        let mut best: usize = 0;
        let mut i: usize = 1;
        proof {
            lemma_chars_lt_irreflexive(self.content_tabs@[0].tab_id@);
        }
        while i < self.content_tabs.len()
            invariant
                0 <= best < i <= self.content_tabs@.len(),
                forall|j: int|
                    0 <= j < i ==> !chars_lt(
                        #[trigger] self.content_tabs@[j].tab_id@,
                        self.content_tabs@[best as int].tab_id@,
                    ),
            decreases self.content_tabs@.len() - i,
        {
            if str_lt(self.content_tabs[i].tab_id.as_str(), self.content_tabs[best].tab_id.as_str()) {
                proof {
                    let tabs = self.content_tabs@;
                    lemma_chars_lt_irreflexive(tabs[i as int].tab_id@);
                    assert forall|j: int| 0 <= j <= i implies !chars_lt(
                        #[trigger] tabs[j].tab_id@,
                        tabs[i as int].tab_id@,
                    ) by {
                        if j < i && chars_lt(tabs[j].tab_id@, tabs[i as int].tab_id@) {
                            lemma_chars_lt_transitive(
                                tabs[j].tab_id@,
                                tabs[i as int].tab_id@,
                                tabs[best as int].tab_id@,
                            );
                        }
                    }
                }
                best = i;
            }
            i = i + 1;
        }
        proof {
            assert forall|k2: Seq<char>| #[trigger] self.tabs().contains_key(k2) implies !chars_lt(
                k2,
                self.content_tabs@[best as int].tab_id@,
            ) by {
                let j = choose|j: int|
                    0 <= j < self.content_tabs@.len() && self.content_tabs@[j].tab_id@ == k2;
                assert(!chars_lt(self.content_tabs@[j].tab_id@, self.content_tabs@[best as int].tab_id@));
            }
        }
        Some(self.content_tabs[best].tab_id.clone())
    }
}

impl ShellState {
    /// Adds tab `tab_id` with surface `surface_id` (replacing the surface of
    /// a tab of that id), and makes it active if no tab was.
    pub fn register_content_tab(&mut self, tab_id: String, surface_id: i32)
        requires
            old(self).wf(),
        ensures
            final(self).wf(),
            final(self).tabs() == old(self).tabs().insert(tab_id@, surface_id),
            final(self).active() == (if old(self).active() is None {
                Some(tab_id@)
            } else {
                old(self).active()
            }),
            same_frame(*old(self), *final(self)),
    {
        let ghost old_tabs = self.tabs();
        if let Some(i) = self.find_tab(tab_id.as_str()) {
            proof {
                lemma_tab_map_remove(self.content_tabs@, i as int);
            }
            self.content_tabs.remove(i);
        }
        proof {
            lemma_tab_map_keys(self.content_tabs@);
            lemma_tab_map_keys(old(self).content_tabs@);
            assert(self.tabs() == old_tabs.remove(tab_id@));
            let t = TabSession { tab_id: tab_id, surface_id: surface_id };
            lemma_tab_map_push(self.content_tabs@, t);
            assert(old_tabs.remove(tab_id@).insert(tab_id@, surface_id) =~= old_tabs.insert(
                tab_id@,
                surface_id,
            ));
        }
        if self.active_tab_id.is_none() {
            self.active_tab_id = Some(tab_id.clone());
        }
        self.content_tabs.push(TabSession { tab_id, surface_id });
    }

    /// Decides whether `ensure_tab(tab_id, initial_url)` creates a surface:
    /// the trimmed id must be non-empty and not yet a tab. The request
    /// carries the trimmed id and the URL to open. Asking again for an id
    /// that was registered creates nothing.
    pub fn ensure_tab(&self, tab_id: &str, initial_url: &str) -> (r: Option<SurfaceRequest>)
        requires
            self.wf(),
        ensures
            match r {
                None => ensure_target(self.tabs(), tab_id@) is None,
                Some(req) => ensure_target(self.tabs(), tab_id@) == Some(req.tab_id@) && req.url@
                    == initial_tab_url(initial_url@),
            },
    {
        let id = trim_str(tab_id);
        if id.as_str().is_empty() {
            return None;
        }
        if self.has_tab(id.as_str()) {
            return None;
        }
        let url = trim_str(initial_url);
        let url = if url.as_str().is_empty() {
            String::from_str("about:blank")
        } else {
            url
        };
        Some(SurfaceRequest { tab_id: id, url })
    }

    /// Makes tab `tab_id` active; does nothing if there is no such tab.
    pub fn activate_tab(&mut self, tab_id: &str)
        requires
            old(self).wf(),
        ensures
            final(self).wf(),
            final(self).content_tabs == old(self).content_tabs,
            final(self).active() == (if old(self).tabs().contains_key(tab_id@) {
                Some(tab_id@)
            } else {
                old(self).active()
            }),
            same_frame(*old(self), *final(self)),
    {
        if self.has_tab(tab_id) {
            self.active_tab_id = Some(String::from_str(tab_id));
        }
    }

    /// Shows the content area and, if tab `tab_id` exists, asks for `url`
    /// to be loaded in its surface.
    pub fn navigate_tab(&mut self, tab_id: &str, url: &str) -> (r: Option<SurfaceNavigation>)
        requires
            old(self).wf(),
        ensures
            final(self).wf(),
            *final(self) == (ShellState { content_visible: true, ..*old(self) }),
            match r {
                Some(n) => old(self).tabs().contains_key(tab_id@) && n.surface_id
                    == old(self).tabs()[tab_id@] && n.url@ == url@,
                None => !old(self).tabs().contains_key(tab_id@),
            },
    {
        let target = self.browser_for_tab(tab_id);
        self.content_visible = true;
        match target {
            Some(surface_id) => Some(SurfaceNavigation { surface_id, url: String::from_str(url) }),
            None => None,
        }
    }

    /// Shows the content area and, if a tab is active, asks for `url` to be
    /// loaded in its surface.
    pub fn navigate_active_tab(&mut self, url: &str) -> (r: Option<SurfaceNavigation>)
        requires
            old(self).wf(),
        ensures
            final(self).wf(),
            *final(self) == (ShellState { content_visible: true, ..*old(self) }),
            match old(self).active() {
                Some(k) => r is Some && r->Some_0.surface_id == old(self).tabs()[k] && r->Some_0.url@
                    == url@,
                None => r is None,
            },
    {
        let target = match &self.active_tab_id {
            Some(active) => self.browser_for_tab(active.as_str()),
            None => None,
        };
        self.content_visible = true;
        match target {
            Some(surface_id) => Some(SurfaceNavigation { surface_id, url: String::from_str(url) }),
            None => None,
        }
    }

    /// Closes tab `tab_id` and returns its surface identifier so that the
    /// engine can tear the surface down. If it was active, the first
    /// remaining tab in id order becomes active. Does nothing when there is
    /// no such tab.
    pub fn close_tab(&mut self, tab_id: &str) -> (r: Option<i32>)
        requires
            old(self).wf(),
        ensures
            final(self).wf(),
            old(self).tabs().contains_key(tab_id@) ==> r == Some(old(self).tabs()[tab_id@])
                && tab_closed(*old(self), *final(self), tab_id@),
            !old(self).tabs().contains_key(tab_id@) ==> r is None && *final(self) == *old(self),
    {
        let i = match self.find_tab(tab_id) {
            Some(i) => i,
            None => {
                return None;
            },
        };
        proof {
            lemma_tab_map_value(self.content_tabs@, i as int);
            lemma_tab_map_remove(self.content_tabs@, i as int);
        }
        let removed = self.content_tabs.remove(i);
        let was_active = match &self.active_tab_id {
            Some(active) => *active == removed.tab_id,
            None => false,
        };
        if was_active {
            self.active_tab_id = self.first_tab_id();
        }
        Some(removed.surface_id)
    }

    /// Closes the tab whose surface has identifier `browser_id`, as
    /// `close_tab` does; does nothing when no tab has that surface.
    pub fn remove_content_tab_by_browser_id(&mut self, browser_id: i32)
        requires
            old(self).wf(),
        ensures
            final(self).wf(),
            (forall|k: Seq<char>| #[trigger]
                old(self).tabs().contains_key(k) ==> old(self).tabs()[k] != browser_id) ==> (
            *final(self) == *old(self)),
            (exists|k: Seq<char>| #[trigger]
                old(self).tabs().contains_key(k) && old(self).tabs()[k] == browser_id) ==> (exists|
                k: Seq<char>,
            | #[trigger] old(self).tabs().contains_key(k) && old(self).tabs()[k] == browser_id
                && tab_closed(*old(self), *final(self), k)),
    {
        match self.tab_id_for_browser_id(browser_id) {
            Some(tab_id) => {
                self.close_tab(tab_id.as_str());
                assert(tab_closed(*old(self), *self, tab_id@));
            },
            None => {},
        }
    }

    /// Closes every tab; used when the window goes away.
    pub fn clear_content_tabs(&mut self)
        requires
            old(self).wf(),
        ensures
            final(self).wf(),
            final(self).tabs() == Map::<Seq<char>, i32>::empty(),
            final(self).active() is None,
            same_frame(*old(self), *final(self)),
    {
        self.content_tabs = Vec::new();
        self.active_tab_id = None;
    }

    /// Where each surface goes: the chrome surface over the whole window,
    /// the active tab at the effective content rectangle when content is
    /// shown, every other tab hidden.
    pub fn layout(&self) -> (r: Layout)
        requires
            self.wf(),
        ensures
            r.chrome_bounds == (if self.has_ui_view {
                Some(self.window_bounds)
            } else {
                None::<Rect>
            }),
            r.tabs@.len() == self.content_tabs@.len(),
            forall|i: int|
                0 <= i < r.tabs@.len() ==> {
                    &&& (#[trigger] r.tabs@[i]).tab_id@ == self.content_tabs@[i].tab_id@
                    &&& r.tabs@[i].surface_id == self.content_tabs@[i].surface_id
                    &&& r.tabs@[i].bounds == effective_rect(
                        self.requested_content_bounds,
                        self.window_bounds,
                    )
                    &&& r.tabs@[i].visible == (self.content_visible && self.active() == Some(
                        self.content_tabs@[i].tab_id@,
                    ))
                },
            forall|i: int, j: int|
                0 <= i < r.tabs@.len() && 0 <= j < r.tabs@.len() && (#[trigger] r.tabs@[i]).visible
                    && (#[trigger] r.tabs@[j]).visible ==> i == j,
            !self.content_visible ==> forall|i: int|
                0 <= i < r.tabs@.len() ==> !(#[trigger] r.tabs@[i]).visible,
    {
        let chrome_bounds = if self.has_ui_view {
            Some(self.window_bounds)
        } else {
            None
        };
        let bounds = effective_content_bounds(self.requested_content_bounds, &self.window_bounds);
        let mut tabs: Vec<TabPlacement> = Vec::new();
        let mut i: usize = 0;
        while i < self.content_tabs.len()
            invariant
                0 <= i <= self.content_tabs@.len(),
                tabs@.len() == i,
                bounds == effective_rect(self.requested_content_bounds, self.window_bounds),
                forall|k: int|
                    0 <= k < i ==> {
                        &&& (#[trigger] tabs@[k]).tab_id@ == self.content_tabs@[k].tab_id@
                        &&& tabs@[k].surface_id == self.content_tabs@[k].surface_id
                        &&& tabs@[k].bounds == bounds
                        &&& tabs@[k].visible == (self.content_visible && self.active() == Some(
                            self.content_tabs@[k].tab_id@,
                        ))
                    },
            decreases self.content_tabs@.len() - i,
        {
            let tab = &self.content_tabs[i];
            let is_active = match &self.active_tab_id {
                Some(active) => *active == tab.tab_id,
                None => false,
            };
            tabs.push(
                TabPlacement {
                    tab_id: tab.tab_id.clone(),
                    surface_id: tab.surface_id,
                    visible: self.content_visible && is_active,
                    bounds,
                },
            );
            i = i + 1;
        }
        Layout { chrome_bounds, tabs }
    }
}

impl Default for ShellState {
    fn default() -> (r: ShellState)
        ensures
            r.wf(),
            r.tabs() == Map::<Seq<char>, i32>::empty(),
            r.active() is None,
            r.content_visible,
    {
        ShellState::new()
    }
}

/// Asking twice for the same tab creates one surface: once a tab has been
/// registered under the id `ensure_tab` asked for, asking again for that id
/// creates nothing.
pub proof fn lemma_ensure_tab_idempotent(tabs: Map<Seq<char>, i32>, tab_id: Seq<char>, surface_id: i32)
    requires
        ensure_target(tabs, tab_id) is Some,
    ensures
        ensure_target(tabs.insert(ensure_target(tabs, tab_id)->Some_0, surface_id), tab_id) is None,
{
}

} // verus!
