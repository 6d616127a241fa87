use vstd::prelude::*;

verus! {

/// What a workspace item is.
#[derive(Clone, Copy, Debug, PartialEq, Eq, Structural)]
pub enum ItemKind {
    Group,
    BrowserTab,
    FileRef,
    CapsuleView,
}

/// An entry of the workspace tree.
#[derive(Clone, Debug, PartialEq, Eq)]
pub struct WorkspaceItem {
    pub id: String,
    pub kind: ItemKind,
    pub parent_id: Option<String>,
    pub title: String,
    pub order: i32,
}

/// A permission a workspace surface may be granted.
#[derive(Clone, Copy, Debug, PartialEq, Eq, Structural)]
pub enum Capability {
    BrowserNavigate,
    BrowserCookiesRead,
    BrowserCookiesWrite,
    FsRead,
    FsWrite,
    TerminalExec,
    McpToolInvoke,
    NetworkFetch,
}

} // verus!
