use vstd::prelude::*;

use crate::geometry::{max_int, ContentBounds};
use crate::json::JsonValue;
use crate::text::{
    bool_arg, i32_arg, non_blank, opt_string_view, parse_bool_arg, parse_i32_arg, trim_str, trimmed,
};

verus! {

/// Name of the process message that carries host commands.
pub const IPC_COMMAND_MESSAGE: &'static str = "pulse-host-command";

/// A command from the chrome UI, decoded from its string arguments.
#[derive(Debug, PartialEq, Eq)]
pub enum HostCommand {
    EnsureTab { tab_id: String, initial_url: String },
    ActivateTab { tab_id: String },
    NavigateTab { tab_id: String, url: String },
    Navigate { url: String },
    CloseTab { tab_id: String },
    BrowserBack { tab_id: String },
    BrowserForward { tab_id: String },
    BrowserReload { tab_id: String },
    BrowserStop { tab_id: String },
    SetContentBounds { bounds: ContentBounds },
    SetContentVisible { visible: bool },
}

/// A host command with its strings as character sequences.
pub enum CommandView {
    EnsureTab(Seq<char>, Seq<char>),
    ActivateTab(Seq<char>),
    NavigateTab(Seq<char>, Seq<char>),
    Navigate(Seq<char>),
    CloseTab(Seq<char>),
    BrowserBack(Seq<char>),
    BrowserForward(Seq<char>),
    BrowserReload(Seq<char>),
    BrowserStop(Seq<char>),
    SetContentBounds(ContentBounds),
    SetContentVisible(bool),
}

impl View for HostCommand {
    type V = CommandView;

    open spec fn view(&self) -> CommandView {
        match self {
            HostCommand::EnsureTab { tab_id, initial_url } => CommandView::EnsureTab(
                tab_id@,
                initial_url@,
            ),
            HostCommand::ActivateTab { tab_id } => CommandView::ActivateTab(tab_id@),
            HostCommand::NavigateTab { tab_id, url } => CommandView::NavigateTab(tab_id@, url@),
            HostCommand::Navigate { url } => CommandView::Navigate(url@),
            HostCommand::CloseTab { tab_id } => CommandView::CloseTab(tab_id@),
            HostCommand::BrowserBack { tab_id } => CommandView::BrowserBack(tab_id@),
            HostCommand::BrowserForward { tab_id } => CommandView::BrowserForward(tab_id@),
            HostCommand::BrowserReload { tab_id } => CommandView::BrowserReload(tab_id@),
            HostCommand::BrowserStop { tab_id } => CommandView::BrowserStop(tab_id@),
            HostCommand::SetContentBounds { bounds } => CommandView::SetContentBounds(*bounds),
            HostCommand::SetContentVisible { visible } => CommandView::SetContentVisible(*visible),
        }
    }
}

/// The arguments as character sequences.
pub open spec fn arg_views(args: Seq<String>) -> Seq<Seq<char>> {
    args.map_values(|s: String| s@)
}

/// The bounds a `set-content-bounds x y width height` command asks for:
/// all four read as integers, width and height at least one.
pub open spec fn bounds_args(a: Seq<Seq<char>>) -> Option<ContentBounds> {
    if a.len() < 5 {
        None
    } else {
        match (i32_arg(a[1]), i32_arg(a[2]), i32_arg(a[3]), i32_arg(a[4])) {
            (Some(x), Some(y), Some(w), Some(h)) => Some(
                ContentBounds {
                    x: x,
                    y: y,
                    width: max_int(w as int, 1) as i32,
                    height: max_int(h as int, 1) as i32,
                },
            ),
            _ => None,
        }
    }
}

/// The command a tab-addressed name with at least one argument gives.
pub open spec fn tab_command(name: Seq<char>, tab_id: Seq<char>) -> Option<CommandView> {
    if name == "activate-tab"@ {
        Some(CommandView::ActivateTab(tab_id))
    } else if name == "close-tab"@ {
        Some(CommandView::CloseTab(tab_id))
    } else if name == "browser-back"@ {
        Some(CommandView::BrowserBack(tab_id))
    } else if name == "browser-forward"@ {
        Some(CommandView::BrowserForward(tab_id))
    } else if name == "browser-reload"@ {
        Some(CommandView::BrowserReload(tab_id))
    } else if name == "browser-stop"@ {
        Some(CommandView::BrowserStop(tab_id))
    } else {
        None
    }
}

/// The command an argument list decodes to. The first argument names the
/// command; a missing or malformed argument, a blank URL where one is
/// required, or an unknown name gives no command.
pub open spec fn command_of(a: Seq<Seq<char>>) -> Option<CommandView> {
    if a.len() == 0 {
        None
    } else if a[0] == "ensure-tab"@ {
        if a.len() < 2 {
            None
        } else {
            Some(CommandView::EnsureTab(a[1], if a.len() >= 3 { a[2] } else { "about:blank"@ }))
        }
    } else if a[0] == "navigate-tab"@ {
        if a.len() < 3 || non_blank(a[2]) is None {
            None
        } else {
            Some(CommandView::NavigateTab(a[1], trimmed(a[2])))
        }
    } else if a[0] == "navigate"@ {
        if a.len() < 2 || non_blank(a[1]) is None {
            None
        } else {
            Some(CommandView::Navigate(trimmed(a[1])))
        }
    } else if a[0] == "set-content-bounds"@ {
        match bounds_args(a) {
            Some(b) => Some(CommandView::SetContentBounds(b)),
            None => None,
        }
    } else if a[0] == "set-content-visible"@ {
        if a.len() < 2 {
            None
        } else {
            match bool_arg(a[1]) {
                Some(v) => Some(CommandView::SetContentVisible(v)),
                None => None,
            }
        }
    } else if a.len() < 2 {
        None
    } else {
        tab_command(a[0], a[1])
    }
}

/// The view of an optional command.
pub open spec fn opt_command_view(c: Option<HostCommand>) -> Option<CommandView> {
    match c {
        Some(cmd) => Some(cmd@),
        None => None,
    }
}

fn is_name(name: &String, literal: &str) -> (r: bool)
    ensures
        r == (name@ == literal@),
{
    *name == String::from_str(literal)
}

fn parse_bounds(args: &Vec<String>) -> (r: Option<ContentBounds>)
    ensures
        r == bounds_args(arg_views(args@)),
{
    if args.len() < 5 {
        return None;
    }
    let x = parse_i32_arg(args[1].as_str());
    let y = parse_i32_arg(args[2].as_str());
    let w = parse_i32_arg(args[3].as_str());
    let h = parse_i32_arg(args[4].as_str());
    match (x, y, w, h) {
        (Some(x), Some(y), Some(w), Some(h)) => Some(
            ContentBounds {
                x,
                y,
                width: if w >= 1 {
                    w
                } else {
                    1
                },
                height: if h >= 1 {
                    h
                } else {
                    1
                },
            },
        ),
        _ => None,
    }
}

/// Decodes a host command from its string arguments.
pub fn parse_host_command(args: &Vec<String>) -> (r: Option<HostCommand>)
    ensures
        opt_command_view(r) == command_of(arg_views(args@)),
{
    let ghost a = arg_views(args@);
    if args.len() == 0 {
        return None;
    }
    assert(a[0] == args@[0]@);
    let name = &args[0];
    if is_name(name, "ensure-tab") {
        if args.len() < 2 {
            return None;
        }
        let initial_url = if args.len() >= 3 {
            args[2].clone()
        } else {
            String::from_str("about:blank")
        };
        return Some(HostCommand::EnsureTab { tab_id: args[1].clone(), initial_url });
    }
    if is_name(name, "navigate-tab") {
        if args.len() < 3 {
            return None;
        }
        let url = trim_str(args[2].as_str());
        if url.as_str().is_empty() {
            return None;
        }
        return Some(HostCommand::NavigateTab { tab_id: args[1].clone(), url });
    }
    if is_name(name, "navigate") {
        if args.len() < 2 {
            return None;
        }
        let url = trim_str(args[1].as_str());
        if url.as_str().is_empty() {
            return None;
        }
        return Some(HostCommand::Navigate { url });
    }
    if is_name(name, "set-content-bounds") {
        return match parse_bounds(args) {
            Some(bounds) => Some(HostCommand::SetContentBounds { bounds }),
            None => None,
        };
    }
    if is_name(name, "set-content-visible") {
        if args.len() < 2 {
            return None;
        }
        return match parse_bool_arg(args[1].as_str()) {
            Some(visible) => Some(HostCommand::SetContentVisible { visible }),
            None => None,
        };
    }
    if args.len() < 2 {
        return None;
    }
    let tab_id = args[1].clone();
    if is_name(name, "activate-tab") {
        Some(HostCommand::ActivateTab { tab_id })
    } else if is_name(name, "close-tab") {
        Some(HostCommand::CloseTab { tab_id })
    } else if is_name(name, "browser-back") {
        Some(HostCommand::BrowserBack { tab_id })
    } else if is_name(name, "browser-forward") {
        Some(HostCommand::BrowserForward { tab_id })
    } else if is_name(name, "browser-reload") {
        Some(HostCommand::BrowserReload { tab_id })
    } else if is_name(name, "browser-stop") {
        Some(HostCommand::BrowserStop { tab_id })
    } else {
        None
    }
}

/// A JSON string, or `null` for no value or an empty one.
pub open spec fn is_optional_text(v: JsonValue, text: Option<Seq<char>>) -> bool {
    match text {
        Some(t) if t.len() > 0 => v is Str && v->Str_0@ == t,
        _ => v is Null,
    }
}

fn optional_text(text: Option<String>) -> (r: JsonValue)
    ensures
        is_optional_text(r, opt_string_view(text)),
{
    match text {
        Some(t) => {
            if t.as_str().is_empty() {
                JsonValue::Null
            } else {
                JsonValue::Str(t)
            }
        },
        None => JsonValue::Null,
    }
}

/// The detail of the event that tells the chrome UI a tab's URL or title
/// changed: `tabId`, `url` and `title`, the last two `null` when unknown or
/// empty.
pub fn tab_runtime_update(tab_id: &str, url: Option<String>, title: Option<String>) -> (r: JsonValue)
    ensures
        r is Object,
        r->Object_0@.len() == 3,
        r->Object_0@[0].0@ == "tabId"@ && r->Object_0@[0].1 is Str && r->Object_0@[0].1->Str_0@
            == tab_id@,
        r->Object_0@[1].0@ == "url"@ && is_optional_text(r->Object_0@[1].1, opt_string_view(url)),
        r->Object_0@[2].0@ == "title"@ && is_optional_text(
            r->Object_0@[2].1,
            opt_string_view(title),
        ),
{
    let mut members: Vec<(String, JsonValue)> = Vec::new();
    members.push((String::from_str("tabId"), JsonValue::Str(String::from_str(tab_id))));
    members.push((String::from_str("url"), optional_text(url)));
    members.push((String::from_str("title"), optional_text(title)));
    JsonValue::Object(members)
}

} // verus!
