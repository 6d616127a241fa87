use vstd::prelude::*;

use crate::command::arg_views;
use crate::text::{
    ascii_lower, has_prefix, non_blank, non_empty, opt_string_view, starts_with, strip_trailing,
    trim_trailing_slashes,
};

verus! {

/// The chrome UI served by the development server.
pub const DEFAULT_DEV_UI_URL: &'static str = "http://localhost:5173";

/// The content page a fresh shell opens.
pub const DEFAULT_CONTENT_URL: &'static str = "https://www.microsoft.com/edge";

/// The value given for `flag` on a command line, looking from argument `i`
/// on: `flag=value` with a non-blank value, or `flag` followed by a
/// non-blank argument; the first such argument wins.
pub open spec fn flag_value_from(args: Seq<Seq<char>>, flag: Seq<char>, i: int) -> Option<Seq<char>>
    decreases args.len() - i,
{
    if i < 0 || i >= args.len() {
        None
    } else {
        let with_eq = flag.push('=');
        if has_prefix(args[i], with_eq) && non_blank(args[i].skip(with_eq.len() as int)) is Some {
            Some(args[i].skip(with_eq.len() as int))
        } else if args[i] == flag && i + 1 < args.len() && non_blank(args[i + 1]) is Some {
            Some(args[i + 1])
        } else {
            flag_value_from(args, flag, i + 1)
        }
    }
}

/// Finds the value given for `flag` among the command-line arguments.
pub fn resolve_flag_from_args(args: &Vec<String>, flag: &str) -> (r: Option<String>)
    ensures
        opt_string_view(r) == flag_value_from(arg_views(args@), flag@, 0),
{
    let ghost a = arg_views(args@);
    let mut with_eq = String::from_str(flag);
    with_eq.append("=");
    proof {
        reveal_strlit("=");
        assert(with_eq@ =~= flag@.push('='));
    }
    let prefix_len = with_eq.as_str().unicode_len();
    let key = String::from_str(flag);
    let mut i: usize = 0;
    while i < args.len()
        invariant
            a == arg_views(args@),
            with_eq@ == flag@.push('='),
            prefix_len == with_eq@.len(),
            key@ == flag@,
            0 <= i <= args@.len(),
            flag_value_from(a, flag@, 0) == flag_value_from(a, flag@, i as int),
        decreases args@.len() - i,
    {
        let arg = args[i].as_str();
        assert(a[i as int] == arg@);
        if starts_with(arg, with_eq.as_str()) {
            let value = String::from_str(arg.substring_char(prefix_len, arg.unicode_len()));
            assert(value@ =~= a[i as int].skip(prefix_len as int));
            if non_empty(value.as_str()).is_some() {
                return Some(value);
            }
        }
        if args[i] == key && i + 1 < args.len() {
            assert(a[i + 1] == args@[i + 1]@);
            if non_empty(args[i + 1].as_str()).is_some() {
                return Some(args[i + 1].clone());
            }
        }
        i = i + 1;
    }
    None
}

/// The configured UI URL unless it is blank, else the development server.
pub open spec fn chosen_ui_url(configured: Option<Seq<char>>) -> Seq<char> {
    match configured {
        Some(v) => if non_blank(v) is Some {
            v
        } else {
            DEFAULT_DEV_UI_URL@
        },
        None => DEFAULT_DEV_UI_URL@,
    }
}

/// The URL the chrome UI is loaded from, given the configured one.
pub fn ui_url(configured: Option<String>) -> (r: String)
    ensures
        r@ == chosen_ui_url(opt_string_view(configured)),
{
    match configured {
        Some(v) => {
            if non_empty(v.as_str()).is_some() {
                v
            } else {
                String::from_str(DEFAULT_DEV_UI_URL)
            }
        },
        None => String::from_str(DEFAULT_DEV_UI_URL),
    }
}

/// The origin prefix that trusted chrome frames are matched against: the UI
/// URL without trailing slashes.
pub fn trusted_ui_origin_prefix(ui_url: &str) -> (r: String)
    ensures
        r@ == strip_trailing(ui_url@, '/'),
{
    trim_trailing_slashes(ui_url)
}

/// The UI URL used when none is configured: the development server in a
/// debug build, else the packaged UI when there is one.
pub fn resolve_default_ui_url(debug_build: bool, packaged_ui_url: Option<String>) -> (r: String)
    ensures
        r@ == (if debug_build {
            DEFAULT_DEV_UI_URL@
        } else {
            match opt_string_view(packaged_ui_url) {
                Some(u) => u,
                None => DEFAULT_DEV_UI_URL@,
            }
        }),
{
    if debug_build {
        return String::from_str(DEFAULT_DEV_UI_URL);
    }
    match packaged_ui_url {
        Some(u) => u,
        None => String::from_str(DEFAULT_DEV_UI_URL),
    }
}

/// The update feed: the environment's value, trimmed, unless blank; else the
/// value built in, trimmed, unless blank.
pub fn resolve_update_url(env_value: Option<String>, built_in: Option<String>) -> (r: Option<String>)
    ensures
        opt_string_view(r) == (match opt_string_view(env_value) {
            Some(v) if non_blank(v) is Some => non_blank(v),
            _ => match opt_string_view(built_in) {
                Some(b) => non_blank(b),
                None => None,
            },
        }),
{
    if let Some(v) = &env_value {
        let t = non_empty(v.as_str());
        if t.is_some() {
            return t;
        }
    }
    match &built_in {
        Some(b) => non_empty(b.as_str()),
        None => None,
    }
}

/// Milliseconds since the Unix epoch as stored in the envelope: the
/// elapsed time cut to 64 bits, or 0 when the clock is before the epoch.
pub fn unix_time_ms(elapsed_ms: Option<u128>) -> (r: u64)
    ensures
        r == (match elapsed_ms {
            Some(ms) => (ms % 0x1_0000_0000_0000_0000) as u64,
            None => 0,
        }),
{
    match elapsed_ms {
        Some(ms) => (ms % 0x1_0000_0000_0000_0000u128) as u64,
        None => 0,
    }
}

/// `s[i..j]` is one entry of the `;`-separated list `s`.
pub open spec fn is_entry_at(s: Seq<char>, i: int, j: int) -> bool {
    &&& 0 <= i <= j <= s.len()
    &&& (i == 0 || s[i - 1] == ';')
    &&& (j == s.len() || s[j] == ';')
    &&& forall|k: int| i <= k < j ==> #[trigger] s[k] != ';'
}

/// `a` and `b` are equal when ASCII letters are compared without case.
pub open spec fn same_ignoring_ascii_case(a: Seq<char>, b: Seq<char>) -> bool {
    a.len() == b.len() && forall|i: int| 0 <= i < a.len() ==> ascii_lower(#[trigger] a[i])
        == ascii_lower(b[i])
}

/// Some entry of the `;`-separated list `path` is `entry`, ignoring ASCII
/// case.
pub open spec fn path_has_entry(path: Seq<char>, entry: Seq<char>) -> bool {
    exists|i: int, j: int|
        is_entry_at(path, i, j) && #[trigger] same_ignoring_ascii_case(path.subrange(i, j), entry)
}

/// The search path with `dir` appended, or `None` when `dir` is empty or
/// already listed.
pub open spec fn extended_search_path(path: Seq<char>, dir: Seq<char>) -> Option<Seq<char>> {
    if dir.len() == 0 || path_has_entry(path, dir) {
        None
    } else {
        Some(path + ";"@ + dir)
    }
}

fn entry_matches(path: &str, start: usize, end: usize, entry: &str) -> (r: bool)
    requires
        start <= end <= path@.len(),
    ensures
        r == same_ignoring_ascii_case(path@.subrange(start as int, end as int), entry@),
{
    let n = entry.unicode_len();
    if end - start != n {
        return false;
    }
    let ghost seg = path@.subrange(start as int, end as int);
    let mut k: usize = 0;
    while k < n
        invariant
            n == entry@.len(),
            end - start == n,
            start <= end <= path@.len(),
            seg == path@.subrange(start as int, end as int),
            0 <= k <= n,
            forall|i: int| 0 <= i < k ==> ascii_lower(#[trigger] seg[i]) == ascii_lower(entry@[i]),
        decreases n - k,
    {
        let a = path.get_char(start + k);
        let b = entry.get_char(k);
        assert(seg[k as int] == a);
        let la: u32 = if 'A' <= a && a <= 'Z' {
            a as u32 + 32
        } else {
            a as u32
        };
        let lb: u32 = if 'A' <= b && b <= 'Z' {
            b as u32 + 32
        } else {
            b as u32
        };
        if la != lb {
            return false;
        }
        k = k + 1;
    }
    true
}

/// Whether the `;`-separated list `path` already holds `entry`, ignoring
/// ASCII case.
pub fn search_path_contains(path: &str, entry: &str) -> (r: bool)
    ensures
        r == path_has_entry(path@, entry@),
{
    let n = path.unicode_len();
    let mut start: usize = 0;
    while start <= n
        invariant
            n == path@.len(),
            start <= n,
            start == 0 || path@[start - 1] == ';',
            forall|i: int, j: int|
                is_entry_at(path@, i, j) && i < start ==> !#[trigger] same_ignoring_ascii_case(
                    path@.subrange(i, j),
                    entry@,
                ),
        decreases n + 1 - start,
    {
        let mut end: usize = start;
        while end < n && path.get_char(end) != ';'
            invariant
                n == path@.len(),
                start <= end <= n,
                forall|k: int| start <= k < end ==> #[trigger] path@[k] != ';',
            decreases n - end,
        {
            end = end + 1;
        }
        assert(is_entry_at(path@, start as int, end as int));
        if entry_matches(path, start, end, entry) {
            return true;
        }
        assert forall|i: int, j: int|
            is_entry_at(path@, i, j) && i <= end implies !#[trigger] same_ignoring_ascii_case(
            path@.subrange(i, j),
            entry@,
        ) by {
            if i >= start {
                if i > start {
                    assert(path@[i - 1] == ';');
                }
                assert(i == start);
                if j < end {
                    assert(path@[j] == ';');
                }
                if j > end {
                    assert(path@[end as int] == ';');
                }
                assert(j == end);
            }
        }
        if end == n {
            return false;
        }
        start = end + 1;
    }
    false
}

/// The search path with `dir` appended after a `;`, unless `dir` is empty
/// or already one of its entries (ignoring ASCII case).
pub fn extend_search_path(current: &str, dir: &str) -> (r: Option<String>)
    ensures
        opt_string_view(r) == extended_search_path(current@, dir@),
{
    if dir.unicode_len() == 0 {
        return None;
    }
    if search_path_contains(current, dir) {
        return None;
    }
    let mut extended = String::from_str(current);
    extended.append(";");
    extended.append(dir);
    Some(extended)
}

} // verus!
