//! The window system that the session runs on, and what its tools say about
//! the active window.
//!
//! The caller reads the environment and runs the tools; this module makes
//! sense of what they said.

use crate::hints::Extents;
use crate::json::{
    get_number_at, get_number_of, lemma_view, member_from, number_at, number_of, parse,
    spec_parse, Json, JsonView,
};
use crate::text::{
    chars_of, contains, cut, lines, parse_i32, same_text, spec_contains, spec_lines,
    spec_parse_i32, spec_trim, starts_with, trim,
};
use vstd::prelude::*;
use vstd::seq::axiom_seq_index_decreases;
use vstd::slice::slice_subrange;
use vstd::std_specs::vec::axiom_vec_index_decreases;
use vstd::string::{StrSliceExecFns, StringExecFns};

verus! {

/// The kind of window system.
#[derive(Debug, Clone, Copy, PartialEq, Eq, Structural)]
pub enum WindowSystemType {
    X11,
    Wayland,
}

/// The window system of the session: its kind, and the name of the
/// compositor or of what was preferred.
#[derive(Debug, Clone, PartialEq, Eq)]
pub struct WindowSystem {
    pub window_system_type: WindowSystemType,
    pub window_system_name: String,
    pub bar_height: i32,
}

/// The name given to a window system that no known compositor runs on.
pub const UNKNOWN_NAME: &'static str = "unknown";

/// The session type assumed where the environment names none.
pub const DEFAULT_SESSION: &'static str = "x11";

/// The process names of the Wayland compositors that are told apart, as a
/// pattern that matches a whole name, whatever the case of its letters.
pub const COMPOSITOR_PATTERN: &'static str =
    "(?i)^(sway|hyprland|plasmashell|kwin_wayland|wayfire)$";

/// What `str::to_lowercase` makes of a text.
pub uninterp spec fn spec_lowercase(text: Seq<char>) -> Seq<char>;

/// Whether the regular expression `pattern` matches somewhere in `text`, as
/// the regex crate decides it; `None` where `pattern` is no regular
/// expression that the crate accepts.
pub uninterp spec fn spec_regex_match(pattern: Seq<char>, text: Seq<char>) -> Option<bool>;

/// Calls `str::to_lowercase`.
///
/// Trusted: that the result depends on the characters of the text alone.
#[verifier::external_body]
fn lowercase(text: &str) -> (lowered: String)
    ensures
        lowered@ == spec_lowercase(text@),
{
    text.to_lowercase()
}

/// Calls `regex::Regex::new` on the pattern and `Regex::is_match` on the
/// text.
///
/// Trusted: that whether the pattern is accepted depends on the pattern
/// alone, and whether it matches on the pattern and the text alone.
#[verifier::external_body]
fn regex_match(pattern: &str, text: &str) -> (found: Option<bool>)
    ensures
        found == spec_regex_match(pattern@, text@),
{
    regex::Regex::new(pattern).ok().map(|compiled| compiled.is_match(text))
}

/// Whether line `i` of a process list names a known compositor.
pub open spec fn names_compositor(listing: Seq<char>, i: int) -> bool {
    spec_regex_match(COMPOSITOR_PATTERN@, spec_trim(spec_lines(listing)[i])) == Some(true)
}

/// Line `i` names a known compositor, and no line before it does.
pub open spec fn is_first_compositor(listing: Seq<char>, i: int) -> bool {
    &&& 0 <= i < spec_lines(listing).len()
    &&& names_compositor(listing, i)
    &&& forall|k: int| 0 <= k < i ==> !names_compositor(listing, k)
}

/// Searches a process list, one process name per line, for a known Wayland
/// compositor. White space around a name does not count.
pub fn detect_wayland_wm(listing: &str) -> (name: Option<String>)
    ensures
        match name {
            Some(found) => exists|i: int|
                is_first_compositor(listing@, i) && found@ == spec_lowercase(
                    spec_trim(spec_lines(listing@)[i]),
                ),
            None => forall|i: int|
                0 <= i < spec_lines(listing@).len() ==> !names_compositor(listing@, i),
        },
{
    let chars = chars_of(listing);
    let ranges = lines(chars.as_slice());
    let mut i: usize = 0;
    while i < ranges.len()
        invariant
            i <= ranges@.len(),
            chars@ == listing@,
            cut(chars@, ranges@) == spec_lines(listing@),
            forall|k: int|
                0 <= k < ranges@.len() ==> (#[trigger] ranges@[k]).0 <= ranges@[k].1
                    <= chars@.len(),
            forall|k: int| 0 <= k < i ==> !names_compositor(listing@, k),
        decreases ranges@.len() - i,
    {
        let (from, to) = ranges[i];
        assert(cut(chars@, ranges@)[i as int] == chars@.subrange(from as int, to as int));
        let line = slice_subrange(chars.as_slice(), from, to);
        let (start, end) = trim(line);
        assert(line@.subrange(start as int, end as int) =~= chars@.subrange(
            from + start,
            from + end,
        ));
        let token = listing.substring_char(from + start, from + end);
        match regex_match(COMPOSITOR_PATTERN, token) {
            Some(true) => {
                assert(is_first_compositor(listing@, i as int));
                return Some(lowercase(token));
            },
            _ => {},
        }
        i = i + 1;
    }
    None
}

/// The session type that the environment names: the session type itself,
/// else the Wayland display, else `DEFAULT_SESSION`.
pub fn session_type(session: Option<String>, wayland_display: Option<String>) -> (named: String)
    ensures
        named@ == match (session, wayland_display) {
            (Some(text), _) => text@,
            (None, Some(text)) => text@,
            (None, None) => DEFAULT_SESSION@,
        },
{
    match session {
        Some(text) => text,
        None => match wayland_display {
            Some(text) => text,
            None => String::from_str(DEFAULT_SESSION),
        },
    }
}

impl WindowSystem {
    /// The window system that `detect` settles on.
    ///
    /// A preferred name decides alone: `x11` in any case of letters means
    /// X11, any other name Wayland, and the name is kept in lower case.
    /// Without one, a session type with `wayland` in it, in any case of
    /// letters, means Wayland and any other X11; the name is that of the
    /// compositor found, if one was.
    pub open spec fn spec_detect(
        preferred: Seq<char>,
        session: Seq<char>,
        compositor: Option<Seq<char>>,
    ) -> (WindowSystemType, Seq<char>) {
        if preferred.len() > 0 {
            (
                if spec_lowercase(preferred) == "x11"@ {
                    WindowSystemType::X11
                } else {
                    WindowSystemType::Wayland
                },
                spec_lowercase(preferred),
            )
        } else {
            (
                if spec_contains(spec_lowercase(session), "wayland"@) {
                    WindowSystemType::Wayland
                } else {
                    WindowSystemType::X11
                },
                match compositor {
                    Some(name) => name,
                    None => UNKNOWN_NAME@,
                },
            )
        }
    }

    /// Settles on a window system from the preferred name, the session type
    /// that the environment names and the compositor found among the
    /// processes.
    pub fn detect(preferred: &str, session: &str, compositor: Option<String>) -> (system:
        WindowSystem)
        ensures
            system.bar_height == 0,
            (system.window_system_type, system.window_system_name@) == Self::spec_detect(
                preferred@,
                session@,
                match compositor {
                    Some(name) => Some(name@),
                    None => None,
                },
            ),
    {
        let wanted = chars_of(preferred);
        if wanted.len() > 0 {
            let name = lowercase(preferred);
            let letters = chars_of(name.as_str());
            let x11 = chars_of("x11");
            let window_system_type = if same_text(letters.as_slice(), x11.as_slice()) {
                WindowSystemType::X11
            } else {
                WindowSystemType::Wayland
            };
            return WindowSystem { window_system_type, window_system_name: name, bar_height: 0 };
        }
        let lowered = lowercase(session);
        let letters = chars_of(lowered.as_str());
        let wayland = chars_of("wayland");
        let window_system_type = if contains(letters.as_slice(), wayland.as_slice()) {
            WindowSystemType::Wayland
        } else {
            WindowSystemType::X11
        };
        let window_system_name = match compositor {
            Some(name) => name,
            None => String::from_str(UNKNOWN_NAME),
        };
        WindowSystem { window_system_type, window_system_name, bar_height: 0 }
    }
}

/// The four numbers of a geometry report, each 0 until a line sets it.
#[derive(Debug, Clone, Copy, PartialEq, Eq, Structural)]
pub struct Geometry {
    pub x: i32,
    pub y: i32,
    pub width: i32,
    pub height: i32,
}

/// The number that follows a key at the start of a line; 0 where what
/// follows is no number.
pub open spec fn spec_value_after(line: Seq<char>, key: Seq<char>) -> i32 {
    match spec_parse_i32(line.skip(key.len() as int)) {
        Some(number) => number,
        None => 0,
    }
}

/// The geometry after one more line of the report: a line that starts with
/// `X=`, `Y=`, `WIDTH=` or `HEIGHT=` sets that number, any other line
/// changes nothing.
pub open spec fn spec_read_line(so_far: Geometry, line: Seq<char>) -> Geometry {
    if "X="@.is_prefix_of(line) {
        Geometry { x: spec_value_after(line, "X="@), ..so_far }
    } else if "Y="@.is_prefix_of(line) {
        Geometry { y: spec_value_after(line, "Y="@), ..so_far }
    } else if "WIDTH="@.is_prefix_of(line) {
        Geometry { width: spec_value_after(line, "WIDTH="@), ..so_far }
    } else if "HEIGHT="@.is_prefix_of(line) {
        Geometry { height: spec_value_after(line, "HEIGHT="@), ..so_far }
    } else {
        so_far
    }
}

/// The geometry after the given lines of a report.
pub open spec fn spec_read_lines(report: Seq<Seq<char>>) -> Geometry
    decreases report.len(),
{
    if report.len() == 0 {
        Geometry { x: 0, y: 0, width: 0, height: 0 }
    } else {
        spec_read_line(spec_read_lines(report.drop_last()), report.last())
    }
}

/// The active window that a geometry report describes, if it describes one
/// with positive width and height.
pub open spec fn spec_parse_window_geometry(report: Seq<char>) -> Option<Extents> {
    let read = spec_read_lines(spec_lines(report));
    if read.width > 0 && read.height > 0 {
        Some((read.x, read.y, read.width, read.height))
    } else {
        None
    }
}

/// The number that follows the key of `key_len` characters at the start of
/// `line`.
fn value_after(line: &[char], key_len: usize) -> (value: i32)
    requires
        key_len <= line@.len(),
    ensures
        value == match spec_parse_i32(line@.skip(key_len as int)) {
            Some(number) => number,
            None => 0,
        },
{
    assert(line@.skip(key_len as int) =~= line@.subrange(key_len as int, line@.len() as int));
    match parse_i32(slice_subrange(line, key_len, line.len())) {
        Some(number) => number,
        None => 0,
    }
}

/// Reads the geometry of the active window from what
/// `xdotool getactivewindow getwindowgeometry --shell` printed.
pub fn parse_window_geometry(report: &str) -> (window: Option<Extents>)
    ensures
        window == spec_parse_window_geometry(report@),
{
    let chars = chars_of(report);
    let ranges = lines(chars.as_slice());
    let key_x = chars_of("X=");
    let key_y = chars_of("Y=");
    let key_width = chars_of("WIDTH=");
    let key_height = chars_of("HEIGHT=");
    proof {
        reveal_strlit("X=");
        reveal_strlit("Y=");
        reveal_strlit("WIDTH=");
        reveal_strlit("HEIGHT=");
    }
    let mut read = Geometry { x: 0, y: 0, width: 0, height: 0 };
    let mut i: usize = 0;
    let ghost all = spec_lines(report@);
    assert(all.take(0) =~= Seq::<Seq<char>>::empty());
    while i < ranges.len()
        invariant
            i <= ranges@.len(),
            chars@ == report@,
            all == spec_lines(report@),
            cut(chars@, ranges@) == all,
            forall|k: int|
                0 <= k < ranges@.len() ==> (#[trigger] ranges@[k]).0 <= ranges@[k].1
                    <= chars@.len(),
            key_x@ == "X="@,
            key_y@ == "Y="@,
            key_width@ == "WIDTH="@,
            key_height@ == "HEIGHT="@,
            key_x@.len() == 2,
            key_y@.len() == 2,
            key_width@.len() == 6,
            key_height@.len() == 7,
            read == spec_read_lines(all.take(i as int)),
        decreases ranges@.len() - i,
    {
        let (from, to) = ranges[i];
        let ghost line = chars@.subrange(from as int, to as int);
        proof {
            assert(cut(chars@, ranges@)[i as int] == line);
            assert(all.take(i + 1).drop_last() =~= all.take(i as int));
            assert(all.take(i + 1).last() == line);
        }
        let text = slice_subrange(chars.as_slice(), from, to);
        if starts_with(text, key_x.as_slice()) {
            read.x = value_after(text, 2);
        } else if starts_with(text, key_y.as_slice()) {
            read.y = value_after(text, 2);
        } else if starts_with(text, key_width.as_slice()) {
            read.width = value_after(text, 6);
        } else if starts_with(text, key_height.as_slice()) {
            read.height = value_after(text, 7);
        }
        i = i + 1;
    }
    assert(all.take(i as int) =~= all);
    if read.width > 0 && read.height > 0 {
        Some((read.x, read.y, read.width, read.height))
    } else {
        None
    }
}

/// The Wayland compositors that can tell the active window.
#[derive(Debug, Clone, Copy, PartialEq, Eq, Structural)]
pub enum Compositor {
    Hyprland,
    Sway,
}

/// The compositor to ask for the active window: Hyprland where its instance
/// is announced, else Sway where its socket is, else none.
pub fn compositor(hyprland_announced: bool, sway_announced: bool) -> (which: Option<Compositor>)
    ensures
        which == if hyprland_announced {
            Some(Compositor::Hyprland)
        } else if sway_announced {
            Some(Compositor::Sway)
        } else {
            None::<Compositor>
        },
{
    if hyprland_announced {
        Some(Compositor::Hyprland)
    } else if sway_announced {
        Some(Compositor::Sway)
    } else {
        None
    }
}

/// The rectangle that four numbers make, if all four are there.
pub open spec fn spec_rectangle(
    x: Option<i32>,
    y: Option<i32>,
    width: Option<i32>,
    height: Option<i32>,
) -> Option<Extents> {
    match (x, y, width, height) {
        (Some(x), Some(y), Some(width), Some(height)) => Some((x, y, width, height)),
        _ => None,
    }
}

fn rectangle(x: Option<i32>, y: Option<i32>, width: Option<i32>, height: Option<i32>) -> (made:
    Option<Extents>)
    ensures
        made == spec_rectangle(x, y, width, height),
{
    match (x, y, width, height) {
        (Some(x), Some(y), Some(width), Some(height)) => Some((x, y, width, height)),
        _ => None,
    }
}

/// The active window that Hyprland describes: its place from the array
/// `at`, its size from the array `size`.
pub open spec fn spec_hyprland_window(described: JsonView) -> Option<Extents> {
    spec_rectangle(
        number_at(described.member("at"@), 0),
        number_at(described.member("at"@), 1),
        number_at(described.member("size"@), 0),
        number_at(described.member("size"@), 1),
    )
}

/// The active window that Hyprland describes.
pub fn hyprland_window(described: &Json) -> (window: Option<Extents>)
    ensures
        window == spec_hyprland_window(described@),
{
    let at = described.member("at");
    let size = described.member("size");
    rectangle(
        get_number_at(at, 0),
        get_number_at(at, 1),
        get_number_at(size, 0),
        get_number_at(size, 1),
    )
}

/// Reads the active window from what `hyprctl activewindow -j` printed.
pub fn hyprland_active_window(output: &[u8]) -> (window: Option<Extents>)
    ensures
        window == match spec_parse(output@) {
            Some(described) => spec_hyprland_window(described),
            None => None,
        },
{
    match parse(output) {
        Some(described) => hyprland_window(&described),
        None => None,
    }
}

/// The rectangle that a node of Sway's tree gives as its `rect`.
pub open spec fn spec_rect(rect: JsonView) -> Option<Extents> {
    spec_rectangle(
        number_of(rect, "x"@),
        number_of(rect, "y"@),
        number_of(rect, "width"@),
        number_of(rect, "height"@),
    )
}

/// Whether a node of Sway's tree says that it is focused.
pub open spec fn spec_is_focused(node: JsonView) -> bool {
    node.member("focused"@) == Some(JsonView::Bool(true))
}

/// The items of an array that is a member of a node are part of the node.
pub proof fn lemma_items_are_part(node: JsonView, key: Seq<char>)
    ensures
        node.items(key).len() > 0 ==> decreases_to!(node => node.items(key)),
{
    if node.items(key).len() > 0 {
        let members = node->Object_0;
        lemma_member_is_part(members, key, 0);
    }
}

/// A member found is part of the members.
proof fn lemma_member_is_part(members: Seq<(Seq<char>, JsonView)>, key: Seq<char>, from: int)
    requires
        0 <= from,
    ensures
        member_from(members, key, from) matches Some(value) ==> decreases_to!(members => value),
    decreases members.len() - from,
{
    if from < members.len() {
        if members[from].0 == key {
            axiom_seq_index_decreases(members, from);
        } else {
            lemma_member_is_part(members, key, from + 1);
        }
    }
}

/// The rectangle of the focused window in Sway's tree below `node`: that of
/// `node` itself if it is focused and has a `rect`; else the first found
/// below its `nodes`; else the first found below its `floating_nodes`.
pub open spec fn spec_find_focused(node: JsonView) -> Option<Extents>
    decreases node,
{
    if spec_is_focused(node) && node.member("rect"@) is Some {
        spec_rect(node.member("rect"@)->0)
    } else {
        let tiled = if node.items("nodes"@).len() > 0 {
            proof {
                lemma_items_are_part(node, "nodes"@);
            }
            spec_find_among(node.items("nodes"@), 0)
        } else {
            None
        };
        if tiled is Some {
            tiled
        } else if node.items("floating_nodes"@).len() > 0 {
            proof {
                lemma_items_are_part(node, "floating_nodes"@);
            }
            spec_find_among(node.items("floating_nodes"@), 0)
        } else {
            None
        }
    }
}

/// The rectangle of the focused window below the first of `nodes`, from
/// position `from` on, that has one.
pub open spec fn spec_find_among(nodes: Seq<JsonView>, from: int) -> Option<Extents>
    decreases nodes, nodes.len() - from,
{
    if 0 <= from < nodes.len() {
        proof {
            axiom_seq_index_decreases(nodes, from);
        }
        match spec_find_focused(nodes[from]) {
            Some(found) => Some(found),
            None => spec_find_among(nodes, from + 1),
        }
    } else {
        None
    }
}

/// The rectangle that a node of Sway's tree gives as its `rect`.
fn rect(node: &Json) -> (made: Option<Extents>)
    ensures
        made == spec_rect(node@),
{
    rectangle(
        get_number_of(node, "x"),
        get_number_of(node, "y"),
        get_number_of(node, "width"),
        get_number_of(node, "height"),
    )
}

/// The rectangle of the focused window below the array that is the member
/// `key` of `node`.
fn find_below(node: &Json, key: &str) -> (found: Option<Extents>)
    ensures
        found == if node@.items(key@).len() > 0 {
            spec_find_among(node@.items(key@), 0)
        } else {
            None
        },
    decreases node, 0int,
{
    let holder = match node.member(key) {
        Some(holder) => holder,
        None => {
            return None;
        },
    };
    match holder {
        Json::Array(items) => {
            proof {
                lemma_view(*holder);
            }
            let ghost views = node@.items(key@);
            let mut i: usize = 0;
            while i < items.len()
                invariant
                    i <= items@.len(),
                    decreases_to!(node => items),
                    views == node@.items(key@),
                    views.len() == items@.len(),
                    forall|k: int| 0 <= k < items@.len() ==> views[k] == items@[k]@,
                    spec_find_among(views, 0) == spec_find_among(views, i as int),
                decreases items@.len() - i,
            {
                proof {
                    axiom_vec_index_decreases(*items, i as int);
                }
                match find_focused(&items[i]) {
                    Some(found) => {
                        return Some(found);
                    },
                    None => {},
                }
                i = i + 1;
            }
            None
        },
        _ => None,
    }
}

/// Searches Sway's tree for the focused window and gives its rectangle.
pub fn find_focused(node: &Json) -> (found: Option<Extents>)
    ensures
        found == spec_find_focused(node@),
    decreases node, 1int,
{
    let focused = match node.member("focused") {
        Some(Json::Bool(flag)) => *flag,
        _ => false,
    };
    if focused {
        match node.member("rect") {
            Some(given) => {
                return rect(given);
            },
            None => {},
        }
    }
    match find_below(node, "nodes") {
        Some(found) => Some(found),
        None => find_below(node, "floating_nodes"),
    }
}

/// Reads the focused window from what `swaymsg -t get_tree` printed.
pub fn sway_active_window(output: &[u8]) -> (window: Option<Extents>)
    ensures
        window == match spec_parse(output@) {
            Some(tree) => spec_find_focused(tree),
            None => None,
        },
{
    match parse(output) {
        Some(tree) => find_focused(&tree),
        None => None,
    }
}

} // verus!
