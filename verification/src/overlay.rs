//! What the overlay decides: where it sits, where a hint is drawn, and what
//! a key press leads to.
//!
//! Drawing and the window itself are the caller's business.

use crate::hints::{Child, Extents, HintMap};
use crate::ipc::{Request, RequestView};
use vstd::prelude::*;

verus! {

/// The least width and height of the overlay window.
pub const MIN_WINDOW_SIDE: i32 = 100;

/// Pause between hiding the overlay and sending what a label led to, in
/// milliseconds.
pub const ACTION_DELAY_MS: u64 = 100;

/// `value` cut to the range of 32-bit numbers.
pub open spec fn spec_saturate(value: int) -> i32 {
    if value > i32::MAX {
        i32::MAX
    } else if value < i32::MIN {
        i32::MIN
    } else {
        value as i32
    }
}

/// Half of `value`, rounded towards zero.
pub open spec fn spec_half(value: int) -> int {
    if value >= 0 {
        value / 2
    } else {
        -((-value) / 2)
    }
}

fn saturate(value: i64) -> (cut: i32)
    ensures
        cut == spec_saturate(value as int),
{
    if value > i32::MAX as i64 {
        i32::MAX
    } else if value < i32::MIN as i64 {
        i32::MIN
    } else {
        value as i32
    }
}

fn half(value: i32) -> (halved: i64)
    ensures
        halved == spec_half(value as int),
{
    if value >= 0 {
        (value / 2) as i64
    } else {
        -((-(value as i64)) / 2)
    }
}

/// The place of the overlay window on screen.
#[derive(Debug, Clone, Copy, PartialEq, Eq, Structural)]
pub struct Layout {
    pub origin_x: i32,
    pub origin_y: i32,
    pub width: i32,
    pub height: i32,
    /// Whether the window sits on the focus region; else it starts at the
    /// screen's origin.
    pub anchored: bool,
}

/// The right edge of a target, cut to the range of 32-bit numbers.
pub open spec fn spec_right(child: Child) -> i32 {
    spec_saturate(child.absolute_x + child.width)
}

/// The lower edge of a target, cut to the range of 32-bit numbers.
pub open spec fn spec_bottom(child: Child) -> i32 {
    spec_saturate(child.absolute_y + child.height)
}

/// `limit` is the largest of 0 and `edge` of every target.
pub open spec fn is_reach(
    targets: Map<Seq<char>, Child>,
    edge: spec_fn(Child) -> i32,
    limit: i32,
) -> bool {
    &&& limit >= 0
    &&& forall|label: Seq<char>| #[trigger]
        targets.contains_key(label) ==> edge(targets[label]) <= limit
    &&& limit == 0 || exists|label: Seq<char>| #[trigger]
        targets.contains_key(label) && edge(targets[label]) == limit
}

/// The point that a click on `child` goes to: its middle.
pub open spec fn spec_click_point(child: Child) -> (i32, i32) {
    (
        spec_saturate(child.absolute_x + spec_half(child.width as int)),
        spec_saturate(child.absolute_y + spec_half(child.height as int)),
    )
}

/// The point that a click on `child` goes to: its middle.
pub fn click_point(child: Child) -> (point: (i32, i32))
    ensures
        point == spec_click_point(child),
{
    (
        saturate(child.absolute_x as i64 + half(child.width)),
        saturate(child.absolute_y as i64 + half(child.height)),
    )
}

impl Layout {
    /// The overlay covers the focus region, if there is one; else it
    /// reaches from the screen's origin to the furthest edges of the
    /// targets.
    pub fn new(focus: Option<Extents>, hints: &HintMap) -> (layout: Layout)
        ensures
            match focus {
                Some((x, y, width, height)) => layout == (Layout {
                    origin_x: x,
                    origin_y: y,
                    width,
                    height,
                    anchored: true,
                }),
                None => {
                    &&& layout.origin_x == 0
                    &&& layout.origin_y == 0
                    &&& !layout.anchored
                    &&& is_reach(hints@, |child: Child| spec_right(child), layout.width)
                    &&& is_reach(hints@, |child: Child| spec_bottom(child), layout.height)
                },
            },
    {
        match focus {
            Some((x, y, width, height)) => Layout {
                origin_x: x,
                origin_y: y,
                width,
                height,
                anchored: true,
            },
            None => {
                let entries = hints.entries();
                let mut width: i32 = 0;
                let mut height: i32 = 0;
                let mut i: usize = 0;
                while i < entries.len()
                    invariant
                        i <= entries@.len(),
                        width >= 0,
                        height >= 0,
                        forall|k: int| 0 <= k < i ==> spec_right((#[trigger] entries@[k]).1) <= width,
                        forall|k: int|
                            0 <= k < i ==> spec_bottom((#[trigger] entries@[k]).1) <= height,
                        width == 0 || exists|k: int|
                            0 <= k < i && spec_right((#[trigger] entries@[k]).1) == width,
                        height == 0 || exists|k: int|
                            0 <= k < i && spec_bottom((#[trigger] entries@[k]).1) == height,
                    decreases entries@.len() - i,
                {
                    let child = entries[i].1;
                    let right = saturate(child.absolute_x as i64 + child.width as i64);
                    let bottom = saturate(child.absolute_y as i64 + child.height as i64);
                    if right > width {
                        width = right;
                    }
                    if bottom > height {
                        height = bottom;
                    }
                    i = i + 1;
                }
                proof {
                    let right = |child: Child| spec_right(child);
                    let bottom = |child: Child| spec_bottom(child);
                    assert forall|label: Seq<char>| #[trigger] hints@.contains_key(label) implies right(
                        hints@[label],
                    ) <= width && bottom(hints@[label]) <= height by {
                        let k = choose|k: int| 0 <= k < entries@.len() && entries@[k].0@ == label;
                        assert(spec_right(entries@[k].1) <= width);
                        assert(spec_bottom(entries@[k].1) <= height);
                    }
                    if width != 0 {
                        let k = choose|k: int|
                            0 <= k < entries@.len() && spec_right((#[trigger] entries@[k]).1)
                                == width;
                        assert(hints@.contains_key(entries@[k].0@) && right(
                            hints@[entries@[k].0@],
                        ) == width);
                    }
                    if height != 0 {
                        let k = choose|k: int|
                            0 <= k < entries@.len() && spec_bottom((#[trigger] entries@[k]).1)
                                == height;
                        assert(hints@.contains_key(entries@[k].0@) && bottom(
                            hints@[entries@[k].0@],
                        ) == height);
                    }
                }
                Layout { origin_x: 0, origin_y: 0, width, height, anchored: false }
            },
        }
    }

    /// The size of the window: that of the layout, but no side under
    /// `MIN_WINDOW_SIDE`.
    pub fn window_size(&self) -> (size: (i32, i32))
        ensures
            size.0 == if self.width > MIN_WINDOW_SIDE {
                self.width
            } else {
                MIN_WINDOW_SIDE
            },
            size.1 == if self.height > MIN_WINDOW_SIDE {
                self.height
            } else {
                MIN_WINDOW_SIDE
            },
    {
        (
            if self.width > MIN_WINDOW_SIDE {
                self.width
            } else {
                MIN_WINDOW_SIDE
            },
            if self.height > MIN_WINDOW_SIDE {
                self.height
            } else {
                MIN_WINDOW_SIDE
            },
        )
    }

    /// Where the window goes on screen: its origin moved by the configured
    /// offsets.
    pub fn position(&self, x_offset: i32, y_offset: i32) -> (place: (i32, i32))
        ensures
            place == (
                spec_saturate(self.origin_x + x_offset),
                spec_saturate(self.origin_y + y_offset),
            ),
    {
        (
            saturate(self.origin_x as i64 + x_offset as i64),
            saturate(self.origin_y as i64 + y_offset as i64),
        )
    }

    /// The margins of the window within the monitor whose origin is
    /// `(monitor_x, monitor_y)`, left before top.
    pub fn margins(&self, monitor_x: i32, monitor_y: i32, x_offset: i32, y_offset: i32) -> (margins:
        (i32, i32))
        ensures
            margins == (
                spec_saturate(self.origin_x - monitor_x + x_offset),
                spec_saturate(self.origin_y - monitor_y + y_offset),
            ),
    {
        (
            saturate(self.origin_x as i64 - monitor_x as i64 + x_offset as i64),
            saturate(self.origin_y as i64 - monitor_y as i64 + y_offset as i64),
        )
    }

    /// The upper left corner of the hint for `child` within the window: the
    /// middle of the target, moved left by the padding and up by half the
    /// hint's height.
    pub fn hint_origin(
        &self,
        child: Child,
        x_offset: i32,
        y_offset: i32,
        width_padding: i32,
        hint_height: i32,
    ) -> (corner: (i32, i32))
        ensures
            corner == (
                spec_saturate(
                    child.absolute_x - (if self.anchored {
                        self.origin_x
                    } else {
                        0
                    }) + x_offset + spec_half(child.width as int) - width_padding,
                ),
                spec_saturate(
                    child.absolute_y - (if self.anchored {
                        self.origin_y
                    } else {
                        0
                    }) + y_offset + spec_half(child.height as int) - spec_half(
                        hint_height as int,
                    ),
                ),
            ),
    {
        let shift_x: i64 = if self.anchored {
            self.origin_x as i64
        } else {
            0
        };
        let shift_y: i64 = if self.anchored {
            self.origin_y as i64
        } else {
            0
        };
        (
            saturate(
                child.absolute_x as i64 - shift_x + x_offset as i64 + half(child.width)
                    - width_padding as i64,
            ),
            saturate(
                child.absolute_y as i64 - shift_y + y_offset as i64 + half(child.height) - half(
                    hint_height,
                ),
            ),
        )
    }
}

/// Whether the point lies on the monitor: its left and upper edges belong
/// to it, its right and lower edges do not.
pub open spec fn spec_on_monitor(monitor: Extents, x: i32, y: i32) -> bool {
    &&& x >= monitor.0
    &&& y >= monitor.1
    &&& x < monitor.0 + monitor.2
    &&& y < monitor.1 + monitor.3
}

/// The first monitor that the point `(x, y)` lies on.
pub fn monitor_for_point(monitors: &Vec<Extents>, x: i32, y: i32) -> (found: Option<usize>)
    ensures
        match found {
            Some(i) => {
                &&& i < monitors@.len()
                &&& spec_on_monitor(monitors@[i as int], x, y)
                &&& forall|k: int| 0 <= k < i ==> !spec_on_monitor(monitors@[k], x, y)
            },
            None => forall|k: int| 0 <= k < monitors@.len() ==> !spec_on_monitor(monitors@[k], x, y),
        },
{
    let mut i: usize = 0;
    while i < monitors.len()
        invariant
            i <= monitors@.len(),
            forall|k: int| 0 <= k < i ==> !spec_on_monitor(monitors@[k], x, y),
        decreases monitors@.len() - i,
    {
        let (left, top, width, height) = monitors[i];
        if x >= left && y >= top && (x as i64) < left as i64 + width as i64 && (y as i64)
            < top as i64 + height as i64 {
            return Some(i);
        }
        i = i + 1;
    }
    None
}

/// A key press as the overlay sees it.
#[derive(Debug, Clone, Copy, PartialEq, Eq, Structural)]
pub struct KeyPress {
    /// The key's number.
    pub keyval: u32,
    /// The character that the key types, if it types one.
    pub unicode: Option<char>,
    pub shift: bool,
    pub alt: bool,
    pub control: bool,
}

/// The configured keys and step sizes.
#[derive(Debug, Clone, Copy, PartialEq, Eq, Structural)]
pub struct KeyBindings {
    /// The key that closes the overlay.
    pub exit_key: u32,
    /// How far a movement key moves the pointer.
    pub move_pixel_sensitivity: i32,
    /// How far a movement key scrolls.
    pub scroll_pixel_sensitivity: i32,
}

/// What a key press leads to.
#[derive(Debug, Clone, PartialEq, Eq)]
pub enum Reaction {
    /// Nothing to do but wait for the next key.
    Nothing,
    /// Close the overlay.
    Close,
    /// Send the request; the overlay stays.
    Send(Request),
    /// Hide the overlay, wait `ACTION_DELAY_MS`, send the requests in order,
    /// and quit.
    Finish(Vec<Request>),
}

/// A reaction as a mathematical value.
pub enum ReactionView {
    Nothing,
    Close,
    Send(RequestView),
    Finish(Seq<RequestView>),
}

/// The views of a sequence of requests.
pub open spec fn request_views(requests: Seq<Request>) -> Seq<RequestView> {
    Seq::new(requests.len(), |i: int| requests[i]@)
}

impl View for Reaction {
    type V = ReactionView;

    open spec fn view(&self) -> ReactionView {
        match self {
            Reaction::Nothing => ReactionView::Nothing,
            Reaction::Close => ReactionView::Close,
            Reaction::Send(request) => ReactionView::Send(request@),
            Reaction::Finish(requests) => ReactionView::Finish(request_views(requests@)),
        }
    }
}

/// What has been typed so far.
#[derive(Debug, Clone, PartialEq, Eq)]
pub struct Typing {
    /// The characters of the label typed so far.
    pub input: Vec<char>,
    /// The repeat count typed so far; 0 where none was typed.
    pub repeat_count: u32,
}

/// What has been typed so far, as a mathematical value.
pub struct TypingView {
    pub input: Seq<char>,
    pub repeat_count: u32,
}

impl View for Typing {
    type V = TypingView;

    open spec fn view(&self) -> TypingView {
        TypingView { input: self.input@, repeat_count: self.repeat_count }
    }
}

/// The lower-case form of an upper-case letter of the basic alphabet; any
/// other character as it is.
pub open spec fn spec_lower(c: char) -> char {
    if 'A' <= c && c <= 'Z' {
        ((c as u8 + 32) as u8) as char
    } else {
        c
    }
}

/// The four directions of the movement keys.
#[derive(Debug, Clone, Copy, PartialEq, Eq, Structural)]
pub enum Direction {
    Left,
    Down,
    Up,
    Right,
}

/// The direction that a movement key stands for: `h` left, `j` down, `k`
/// up, `l` right.
pub open spec fn spec_direction(c: char) -> Option<Direction> {
    if c == 'h' {
        Some(Direction::Left)
    } else if c == 'j' {
        Some(Direction::Down)
    } else if c == 'k' {
        Some(Direction::Up)
    } else if c == 'l' {
        Some(Direction::Right)
    } else {
        None
    }
}

/// The opposite of `amount`, cut to the range of 32-bit numbers.
pub open spec fn spec_opposite(amount: i32) -> i32 {
    spec_saturate(-amount)
}

/// A step of `amount` in a direction, horizontal part first.
pub open spec fn spec_step(direction: Direction, amount: i32) -> (i32, i32) {
    match direction {
        Direction::Left => (spec_opposite(amount), 0),
        Direction::Right => (amount, 0),
        Direction::Up => (0, spec_opposite(amount)),
        Direction::Down => (0, amount),
    }
}

/// The value of a decimal digit.
pub open spec fn spec_digit(c: char) -> Option<u32> {
    if '0' <= c && c <= '9' {
        Some((c as u32 - '0' as u32) as u32)
    } else {
        None
    }
}

/// The repeat count after one more digit, cut to the range of 32-bit
/// numbers.
pub open spec fn spec_more_repeat(count: u32, digit: u32) -> u32 {
    if count * 10 + digit > u32::MAX {
        u32::MAX
    } else {
        (count * 10 + digit) as u32
    }
}

/// The click of `button` at `point`, pressed and released `repeat` times.
pub open spec fn spec_click(point: (i32, i32), button: u16, repeat: u32) -> RequestView {
    RequestView::Click {
        x: point.0,
        y: point.1,
        button,
        button_states: seq![1i32, 0i32],
        repeat,
        absolute: true,
    }
}

/// The requests that drag to `point`: press where the pointer is, move, and
/// release there.
pub open spec fn spec_drag(point: (i32, i32)) -> Seq<RequestView> {
    seq![
        RequestView::Click {
            x: 0,
            y: 0,
            button: 0,
            button_states: seq![1i32],
            repeat: 1,
            absolute: false,
        },
        RequestView::Move { x: point.0, y: point.1, absolute: true },
        RequestView::Click {
            x: point.0,
            y: point.1,
            button: 0,
            button_states: seq![0i32],
            repeat: 1,
            absolute: true,
        },
    ]
}

/// What the label of `child` leads to, once it is typed in full: a right
/// click with shift or an upper-case letter, a drag with alt, a move with
/// control, else a left click. A click is repeated as often as was typed,
/// and once where nothing was.
pub open spec fn spec_chosen(child: Child, press: KeyPress, upper: bool, repeat_count: u32) -> Seq<
    RequestView,
> {
    let point = spec_click_point(child);
    let repeat = if repeat_count > 0 {
        repeat_count
    } else {
        1
    };
    if upper || press.shift {
        seq![spec_click(point, 2, repeat)]
    } else if press.alt {
        spec_drag(point)
    } else if press.control {
        seq![RequestView::Move { x: point.0, y: point.1, absolute: true }]
    } else {
        seq![spec_click(point, 0, repeat)]
    }
}

impl TypingView {
    /// What is typed after `press`, and what the press leads to.
    ///
    /// The exit key closes the overlay. A movement key moves the pointer,
    /// or scrolls with shift. A digit goes to the repeat count. Any other
    /// character goes to the label: if no label starts with what is typed,
    /// everything typed is forgotten; if a label is typed in full, the
    /// overlay finishes with what that label leads to.
    pub open spec fn key(
        self,
        press: KeyPress,
        bindings: KeyBindings,
        hints: Map<Seq<char>, Child>,
    ) -> (TypingView, ReactionView) {
        if press.keyval == bindings.exit_key {
            (self, ReactionView::Close)
        } else {
            match press.unicode {
                None => (self, ReactionView::Nothing),
                Some(c) => {
                    let lower = spec_lower(c);
                    let upper = 'A' <= c && c <= 'Z';
                    match spec_direction(lower) {
                        Some(direction) => if press.shift {
                            let step = spec_step(direction, bindings.scroll_pixel_sensitivity);
                            (self, ReactionView::Send(RequestView::Scroll { x: step.0, y: step.1 }))
                        } else {
                            let step = spec_step(direction, bindings.move_pixel_sensitivity);
                            (
                                self,
                                ReactionView::Send(
                                    RequestView::Move { x: step.0, y: step.1, absolute: false },
                                ),
                            )
                        },
                        None => match spec_digit(lower) {
                            Some(digit) => (
                                TypingView {
                                    repeat_count: spec_more_repeat(self.repeat_count, digit),
                                    ..self
                                },
                                ReactionView::Nothing,
                            ),
                            None => {
                                let typed = self.input.push(lower);
                                if !(exists|label: Seq<char>| #[trigger]
                                    hints.contains_key(label) && typed.is_prefix_of(label)) {
                                    (
                                        TypingView { input: Seq::empty(), repeat_count: 0 },
                                        ReactionView::Nothing,
                                    )
                                } else if hints.contains_key(typed) {
                                    (
                                        TypingView { input: typed, ..self },
                                        ReactionView::Finish(
                                            spec_chosen(
                                                hints[typed],
                                                press,
                                                upper,
                                                self.repeat_count,
                                            ),
                                        ),
                                    )
                                } else {
                                    (TypingView { input: typed, ..self }, ReactionView::Nothing)
                                }
                            },
                        },
                    }
                },
            }
        }
    }
}

fn lower(c: char) -> (l: char)
    ensures
        l == spec_lower(c),
{
    if c >= 'A' && c <= 'Z' {
        ((c as u8) + 32) as char
    } else {
        c
    }
}

fn direction(c: char) -> (d: Option<Direction>)
    ensures
        d == spec_direction(c),
{
    if c == 'h' {
        Some(Direction::Left)
    } else if c == 'j' {
        Some(Direction::Down)
    } else if c == 'k' {
        Some(Direction::Up)
    } else if c == 'l' {
        Some(Direction::Right)
    } else {
        None
    }
}

fn step(direction: Direction, amount: i32) -> (s: (i32, i32))
    ensures
        s == spec_step(direction, amount),
{
    match direction {
        Direction::Left => (saturate(-(amount as i64)), 0),
        Direction::Right => (amount, 0),
        Direction::Up => (0, saturate(-(amount as i64))),
        Direction::Down => (0, amount),
    }
}

fn digit(c: char) -> (d: Option<u32>)
    ensures
        d == spec_digit(c),
{
    if c >= '0' && c <= '9' {
        Some((c as u32) - ('0' as u32))
    } else {
        None
    }
}

fn more_repeat(count: u32, digit: u32) -> (more: u32)
    ensures
        more == spec_more_repeat(count, digit),
{
    let wide: u64 = count as u64 * 10 + digit as u64;
    if wide > u32::MAX as u64 {
        u32::MAX
    } else {
        wide as u32
    }
}

fn click(point: (i32, i32), button: u16, repeat: u32) -> (request: Request)
    ensures
        request@ == spec_click(point, button, repeat),
{
    let mut button_states: Vec<i32> = Vec::new();
    button_states.push(1);
    button_states.push(0);
    assert(button_states@ =~= seq![1i32, 0i32]);
    Request::Click { x: point.0, y: point.1, button, button_states, repeat, absolute: true }
}

fn drag(point: (i32, i32)) -> (requests: Vec<Request>)
    ensures
        request_views(requests@) == spec_drag(point),
{
    let mut down: Vec<i32> = Vec::new();
    down.push(1);
    let mut up: Vec<i32> = Vec::new();
    up.push(0);
    assert(down@ =~= seq![1i32]);
    assert(up@ =~= seq![0i32]);
    let mut requests: Vec<Request> = Vec::new();
    requests.push(
        Request::Click { x: 0, y: 0, button: 0, button_states: down, repeat: 1, absolute: false },
    );
    requests.push(Request::Move { x: point.0, y: point.1, absolute: true });
    requests.push(
        Request::Click {
            x: point.0,
            y: point.1,
            button: 0,
            button_states: up,
            repeat: 1,
            absolute: true,
        },
    );
    assert(request_views(requests@) =~= spec_drag(point));
    requests
}

/// What the label of `child` leads to, once it is typed in full.
pub fn chosen(child: Child, press: KeyPress, upper: bool, repeat_count: u32) -> (requests: Vec<
    Request,
>)
    ensures
        request_views(requests@) == spec_chosen(child, press, upper, repeat_count),
{
    let point = click_point(child);
    let repeat = if repeat_count > 0 {
        repeat_count
    } else {
        1
    };
    if upper || press.shift {
        let mut requests: Vec<Request> = Vec::new();
        requests.push(click(point, 2, repeat));
        assert(request_views(requests@) =~= seq![spec_click(point, 2, repeat)]);
        requests
    } else if press.alt {
        drag(point)
    } else if press.control {
        let mut requests: Vec<Request> = Vec::new();
        requests.push(Request::Move { x: point.0, y: point.1, absolute: true });
        assert(request_views(requests@) =~= seq![
            RequestView::Move { x: point.0, y: point.1, absolute: true },
        ]);
        requests
    } else {
        let mut requests: Vec<Request> = Vec::new();
        requests.push(click(point, 0, repeat));
        assert(request_views(requests@) =~= seq![spec_click(point, 0, repeat)]);
        requests
    }
}

impl Typing {
    /// Nothing typed yet.
    pub fn new() -> (typing: Typing)
        ensures
            typing@ == (TypingView { input: Seq::empty(), repeat_count: 0 }),
    {
        Typing { input: Vec::new(), repeat_count: 0 }
    }

    /// Takes a key press and says what it leads to.
    pub fn key(&mut self, press: KeyPress, bindings: KeyBindings, hints: &HintMap) -> (reaction:
        Reaction)
        ensures
            (final(self)@, reaction@) == old(self)@.key(press, bindings, hints@),
    {
        if press.keyval == bindings.exit_key {
            return Reaction::Close;
        }
        let c = match press.unicode {
            None => {
                return Reaction::Nothing;
            },
            Some(c) => c,
        };
        let low = lower(c);
        let upper = c >= 'A' && c <= 'Z';
        match direction(low) {
            Some(towards) => {
                if press.shift {
                    let (x, y) = step(towards, bindings.scroll_pixel_sensitivity);
                    return Reaction::Send(Request::Scroll { x, y });
                } else {
                    let (x, y) = step(towards, bindings.move_pixel_sensitivity);
                    return Reaction::Send(Request::Move { x, y, absolute: false });
                }
            },
            None => {},
        }
        match digit(low) {
            Some(value) => {
                self.repeat_count = more_repeat(self.repeat_count, value);
                return Reaction::Nothing;
            },
            None => {},
        }
        self.input.push(low);
        if !hints.has_prefix(self.input.as_slice()) {
            self.input.clear();
            self.repeat_count = 0;
            return Reaction::Nothing;
        }
        match hints.find(self.input.as_slice()) {
            Some(child) => Reaction::Finish(chosen(child, press, upper, self.repeat_count)),
            None => Reaction::Nothing,
        }
    }
}

} // verus!
