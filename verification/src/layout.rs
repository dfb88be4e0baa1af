//! Layout vocabulary (flex-box style directions and alignments), window
//! placement, the context of declaratively built dialogs, and the taskbar
//! progress states.
use vstd::prelude::*;
use crate::components::trunc_div;

verus! {

/// The main axis of a container.
#[derive(Clone, Copy, Debug, PartialEq, Eq, Structural)]
pub enum Direction {
    Horizontal,
    Vertical,
}

/// Cross-axis alignment of items.
#[derive(Clone, Copy, Debug, PartialEq, Eq, Structural)]
pub enum AlignItems {
    Stretch,
    FlexStart,
    FlexEnd,
    Center,
}

/// Main-axis distribution of items.
#[derive(Clone, Copy, Debug, PartialEq, Eq, Structural)]
pub enum JustifyContent {
    FlexStart,
    FlexEnd,
    Center,
    SpaceBetween,
    SpaceAround,
    SpaceEvenly,
}

/// Whether items wrap onto further lines.
#[derive(Clone, Copy, Debug, PartialEq, Eq, Structural)]
pub enum FlexWrap {
    NoWrap,
    Wrap,
}

/// Distribution of wrapped lines.
#[derive(Clone, Copy, Debug, PartialEq, Eq, Structural)]
pub enum AlignContent {
    Stretch,
    FlexStart,
    FlexEnd,
    Center,
    SpaceBetween,
    SpaceAround,
}

/// Where a new window goes.
#[derive(Clone, Copy, Debug, PartialEq, Eq, Structural)]
pub enum WindowAlignment {
    CenterOnParent,
    CenterOnScreen,
    Manual(i32, i32),
}

/// The top-left corner of a new window of `width` by `height`: as given, centred
/// on the screen, or centred on the parent's rectangle (left, top, right,
/// bottom) when there is a parent and on the screen when there is none.
pub open spec fn window_origin_spec(
    alignment: WindowAlignment,
    width: int,
    height: int,
    parent: Option<(i32, i32, i32, i32)>,
    screen: (i32, i32),
) -> (int, int) {
    let on_screen = (trunc_div(screen.0 - width, 2), trunc_div(screen.1 - height, 2));
    match alignment {
        WindowAlignment::Manual(x, y) => (x as int, y as int),
        WindowAlignment::CenterOnScreen => on_screen,
        WindowAlignment::CenterOnParent => match parent {
            Some((l, t, r, b)) => (l + trunc_div((r - l) - width, 2), t + trunc_div((b - t) - height, 2)),
            None => on_screen,
        },
    }
}

/// Whether every intermediate of the placement fits in `i32`.
pub open spec fn window_origin_fits(width: i32, height: i32, parent: Option<(i32, i32, i32, i32)>, screen: (i32, i32)) -> bool {
    &&& i32::MIN <= screen.0 - width <= i32::MAX
    &&& i32::MIN <= screen.1 - height <= i32::MAX
    &&& match parent {
        Some((l, t, r, b)) => {
            &&& i32::MIN <= r - l <= i32::MAX
            &&& i32::MIN <= b - t <= i32::MAX
            &&& i32::MIN <= (r - l) - width <= i32::MAX
            &&& i32::MIN <= (b - t) - height <= i32::MAX
            &&& i32::MIN <= l + trunc_div((r - l) - width, 2) <= i32::MAX
            &&& i32::MIN <= t + trunc_div((b - t) - height, 2) <= i32::MAX
        },
        None => true,
    }
}

/// The top-left corner of a new window (see `window_origin_spec`).
pub fn window_origin(
    alignment: WindowAlignment,
    width: i32,
    height: i32,
    parent: Option<(i32, i32, i32, i32)>,
    screen: (i32, i32),
) -> (r: (i32, i32))
    requires
        window_origin_fits(width, height, parent, screen),
    ensures
        (r.0 as int, r.1 as int) == window_origin_spec(alignment, width as int, height as int, parent, screen),
{
    match alignment {
        WindowAlignment::Manual(x, y) => (x, y),
        WindowAlignment::CenterOnScreen => ((screen.0 - width) / 2, (screen.1 - height) / 2),
        WindowAlignment::CenterOnParent => match parent {
            Some((l, t, r, b)) => {
                let pw = r - l;
                let ph = b - t;
                (l + (pw - width) / 2, t + (ph - height) / 2)
            },
            None => ((screen.0 - width) / 2, (screen.1 - height) / 2),
        },
    }
}

/// What declaratively built controls share: their parent window, the theme and the font.
#[derive(Clone, Copy, Debug)]
pub struct DeclarativeContext {
    pub parent_hwnd: isize,
    pub is_dark: bool,
    pub h_font: isize,
}

impl DeclarativeContext {
    pub fn new(parent: isize, is_dark: bool, h_font: isize) -> (r: Self)
        ensures
            r == (DeclarativeContext { parent_hwnd: parent, is_dark, h_font }),
    {
        DeclarativeContext { parent_hwnd: parent, is_dark, h_font }
    }
}

/// The progress shown on the taskbar button.
#[derive(Clone, Copy, Debug, PartialEq, Eq, Structural)]
pub enum TaskbarState {
    NoProgress,
    Indeterminate,
    Normal,
    Error,
    Paused,
}

/// The taskbar progress flag of a state.
pub fn taskbar_flag(state: TaskbarState) -> (r: i32)
    ensures
        r == match state {
            TaskbarState::NoProgress => 0i32,
            TaskbarState::Indeterminate => 1i32,
            TaskbarState::Normal => 2i32,
            TaskbarState::Error => 4i32,
            TaskbarState::Paused => 8i32,
        },
{
    match state {
        TaskbarState::NoProgress => 0,
        TaskbarState::Indeterminate => 1,
        TaskbarState::Normal => 2,
        TaskbarState::Error => 4,
        TaskbarState::Paused => 8,
    }
}

} // verus!
