//! Thin records of control handles, one type per kind of control, and the
//! message values their operations send.
use vstd::prelude::*;

verus! {

/// A button, check box or radio button.
#[derive(Clone, Copy, Debug)]
pub struct Button {
    hwnd: isize,
}

/// A combo box.
#[derive(Clone, Copy, Debug)]
pub struct ComboBox {
    hwnd: isize,
}

/// A static text.
#[derive(Clone, Copy, Debug)]
pub struct Label {
    hwnd: isize,
}

/// A progress bar.
#[derive(Clone, Copy, Debug)]
pub struct ProgressBar {
    hwnd: isize,
}

/// A slider.
#[derive(Clone, Copy, Debug)]
pub struct Trackbar {
    hwnd: isize,
}

/// A list view.
#[derive(Clone, Copy, Debug)]
pub struct ListView {
    hwnd: isize,
}

impl Button {
    /// The control's handle.
    pub closed spec fn handle(&self) -> isize {
        self.hwnd
    }

    pub fn new(hwnd: isize) -> (r: Self)
        ensures
            r.handle() == hwnd,
    {
        Button { hwnd }
    }

    pub fn hwnd(&self) -> (r: isize)
        ensures
            r == self.handle(),
    {
        self.hwnd
    }
}

impl ComboBox {
    /// The control's handle.
    pub closed spec fn handle(&self) -> isize {
        self.hwnd
    }

    pub fn new(hwnd: isize) -> (r: Self)
        ensures
            r.handle() == hwnd,
    {
        ComboBox { hwnd }
    }

    pub fn hwnd(&self) -> (r: isize)
        ensures
            r == self.handle(),
    {
        self.hwnd
    }
}

impl Label {
    /// The control's handle.
    pub closed spec fn handle(&self) -> isize {
        self.hwnd
    }

    pub fn new(hwnd: isize) -> (r: Self)
        ensures
            r.handle() == hwnd,
    {
        Label { hwnd }
    }

    pub fn hwnd(&self) -> (r: isize)
        ensures
            r == self.handle(),
    {
        self.hwnd
    }
}

impl ProgressBar {
    /// The control's handle.
    pub closed spec fn handle(&self) -> isize {
        self.hwnd
    }

    pub fn new(hwnd: isize) -> (r: Self)
        ensures
            r.handle() == hwnd,
    {
        ProgressBar { hwnd }
    }

    pub fn hwnd(&self) -> (r: isize)
        ensures
            r == self.handle(),
    {
        self.hwnd
    }
}

impl Trackbar {
    /// The control's handle.
    pub closed spec fn handle(&self) -> isize {
        self.hwnd
    }

    pub fn new(hwnd: isize) -> (r: Self)
        ensures
            r.handle() == hwnd,
    {
        Trackbar { hwnd }
    }

    pub fn hwnd(&self) -> (r: isize)
        ensures
            r == self.handle(),
    {
        self.hwnd
    }
}

impl ListView {
    /// The control's handle.
    pub closed spec fn handle(&self) -> isize {
        self.hwnd
    }

    pub fn new(hwnd: isize) -> (r: Self)
        ensures
            r.handle() == hwnd,
    {
        ListView { hwnd }
    }

    pub fn hwnd(&self) -> (r: isize)
        ensures
            r == self.handle(),
    {
        self.hwnd
    }
}

/// The `lParam` of a slider's range message: the minimum in the low word,
/// the maximum in the high word.
pub fn trackbar_range_lparam(min: u32, max: u32) -> (r: u32)
    ensures
        r == ((min & 0xFFFF) | ((max << 16u32) & 0xFFFF0000)),
        r & 0xFFFF == min & 0xFFFF,
        r >> 16u32 == max & 0xFFFF,
{
    let r = (min & 0xFFFF) | ((max << 16) & 0xFFFF0000);
    assert(r & 0xFFFF == min & 0xFFFF && r >> 16u32 == max & 0xFFFF) by (bit_vector)
        requires
            r == ((min & 0xFFFF) | ((max << 16u32) & 0xFFFF0000));
    r
}

/// The `wParam` that sets a check box: 1 checked, 0 not.
pub fn check_state_wparam(checked: bool) -> (r: usize)
    ensures
        r == (if checked { 1usize } else { 0usize }),
{
    if checked {
        1
    } else {
        0
    }
}

/// Whether the answer to a get-check message means checked.
pub fn is_checked_answer(answer: isize) -> (r: bool)
    ensures
        r == (answer == 1),
{
    answer == 1
}

/// The low and the high word of a message parameter (as in a size message).
pub fn split_words(lparam: isize) -> (r: (i32, i32))
    ensures
        r.0 == (lparam & 0xFFFF) as i32,
        r.1 == ((lparam >> 16isize) & 0xFFFF) as i32,
        0 <= r.0 <= 0xFFFF,
        0 <= r.1 <= 0xFFFF,
{
    let lo = lparam & 0xFFFF;
    let hi = (lparam >> 16) & 0xFFFF;
    assert(0 <= lo <= 0xFFFF && 0 <= hi <= 0xFFFF) by (bit_vector)
        requires
            lo == lparam & 0xFFFF,
            hi == (lparam >> 16isize) & 0xFFFF;
    (lo as i32, hi as i32)
}

} // verus!
