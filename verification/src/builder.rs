//! A builder for child controls: it gathers class, text, geometry and style;
//! the caller creates the window from it.
use vstd::prelude::*;
use crate::wide::{wz, to_wstring};
use crate::theme::ControlType;

verus! {

/// `WS_VISIBLE`.
pub const WS_VISIBLE: u32 = 0x1000_0000;
/// `WS_CHILD`.
pub const WS_CHILD: u32 = 0x4000_0000;
/// `WS_TABSTOP`.
pub const WS_TABSTOP: u32 = 0x0001_0000;
/// `WS_VSCROLL`.
pub const WS_VSCROLL: u32 = 0x0020_0000;
/// `WS_BORDER`.
pub const WS_BORDER: u32 = 0x0080_0000;
/// `BS_PUSHBUTTON`.
pub const BS_PUSHBUTTON: u32 = 0x0000;
/// `BS_AUTOCHECKBOX`.
pub const BS_AUTOCHECKBOX: u32 = 0x0003;
/// `BS_GROUPBOX`.
pub const BS_GROUPBOX: u32 = 0x0007;
/// `BS_AUTORADIOBUTTON`.
pub const BS_AUTORADIOBUTTON: u32 = 0x0009;
/// `CBS_DROPDOWNLIST`.
pub const CBS_DROPDOWNLIST: u32 = 0x0003;
/// `CBS_HASSTRINGS`.
pub const CBS_HASSTRINGS: u32 = 0x0200;
/// `SS_LEFT`.
pub const SS_LEFT: u32 = 0x0000;
/// `SS_CENTER`.
pub const SS_CENTER: u32 = 0x0001;
/// `SS_ICON`.
pub const SS_ICON: u32 = 0x0003;
/// `SS_REALSIZEIMAGE`.
pub const SS_REALSIZEIMAGE: u32 = 0x0800;
/// `SS_CENTERIMAGE`.
pub const SS_CENTERIMAGE: u32 = 0x0200;
/// `TBS_AUTOTICKS`.
pub const TBS_AUTOTICKS: u32 = 0x0001;
/// `ES_AUTOHSCROLL`.
pub const ES_AUTOHSCROLL: u32 = 0x0080;
/// `LVS_REPORT`.
pub const LVS_REPORT: u32 = 0x0001;
/// `LVS_SINGLESEL`.
pub const LVS_SINGLESEL: u32 = 0x0004;
/// `LVS_SHOWSELALWAYS`.
pub const LVS_SHOWSELALWAYS: u32 = 0x0008;

/// The settings of a child control to create. Window handles are carried as
/// their integer values.
pub struct ControlBuilder {
    pub parent: isize,
    pub id: u16,
    /// The window text, NUL-terminated UTF-16.
    pub text: Vec<u16>,
    pub x: i32,
    pub y: i32,
    pub w: i32,
    pub h: i32,
    /// The window class, NUL-terminated UTF-16.
    pub class_name: Vec<u16>,
    pub style: u32,
    pub ex_style: u32,
    pub is_dark: bool,
    /// The font to use instead of the application font.
    pub custom_font: Option<isize>,
    /// Whether the control starts checked.
    pub checked: bool,
}

/// The kind of control a builder makes, for theming. The button flags are
/// tested as masks, in this order.
pub open spec fn control_type_of(class_name: Seq<u16>, style: u32) -> ControlType {
    if class_name == wz("STATIC"@) {
        ControlType::GroupBox
    } else if class_name == wz("BUTTON"@) {
        if style & BS_GROUPBOX != 0 {
            ControlType::GroupBox
        } else if style & BS_AUTOCHECKBOX != 0 {
            ControlType::CheckBox
        } else if style & BS_AUTORADIOBUTTON != 0 {
            ControlType::RadioButton
        } else {
            ControlType::Button
        }
    } else if class_name == wz("COMBOBOX"@) {
        ControlType::ComboBox
    } else if class_name == wz("msctls_trackbar32"@) {
        ControlType::Trackbar
    } else if class_name == wz("EDIT"@) {
        ControlType::Edit
    } else if class_name == wz("SysListView32"@) {
        ControlType::List
    } else {
        ControlType::Button
    }
}

fn units_eq(a: &Vec<u16>, b: &Vec<u16>) -> (r: bool)
    ensures
        r == (a@ == b@),
{
    if a.len() != b.len() {
        return false;
    }
    let mut i: usize = 0;
    while i < a.len()
        invariant
            a@.len() == b@.len(),
            0 <= i <= a@.len(),
            forall|k: int| 0 <= k < i ==> a@[k] == b@[k],
        decreases a@.len() - i,
    {
        if a[i] != b[i] {
            return false;
        }
        i += 1;
    }
    assert(a@ =~= b@);
    true
}

impl ControlBuilder {
    /// A visible child push button of 100 by 25 at the origin, with no text.
    pub fn new(parent: isize, id: u16) -> (r: Self)
        ensures
            r.parent == parent,
            r.id == id,
            r.text@ == wz(""@),
            r.x == 0 && r.y == 0 && r.w == 100 && r.h == 25,
            r.class_name@ == wz("BUTTON"@),
            r.style == WS_VISIBLE | WS_CHILD,
            r.ex_style == 0,
            !r.is_dark,
            r.custom_font is None,
            !r.checked,
    {
        ControlBuilder {
            parent,
            id,
            text: to_wstring(""),
            x: 0,
            y: 0,
            w: 100,
            h: 25,
            class_name: to_wstring("BUTTON"),
            style: WS_VISIBLE | WS_CHILD,
            ex_style: 0,
            is_dark: false,
            custom_font: None,
            checked: false,
        }
    }

    /// Sets the text.
    pub fn text(self, text: &str) -> (r: Self)
        ensures
            r == (ControlBuilder { text: r.text, ..self }),
            r.text@ == wz(text@),
    {
        let mut b = self;
        b.text = to_wstring(text);
        b
    }

    /// Sets the text from UTF-16 units (given with their terminating NUL).
    pub fn text_w(self, text: &[u16]) -> (r: Self)
        ensures
            r == (ControlBuilder { text: r.text, ..self }),
            r.text@ == text@,
    {
        let mut b = self;
        b.text = vstd::slice::slice_to_vec(text);
        b
    }

    /// Sets the position.
    pub fn pos(self, x: i32, y: i32) -> (r: Self)
        ensures
            r == (ControlBuilder { x, y, ..self }),
    {
        let mut b = self;
        b.x = x;
        b.y = y;
        b
    }

    /// Sets the size.
    pub fn size(self, w: i32, h: i32) -> (r: Self)
        ensures
            r == (ControlBuilder { w, h, ..self }),
    {
        let mut b = self;
        b.w = w;
        b.h = h;
        b
    }

    /// Adds style flags.
    pub fn style(self, style: u32) -> (r: Self)
        ensures
            r == (ControlBuilder { style: self.style | style, ..self }),
    {
        let mut b = self;
        b.style = b.style | style;
        b
    }

    /// Chooses dark or light theming.
    pub fn dark_mode(self, is_dark: bool) -> (r: Self)
        ensures
            r == (ControlBuilder { is_dark, ..self }),
    {
        let mut b = self;
        b.is_dark = is_dark;
        b
    }

    /// Uses `font` in place of the application font.
    pub fn font(self, font: isize) -> (r: Self)
        ensures
            r == (ControlBuilder { custom_font: Some(font), ..self }),
    {
        let mut b = self;
        b.custom_font = Some(font);
        b
    }

    /// Makes the control start checked or not.
    pub fn checked(self, checked: bool) -> (r: Self)
        ensures
            r == (ControlBuilder { checked, ..self }),
    {
        let mut b = self;
        b.checked = checked;
        b
    }

    /// A push button that takes the focus by tab.
    pub fn button(self) -> (r: Self)
        ensures
            r == (ControlBuilder { class_name: r.class_name, style: self.style | (BS_PUSHBUTTON | WS_TABSTOP), ..self }),
            r.class_name@ == wz("BUTTON"@),
    {
        let mut b = self;
        b.class_name = to_wstring("BUTTON");
        b.style = b.style | (BS_PUSHBUTTON | WS_TABSTOP);
        b
    }

    /// A check box.
    pub fn checkbox(self) -> (r: Self)
        ensures
            r == (ControlBuilder { class_name: r.class_name, style: self.style | (BS_AUTOCHECKBOX | WS_TABSTOP), ..self }),
            r.class_name@ == wz("BUTTON"@),
    {
        let mut b = self;
        b.class_name = to_wstring("BUTTON");
        b.style = b.style | (BS_AUTOCHECKBOX | WS_TABSTOP);
        b
    }

    /// A drop-down list.
    pub fn combobox(self) -> (r: Self)
        ensures
            r == (ControlBuilder {
                class_name: r.class_name,
                style: self.style | (CBS_DROPDOWNLIST | CBS_HASSTRINGS | WS_TABSTOP | WS_VSCROLL),
                ..self
            }),
            r.class_name@ == wz("COMBOBOX"@),
    {
        let mut b = self;
        b.class_name = to_wstring("COMBOBOX");
        b.style = b.style | (CBS_DROPDOWNLIST | CBS_HASSTRINGS | WS_TABSTOP | WS_VSCROLL);
        b
    }

    /// A static text, centred or left-aligned.
    pub fn label(self, align_center: bool) -> (r: Self)
        ensures
            r == (ControlBuilder {
                class_name: r.class_name,
                style: self.style | (if align_center { SS_CENTER } else { SS_LEFT }),
                ..self
            }),
            r.class_name@ == wz("STATIC"@),
    {
        let mut b = self;
        b.class_name = to_wstring("STATIC");
        b.style = b.style | (if align_center { SS_CENTER } else { SS_LEFT });
        b
    }

    /// A group box.
    pub fn groupbox(self) -> (r: Self)
        ensures
            r == (ControlBuilder { class_name: r.class_name, style: self.style | BS_GROUPBOX, ..self }),
            r.class_name@ == wz("BUTTON"@),
    {
        let mut b = self;
        b.class_name = to_wstring("BUTTON");
        b.style = b.style | BS_GROUPBOX;
        b
    }

    /// A static control showing an icon, centred at its real size.
    pub fn icon_display(self) -> (r: Self)
        ensures
            r == (ControlBuilder {
                class_name: r.class_name,
                style: self.style | (SS_ICON | SS_REALSIZEIMAGE | SS_CENTERIMAGE),
                ..self
            }),
            r.class_name@ == wz("STATIC"@),
    {
        let mut b = self;
        b.class_name = to_wstring("STATIC");
        b.style = b.style | (SS_ICON | SS_REALSIZEIMAGE | SS_CENTERIMAGE);
        b
    }

    /// A radio button.
    pub fn radio(self) -> (r: Self)
        ensures
            r == (ControlBuilder { class_name: r.class_name, style: self.style | (BS_AUTORADIOBUTTON | WS_TABSTOP), ..self }),
            r.class_name@ == wz("BUTTON"@),
    {
        let mut b = self;
        b.class_name = to_wstring("BUTTON");
        b.style = b.style | (BS_AUTORADIOBUTTON | WS_TABSTOP);
        b
    }

    /// A slider with tick marks.
    pub fn trackbar(self) -> (r: Self)
        ensures
            r == (ControlBuilder { class_name: r.class_name, style: self.style | (TBS_AUTOTICKS | WS_TABSTOP), ..self }),
            r.class_name@ == wz("msctls_trackbar32"@),
    {
        let mut b = self;
        b.class_name = to_wstring("msctls_trackbar32");
        b.style = b.style | (TBS_AUTOTICKS | WS_TABSTOP);
        b
    }

    /// A bordered one-line edit box that scrolls horizontally.
    pub fn edit(self) -> (r: Self)
        ensures
            r == (ControlBuilder {
                class_name: r.class_name,
                style: self.style | (WS_BORDER | WS_TABSTOP | ES_AUTOHSCROLL),
                ..self
            }),
            r.class_name@ == wz("EDIT"@),
    {
        let mut b = self;
        b.class_name = to_wstring("EDIT");
        b.style = b.style | (WS_BORDER | WS_TABSTOP | ES_AUTOHSCROLL);
        b
    }

    /// A bordered report list with single selection, selection always shown.
    pub fn listview(self) -> (r: Self)
        ensures
            r == (ControlBuilder {
                class_name: r.class_name,
                style: self.style | (WS_BORDER | WS_TABSTOP | LVS_REPORT | LVS_SINGLESEL | LVS_SHOWSELALWAYS),
                ..self
            }),
            r.class_name@ == wz("SysListView32"@),
    {
        let mut b = self;
        b.class_name = to_wstring("SysListView32");
        b.style = b.style | (WS_BORDER | WS_TABSTOP | LVS_REPORT | LVS_SINGLESEL | LVS_SHOWSELALWAYS);
        b
    }

    /// The style the window is created with (without `WS_VISIBLE`), and
    /// whether it is shown once it is set up.
    pub fn creation_style(&self) -> (r: (u32, bool))
        ensures
            r.0 == self.style & !WS_VISIBLE,
            r.1 == (self.style & WS_VISIBLE != 0),
    {
        (self.style & !WS_VISIBLE, self.style & WS_VISIBLE != 0)
    }

    /// The kind of control this builder makes (see `control_type_of`).
    pub fn detect_control_type(&self) -> (r: ControlType)
        ensures
            r == control_type_of(self.class_name@, self.style),
    {
        if units_eq(&self.class_name, &to_wstring("STATIC")) {
            ControlType::GroupBox
        } else if units_eq(&self.class_name, &to_wstring("BUTTON")) {
            if self.style & BS_GROUPBOX != 0 {
                ControlType::GroupBox
            } else if self.style & BS_AUTOCHECKBOX != 0 {
                ControlType::CheckBox
            } else if self.style & BS_AUTORADIOBUTTON != 0 {
                ControlType::RadioButton
            } else {
                ControlType::Button
            }
        } else if units_eq(&self.class_name, &to_wstring("COMBOBOX")) {
            ControlType::ComboBox
        } else if units_eq(&self.class_name, &to_wstring("msctls_trackbar32")) {
            ControlType::Trackbar
        } else if units_eq(&self.class_name, &to_wstring("EDIT")) {
            ControlType::Edit
        } else if units_eq(&self.class_name, &to_wstring("SysListView32")) {
            ControlType::List
        } else {
            ControlType::Button
        }
    }
}

} // verus!
