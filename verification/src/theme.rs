//! Theme decisions: which visual style each kind of control gets in light
//! and dark mode, how a child control is classified from its window class,
//! and how the standard colour messages are answered.
use vstd::prelude::*;
use crate::text::{to_lowercase, lowercase, collect_chars, chars_eq};

verus! {

/// Dark background (0x00BBGGRR).
pub const COLOR_DARK_BG: u32 = 0x001E1E1E;
/// Text on a dark background.
pub const COLOR_DARK_TEXT: u32 = 0x00FFFFFF;
/// Light background.
pub const COLOR_LIGHT_BG: u32 = 0x00FFFFFF;
/// Text on a light background.
pub const COLOR_LIGHT_TEXT: u32 = 0x00000000;
/// List background in dark mode.
pub const COLOR_LIST_BG_DARK: u32 = 0x00202020;
/// List text in dark mode.
pub const COLOR_LIST_TEXT_DARK: u32 = 0x00FFFFFF;
/// List background in light mode.
pub const COLOR_LIST_BG_LIGHT: u32 = 0x00FFFFFF;
/// List text in light mode.
pub const COLOR_LIST_TEXT_LIGHT: u32 = 0x00000000;
/// Header text in dark mode.
pub const COLOR_HEADER_TEXT_DARK: u32 = 0x00FFFFFF;

/// The kind of a control, for theming.
#[derive(Clone, Copy, Debug, PartialEq, Eq, Structural)]
pub enum ControlType {
    Window,
    Button,
    AccentButton,
    List,
    CheckBox,
    ComboBox,
    Header,
    GroupBox,
    RadioButton,
    ItemsView,
    Trackbar,
    Edit,
    ProgressBar,
}

/// A component that restyles itself when the theme changes.
pub trait ThemeAware {
    fn on_theme_change(&mut self, is_dark: bool);
}

/// The visual-style name a control gets (empty: classic drawing).
pub open spec fn theme_name(ct: ControlType, is_dark: bool) -> Seq<char> {
    if is_dark {
        match ct {
            ControlType::ComboBox => "DarkMode_CFD"@,
            ControlType::Header => "DarkMode_ItemsView"@,
            ControlType::ItemsView => "DarkMode_ItemsView"@,
            ControlType::GroupBox => ""@,
            ControlType::RadioButton => "Explorer"@,
            ControlType::Trackbar => ""@,
            ControlType::ProgressBar => ""@,
            _ => "DarkMode_Explorer"@,
        }
    } else {
        "Explorer"@
    }
}

/// How to style a control.
#[derive(Clone, Copy, Debug)]
pub struct ThemePlan {
    /// The visual-style name handed to the system.
    pub theme: &'static str,
    /// Whether the empty name also goes as the sub-application list (which
    /// turns visual styles off); otherwise no list is given.
    pub empty_sub_app: bool,
    /// Whether the control is told at once that its theme changed.
    pub notify_change: bool,
}

/// The styling of a control of kind `ct`.
pub fn theme_plan(ct: ControlType, is_dark: bool) -> (r: ThemePlan)
    ensures
        r.theme@ == theme_name(ct, is_dark),
        r.empty_sub_app == (theme_name(ct, is_dark).len() == 0),
        r.notify_change == is_dark,
{
    let theme: &'static str = if is_dark {
        match ct {
            ControlType::ComboBox => "DarkMode_CFD",
            ControlType::Header => "DarkMode_ItemsView",
            ControlType::ItemsView => "DarkMode_ItemsView",
            ControlType::GroupBox => "",
            ControlType::RadioButton => "Explorer",
            ControlType::Trackbar => "",
            ControlType::ProgressBar => "",
            _ => "DarkMode_Explorer",
        }
    } else {
        "Explorer"
    };
    let empty = theme.is_empty();
    ThemePlan { theme, empty_sub_app: empty, notify_change: is_dark }
}

/// The kind of a child control found by walking a window, from its class name
/// (compared case-insensitively) and, for buttons, the low four style bits;
/// `None` for classes that are not restyled.
pub open spec fn child_control_type(class_lower: Seq<char>, style: u32) -> Option<ControlType> {
    let bs = style & 0xF;
    if class_lower == "button"@ {
        Some(
            if bs == 7 {
                ControlType::GroupBox
            } else if bs == 2 || bs == 3 || bs == 5 || bs == 6 {
                ControlType::CheckBox
            } else if bs == 4 || bs == 9 {
                ControlType::RadioButton
            } else {
                ControlType::Button
            },
        )
    } else if class_lower == "combobox"@ {
        Some(ControlType::ComboBox)
    } else if class_lower == "syslistview32"@ {
        Some(ControlType::List)
    } else if class_lower == "sysheader32"@ {
        Some(ControlType::Header)
    } else if class_lower == "msctls_trackbar32"@ {
        Some(ControlType::Trackbar)
    } else if class_lower == "edit"@ {
        Some(ControlType::Edit)
    } else if class_lower == "msctls_progress32"@ {
        Some(ControlType::ProgressBar)
    } else {
        None
    }
}

fn is_class(cs: &Vec<char>, name: &str) -> (r: bool)
    ensures
        r == (cs@ == name@),
{
    let n = collect_chars(name);
    chars_eq(cs, &n)
}

/// Classifies a child control from its window class name and style.
pub fn classify_child(class_name: &str, style: u32) -> (r: Option<ControlType>)
    ensures
        r == child_control_type(lowercase(class_name@), style),
{
    let lower = to_lowercase(class_name);
    let cs = collect_chars(lower.as_str());
    let bs = style & 0xF;
    if is_class(&cs, "button") {
        Some(
            if bs == 7 {
                ControlType::GroupBox
            } else if bs == 2 || bs == 3 || bs == 5 || bs == 6 {
                ControlType::CheckBox
            } else if bs == 4 || bs == 9 {
                ControlType::RadioButton
            } else {
                ControlType::Button
            },
        )
    } else if is_class(&cs, "combobox") {
        Some(ControlType::ComboBox)
    } else if is_class(&cs, "syslistview32") {
        Some(ControlType::List)
    } else if is_class(&cs, "sysheader32") {
        Some(ControlType::Header)
    } else if is_class(&cs, "msctls_trackbar32") {
        Some(ControlType::Trackbar)
    } else if is_class(&cs, "edit") {
        Some(ControlType::Edit)
    } else if is_class(&cs, "msctls_progress32") {
        Some(ControlType::ProgressBar)
    } else {
        None
    }
}

/// The value handed to the system's preferred-app-mode switch: 2 allows dark
/// mode, 0 is the default.
pub fn preferred_app_mode(allow_dark: bool) -> (r: i32)
    ensures
        r == (if allow_dark { 2i32 } else { 0i32 }),
{
    if allow_dark {
        2
    } else {
        0
    }
}

/// Whether the system is in dark mode, from the registry query's status and
/// the `AppsUseLightTheme` value (0 means dark).
pub fn dark_from_registry(status: i32, apps_use_light_theme: u32) -> (r: bool)
    ensures
        r == (status == 0 && apps_use_light_theme == 0),
{
    status == 0 && apps_use_light_theme == 0
}

/// `WM_ERASEBKGND`.
pub const WM_ERASEBKGND: u32 = 0x0014;
/// `WM_CTLCOLOREDIT`.
pub const WM_CTLCOLOREDIT: u32 = 0x0133;
/// `WM_CTLCOLORBTN`.
pub const WM_CTLCOLORBTN: u32 = 0x0135;
/// `WM_CTLCOLORDLG`.
pub const WM_CTLCOLORDLG: u32 = 0x0136;
/// `WM_CTLCOLORSTATIC`.
pub const WM_CTLCOLORSTATIC: u32 = 0x0138;

/// How a standard colour message is answered.
#[derive(Clone, Copy, Debug, PartialEq, Eq, Structural)]
pub enum ColorAnswer {
    /// Set the text colour, the background colour when there is one (and then
    /// an opaque background, else a transparent one), and answer with the dark
    /// brush or the white stock brush.
    Colors { text: u32, background: Option<u32>, dark_brush: bool },
    /// Fill the client area with the dark brush or the white stock brush and answer 1.
    EraseBackground { dark_brush: bool },
}

/// The answer to a colour message, `None` for the messages that are not colour messages.
pub fn standard_color_answer(msg: u32, is_dark: bool) -> (r: Option<ColorAnswer>)
    ensures
        msg == WM_CTLCOLOREDIT ==> r == Some(
            if is_dark {
                ColorAnswer::Colors { text: COLOR_DARK_TEXT, background: Some(COLOR_DARK_BG), dark_brush: true }
            } else {
                ColorAnswer::Colors { text: COLOR_LIGHT_TEXT, background: None, dark_brush: false }
            },
        ),
        (msg == WM_CTLCOLORSTATIC || msg == WM_CTLCOLORBTN || msg == WM_CTLCOLORDLG) ==> r == Some(
            if is_dark {
                ColorAnswer::Colors { text: COLOR_DARK_TEXT, background: None, dark_brush: true }
            } else {
                ColorAnswer::Colors { text: COLOR_LIGHT_TEXT, background: None, dark_brush: false }
            },
        ),
        msg == WM_ERASEBKGND ==> r == Some(ColorAnswer::EraseBackground { dark_brush: is_dark }),
        msg != WM_CTLCOLOREDIT && msg != WM_CTLCOLORSTATIC && msg != WM_CTLCOLORBTN && msg != WM_CTLCOLORDLG
            && msg != WM_ERASEBKGND ==> r is None,
{
    if msg == WM_CTLCOLOREDIT {
        if is_dark {
            Some(ColorAnswer::Colors { text: COLOR_DARK_TEXT, background: Some(COLOR_DARK_BG), dark_brush: true })
        } else {
            Some(ColorAnswer::Colors { text: COLOR_LIGHT_TEXT, background: None, dark_brush: false })
        }
    } else if msg == WM_CTLCOLORSTATIC || msg == WM_CTLCOLORBTN || msg == WM_CTLCOLORDLG {
        if is_dark {
            Some(ColorAnswer::Colors { text: COLOR_DARK_TEXT, background: None, dark_brush: true })
        } else {
            Some(ColorAnswer::Colors { text: COLOR_LIGHT_TEXT, background: None, dark_brush: false })
        }
    } else if msg == WM_ERASEBKGND {
        Some(ColorAnswer::EraseBackground { dark_brush: is_dark })
    } else {
        None
    }
}

/// How much a row's compression saved, for colouring the ratio column.
#[derive(Clone, Copy, Debug, PartialEq, Eq, Structural)]
pub enum RatioTier {
    /// More than half.
    Ultra,
    /// A fifth or more.
    Good,
    /// A twentieth or more.
    Moderate,
    /// Less.
    Negligible,
}

/// The text colour of a ratio tier (0x00BBGGRR).
pub open spec fn tier_color_spec(tier: RatioTier, is_dark: bool) -> u32 {
    match tier {
        RatioTier::Ultra => if is_dark { 0x0080FF00 } else { 0x0000A000 },
        RatioTier::Good => if is_dark { 0x00FFC850 } else { 0x00C86400 },
        RatioTier::Moderate => if is_dark { 0x0000D7FF } else { 0x000064C8 },
        RatioTier::Negligible => if is_dark { 0x00A0A0A0 } else { 0x00808080 },
    }
}

/// The text colour of a ratio tier (see `tier_color_spec`).
pub fn tier_to_color(tier: RatioTier, is_dark: bool) -> (r: u32)
    ensures
        r == tier_color_spec(tier, is_dark),
{
    match tier {
        RatioTier::Ultra => if is_dark { 0x0080FF00 } else { 0x0000A000 },
        RatioTier::Good => if is_dark { 0x00FFC850 } else { 0x00C86400 },
        RatioTier::Moderate => if is_dark { 0x0000D7FF } else { 0x000064C8 },
        RatioTier::Negligible => if is_dark { 0x00A0A0A0 } else { 0x00808080 },
    }
}

/// The text colour of the other list cells.
pub fn list_text_color(is_dark: bool) -> (r: u32)
    ensures
        r == (if is_dark { COLOR_LIST_TEXT_DARK } else { COLOR_LIST_TEXT_LIGHT }),
{
    if is_dark {
        COLOR_LIST_TEXT_DARK
    } else {
        COLOR_LIST_TEXT_LIGHT
    }
}

} // verus!
