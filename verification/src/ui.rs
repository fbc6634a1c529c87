//! Dialogs: what they show, what they return, and how they react to input.

pub mod calendar;
pub mod event;
pub mod message;
pub mod widgets;

use crate::render::canvas::{rgb, Rgba};
use crate::render::chars::{chars_of, contains, contains_sub, equals, texts};
use vstd::prelude::*;

verus! {

/// The key symbol of the backspace key.
pub const KEY_BACKSPACE: u32 = 0xff08;

/// The key symbol of the tabulator key.
pub const KEY_TAB: u32 = 0xff09;

/// The key symbol of the return key.
pub const KEY_RETURN: u32 = 0xff0d;

/// The key symbol of the escape key.
pub const KEY_ESCAPE: u32 = 0xff1b;

/// The key symbol of the home key.
pub const KEY_HOME: u32 = 0xff50;

/// The key symbol of the left arrow key.
pub const KEY_LEFT: u32 = 0xff51;

/// The key symbol of the up arrow key.
pub const KEY_UP: u32 = 0xff52;

/// The key symbol of the right arrow key.
pub const KEY_RIGHT: u32 = 0xff53;

/// The key symbol of the down arrow key.
pub const KEY_DOWN: u32 = 0xff54;

/// The key symbol of the page up key.
pub const KEY_PAGE_UP: u32 = 0xff55;

/// The key symbol of the page down key.
pub const KEY_PAGE_DOWN: u32 = 0xff56;

/// The key symbol of the end key.
pub const KEY_END: u32 = 0xff57;

/// The key symbol of the enter key of the number pad.
pub const KEY_KP_ENTER: u32 = 0xff8d;

/// The key symbol of the delete key.
pub const KEY_DELETE: u32 = 0xffff;

/// The key symbol of the tabulator key with shift.
pub const KEY_ISO_LEFT_TAB: u32 = 0xfe20;

/// The key symbol of the left shift key.
pub const KEY_LSHIFT: u32 = 0xffe1;

/// The key symbol of the right shift key.
pub const KEY_RSHIFT: u32 = 0xffe2;

/// The key symbol of the space bar.
pub const KEY_SPACE: u32 = 0x20;

/// Color theme for dialogs.
#[derive(Debug, Clone, Copy, PartialEq, Eq, Structural)]
pub struct Colors {
    pub window_bg: Rgba,
    pub text: Rgba,
    pub button: Rgba,
    pub button_hover: Rgba,
    pub button_pressed: Rgba,
    pub button_outline: Rgba,
    pub button_text: Rgba,
    pub input_bg: Rgba,
    pub input_bg_focused: Rgba,
    pub input_border: Rgba,
    pub input_border_focused: Rgba,
    pub input_placeholder: Rgba,
    pub progress_bg: Rgba,
    pub progress_fill: Rgba,
    pub progress_border: Rgba,
    pub window_border: Rgba,
    pub window_shadow: Rgba,
}

/// Light theme colors.
pub fn theme_light() -> (colors: Colors)
    ensures
        colors == light_colors(),
{
    Colors {
        window_bg: rgb(250, 250, 250),
        text: rgb(30, 30, 30),
        button: rgb(230, 230, 230),
        button_hover: rgb(220, 220, 220),
        button_pressed: rgb(200, 200, 200),
        button_outline: rgb(180, 180, 180),
        button_text: rgb(30, 30, 30),
        input_bg: rgb(255, 255, 255),
        input_bg_focused: rgb(255, 255, 255),
        input_border: rgb(200, 200, 200),
        input_border_focused: rgb(100, 150, 200),
        input_placeholder: rgb(150, 150, 150),
        progress_bg: rgb(230, 230, 230),
        progress_fill: rgb(70, 140, 220),
        progress_border: rgb(200, 200, 200),
        window_border: rgb(180, 180, 180),
        window_shadow: Rgba::new(0, 0, 0, 50),
    }
}

/// Dark theme colors.
pub fn theme_dark() -> (colors: Colors)
    ensures
        colors == dark_colors(),
{
    Colors {
        window_bg: rgb(45, 45, 45),
        text: rgb(230, 230, 230),
        button: rgb(70, 70, 70),
        button_hover: rgb(80, 80, 80),
        button_pressed: rgb(60, 60, 60),
        button_outline: rgb(100, 100, 100),
        button_text: rgb(230, 230, 230),
        input_bg: rgb(60, 60, 60),
        input_bg_focused: rgb(65, 65, 65),
        input_border: rgb(90, 90, 90),
        input_border_focused: rgb(100, 150, 200),
        input_placeholder: rgb(120, 120, 120),
        progress_bg: rgb(60, 60, 60),
        progress_fill: rgb(70, 140, 220),
        progress_border: rgb(90, 90, 90),
        window_border: rgb(70, 70, 70),
        window_shadow: Rgba::new(0, 0, 0, 80),
    }
}

/// An opaque color, as a specification value.
pub open spec fn opaque(r: u8, g: u8, b: u8) -> Rgba {
    Rgba { r, g, b, a: 255 }
}

/// The light theme.
pub open spec fn light_colors() -> Colors {
    Colors {
        window_bg: opaque(250, 250, 250),
        text: opaque(30, 30, 30),
        button: opaque(230, 230, 230),
        button_hover: opaque(220, 220, 220),
        button_pressed: opaque(200, 200, 200),
        button_outline: opaque(180, 180, 180),
        button_text: opaque(30, 30, 30),
        input_bg: opaque(255, 255, 255),
        input_bg_focused: opaque(255, 255, 255),
        input_border: opaque(200, 200, 200),
        input_border_focused: opaque(100, 150, 200),
        input_placeholder: opaque(150, 150, 150),
        progress_bg: opaque(230, 230, 230),
        progress_fill: opaque(70, 140, 220),
        progress_border: opaque(200, 200, 200),
        window_border: opaque(180, 180, 180),
        window_shadow: Rgba { r: 0, g: 0, b: 0, a: 50 },
    }
}

/// The dark theme.
pub open spec fn dark_colors() -> Colors {
    Colors {
        window_bg: opaque(45, 45, 45),
        text: opaque(230, 230, 230),
        button: opaque(70, 70, 70),
        button_hover: opaque(80, 80, 80),
        button_pressed: opaque(60, 60, 60),
        button_outline: opaque(100, 100, 100),
        button_text: opaque(230, 230, 230),
        input_bg: opaque(60, 60, 60),
        input_bg_focused: opaque(65, 65, 65),
        input_border: opaque(90, 90, 90),
        input_border_focused: opaque(100, 150, 200),
        input_placeholder: opaque(120, 120, 120),
        progress_bg: opaque(60, 60, 60),
        progress_fill: opaque(70, 140, 220),
        progress_border: opaque(90, 90, 90),
        window_border: opaque(70, 70, 70),
        window_shadow: Rgba { r: 0, g: 0, b: 0, a: 80 },
    }
}

/// What `str::to_lowercase` makes of a text.
pub uninterp spec fn unicode_lower(text: Seq<char>) -> Seq<char>;

/// `str::to_lowercase`: the lower-case form of a text, by name.
#[verifier::external_body]
fn to_lowercase(text: &str) -> (lower: String)
    ensures
        lower@ == unicode_lower(text@),
{
    text.to_lowercase()
}

/// The theme for what the desktop tells: the theme variable decides if it
/// is set, dark if its lower-case form names "dark" and light otherwise;
/// else the color scheme setting decides, if it was read and names "dark",
/// "light" or "default"; else the theme is dark.
pub open spec fn theme_for(gtk_theme: Option<Seq<char>>, color_scheme: Option<Seq<char>>) -> Colors {
    match gtk_theme {
        Some(theme) => if contains_sub(unicode_lower(theme), "dark"@) {
            dark_colors()
        } else {
            light_colors()
        },
        None => match color_scheme {
            Some(scheme) => if contains_sub(scheme, "dark"@) {
                dark_colors()
            } else if contains_sub(scheme, "light"@) || contains_sub(scheme, "default"@) {
                light_colors()
            } else {
                dark_colors()
            },
            None => dark_colors(),
        },
    }
}

/// Picks the theme from the value of the theme variable, if it is set, and
/// the output of the color scheme query, if it ran: computes `theme_for`.
pub fn detect_theme(gtk_theme: Option<&str>, color_scheme: Option<&str>) -> (colors: Colors)
    ensures
        colors == theme_for(
            match gtk_theme {
                Some(theme) => Some(theme@),
                None => None,
            },
            match color_scheme {
                Some(scheme) => Some(scheme@),
                None => None,
            },
        ),
{
    if let Some(theme) = gtk_theme {
        let lower = to_lowercase(theme);
        let chars = chars_of(lower.as_str());
        if contains(&chars, "dark") {
            return theme_dark();
        }
        return theme_light();
    }
    if let Some(scheme) = color_scheme {
        let chars = chars_of(scheme);
        if contains(&chars, "dark") {
            return theme_dark();
        }
        if contains(&chars, "light") || contains(&chars, "default") {
            return theme_light();
        }
    }
    theme_dark()
}

/// Icon types for message dialogs.
#[derive(Debug, Clone, PartialEq, Eq)]
pub enum Icon {
    Info,
    Warning,
    Error,
    Question,
    Custom(String),
}

/// The icon that a name stands for, where it is one of the built-in ones.
pub open spec fn named_icon(name: Seq<char>) -> Option<Icon> {
    if name == "dialog-information"@ || name == "info"@ {
        Some(Icon::Info)
    } else if name == "dialog-warning"@ || name == "warning"@ {
        Some(Icon::Warning)
    } else if name == "dialog-error"@ || name == "error"@ {
        Some(Icon::Error)
    } else if name == "dialog-question"@ || name == "question"@ {
        Some(Icon::Question)
    } else {
        None
    }
}

impl Icon {
    /// The icon for an icon name: one of the built-in icons for their names
    /// with or without the `dialog-` prefix, else a custom icon of that
    /// name. There is an icon for every name.
    pub fn from_name(name: &str) -> (icon: Option<Self>)
        ensures
            match named_icon(name@) {
                Some(builtin) => icon == Some(builtin),
                None => icon matches Some(Icon::Custom(custom)) && custom@ == name@,
            },
    {
        let chars = chars_of(name);
        if equals(&chars, "dialog-information") || equals(&chars, "info") {
            Some(Icon::Info)
        } else if equals(&chars, "dialog-warning") || equals(&chars, "warning") {
            Some(Icon::Warning)
        } else if equals(&chars, "dialog-error") || equals(&chars, "error") {
            Some(Icon::Error)
        } else if equals(&chars, "dialog-question") || equals(&chars, "question") {
            Some(Icon::Question)
        } else {
            Some(Icon::Custom(name.to_owned()))
        }
    }
}

/// Button presets for message dialogs.
#[derive(Debug, Clone, PartialEq, Eq)]
pub enum ButtonPreset {
    OnlyOk,
    OkCancel,
    YesNo,
    YesNoCancel,
    Close,
    Empty,
    Custom(Vec<String>),
}

impl ButtonPreset {
    /// The labels of the preset, first button first.
    pub open spec fn spec_labels(&self) -> Seq<Seq<char>> {
        match self {
            ButtonPreset::OnlyOk => seq!["OK"@],
            ButtonPreset::OkCancel => seq!["OK"@, "Cancel"@],
            ButtonPreset::YesNo => seq!["Yes"@, "No"@],
            ButtonPreset::YesNoCancel => seq!["Yes"@, "No"@, "Cancel"@],
            ButtonPreset::Close => seq!["Close"@],
            ButtonPreset::Empty => Seq::empty(),
            ButtonPreset::Custom(labels) => texts(labels@),
        }
    }

    /// Computes `spec_labels`.
    pub fn labels(&self) -> (labels: Vec<String>)
        ensures
            texts(labels@) == self.spec_labels(),
    {
        let mut out: Vec<String> = Vec::new();
        match self {
            ButtonPreset::OnlyOk => {
                out.push("OK".to_owned());
            },
            ButtonPreset::OkCancel => {
                out.push("OK".to_owned());
                out.push("Cancel".to_owned());
            },
            ButtonPreset::YesNo => {
                out.push("Yes".to_owned());
                out.push("No".to_owned());
            },
            ButtonPreset::YesNoCancel => {
                out.push("Yes".to_owned());
                out.push("No".to_owned());
                out.push("Cancel".to_owned());
            },
            ButtonPreset::Close => {
                out.push("Close".to_owned());
            },
            ButtonPreset::Empty => {},
            ButtonPreset::Custom(labels) => {
                let mut i: usize = 0;
                while i < labels.len()
                    invariant
                        i <= labels.len(),
                        texts(out@) == texts(labels@).take(i as int),
                    decreases labels.len() - i,
                {
                    let ghost before = texts(out@);
                    let label = labels[i].clone();
                    out.push(label);
                    i += 1;
                    assert(texts(out@) =~= before.push(label@));
                    assert(texts(labels@).take(i as int) =~= texts(labels@).take(
                        i - 1,
                    ).push(label@));
                }
                assert(texts(labels@).take(labels@.len() as int) =~= texts(labels@));
            },
        }
        assert(texts(out@) =~= self.spec_labels());
        out
    }
}

/// Dialog result indicating which button was pressed.
#[derive(Debug, Clone, Copy, PartialEq, Eq, Structural)]
pub enum DialogResult {
    Button(usize),
    Closed,
    Timeout,
}

impl DialogResult {
    /// The exit code of the result: the index of the button for the first
    /// three buttons and 3 for every further one, 5 for a timeout, 1 for a
    /// closed dialog.
    pub open spec fn spec_exit_code(self) -> i32 {
        match self {
            DialogResult::Button(index) => if index < 3 {
                index as i32
            } else {
                3
            },
            DialogResult::Timeout => 5,
            DialogResult::Closed => 1,
        }
    }

    /// Computes `spec_exit_code`.
    pub fn exit_code(self) -> (code: i32)
        ensures
            code == self.spec_exit_code(),
    {
        match self {
            DialogResult::Button(0) => 0,
            DialogResult::Button(1) => 1,
            DialogResult::Button(2) => 2,
            DialogResult::Button(_) => 3,
            DialogResult::Timeout => 5,
            DialogResult::Closed => 1,
        }
    }
}

/// `value` as a 32-bit number, the nearest where it does not fit.
pub open spec fn nearest_i32(value: int) -> i32 {
    if value < i32::MIN {
        i32::MIN
    } else if value > i32::MAX {
        i32::MAX
    } else {
        value as i32
    }
}

/// Computes `nearest_i32`.
pub fn to_i32(value: i128) -> (r: i32)
    ensures
        r == nearest_i32(value as int),
{
    if value < i32::MIN as i128 {
        i32::MIN
    } else if value > i32::MAX as i128 {
        i32::MAX
    } else {
        value as i32
    }
}

} // verus!
