//! Message dialog (info, warning, error, question): the builder, the
//! dialog's size and buttons, and its reactions to input.

use crate::ui::event::{MouseButton, WindowEvent};
use crate::ui::widgets::button::{button_after, button_reacts, Button, ButtonState};
use crate::render::chars::texts;
use crate::ui::{
    nearest_i32, to_i32, ButtonPreset, Colors, DialogResult, Icon, KEY_ESCAPE, KEY_RETURN,
};
use vstd::prelude::*;
use vstd::string::StrSliceExecFns;

verus! {

/// The side of the icon at scale 1, in pixels.
pub const BASE_ICON_SIZE: u32 = 48;

/// The room around the dialog's content at scale 1, in pixels.
pub const BASE_PADDING: u32 = 20;

/// The room between two buttons at scale 1, in pixels.
pub const BASE_BUTTON_SPACING: u32 = 10;

/// The least width of the dialog at scale 1, in pixels.
pub const BASE_MIN_WIDTH: u32 = 150;

/// The width of the text area at scale 1 where none is set, in pixels.
pub const BASE_MAX_TEXT_WIDTH: u32 = 150;

/// Message dialog builder.
pub struct MessageBuilder {
    title: String,
    text: String,
    icon: Option<Icon>,
    buttons: ButtonPreset,
    timeout: Option<u32>,
    width: Option<u32>,
    height: Option<u32>,
    no_wrap: bool,
    no_markup: bool,
    ellipsize: bool,
    switch: bool,
    extra_buttons: Vec<String>,
    colors: Option<Colors>,
}

/// The settings of a message dialog.
pub ghost struct MessageSettings {
    pub title: Seq<char>,
    pub text: Seq<char>,
    pub icon: Option<Icon>,
    /// The labels of the button preset.
    pub buttons: Seq<Seq<char>>,
    /// The seconds after which the dialog closes by itself.
    pub timeout: Option<u32>,
    /// The width of the text area.
    pub width: Option<u32>,
    /// The height of the window.
    pub height: Option<u32>,
    pub no_wrap: bool,
    pub no_markup: bool,
    pub ellipsize: bool,
    /// Whether only the extra buttons are shown.
    pub switch: bool,
    pub extra_buttons: Seq<Seq<char>>,
    pub colors: Option<Colors>,
}

impl View for MessageBuilder {
    type V = MessageSettings;

    closed spec fn view(&self) -> MessageSettings {
        MessageSettings {
            title: self.title@,
            text: self.text@,
            icon: self.icon,
            buttons: self.buttons.spec_labels(),
            timeout: self.timeout,
            width: self.width,
            height: self.height,
            no_wrap: self.no_wrap,
            no_markup: self.no_markup,
            ellipsize: self.ellipsize,
            switch: self.switch,
            extra_buttons: texts(self.extra_buttons@),
            colors: self.colors,
        }
    }
}

impl MessageBuilder {
    /// The settings of a new builder: an OK button and nothing else.
    pub open spec fn new_settings() -> MessageSettings {
        MessageSettings {
            title: Seq::empty(),
            text: Seq::empty(),
            icon: None,
            buttons: seq!["OK"@],
            timeout: None,
            width: None,
            height: None,
            no_wrap: false,
            no_markup: false,
            ellipsize: false,
            switch: false,
            extra_buttons: Seq::empty(),
            colors: None,
        }
    }

    /// A builder for a dialog with an OK button and nothing else set.
    pub fn new() -> (builder: Self)
        ensures
            builder@ == Self::new_settings(),
    {
        let builder = Self {
            title: String::new(),
            text: String::new(),
            icon: None,
            buttons: ButtonPreset::OnlyOk,
            timeout: None,
            width: None,
            height: None,
            no_wrap: false,
            no_markup: false,
            ellipsize: false,
            switch: false,
            extra_buttons: Vec::new(),
            colors: None,
        };
        assert(texts(builder.extra_buttons@) =~= Seq::<Seq<char>>::empty());
        builder
    }

    /// Set timeout in seconds. Dialog will auto-close after this time.
    pub fn timeout(self, seconds: u32) -> (builder: Self)
        ensures
            builder@ == (MessageSettings { timeout: Some(seconds), ..self@ }),
    {
        let mut builder = self;
        builder.timeout = Some(seconds);
        builder
    }

    /// Sets the window title.
    pub fn title(self, title: &str) -> (builder: Self)
        ensures
            builder@ == (MessageSettings { title: title@, ..self@ }),
    {
        let mut builder = self;
        builder.title = title.to_owned();
        builder
    }

    /// Sets the message.
    pub fn text(self, text: &str) -> (builder: Self)
        ensures
            builder@ == (MessageSettings { text: text@, ..self@ }),
    {
        let mut builder = self;
        builder.text = text.to_owned();
        builder
    }

    /// Sets the icon.
    pub fn icon(self, icon: Icon) -> (builder: Self)
        ensures
            builder@ == (MessageSettings { icon: Some(icon), ..self@ }),
    {
        let mut builder = self;
        builder.icon = Some(icon);
        builder
    }

    /// Sets the button preset.
    pub fn buttons(self, buttons: ButtonPreset) -> (builder: Self)
        ensures
            builder@ == (MessageSettings { buttons: buttons.spec_labels(), ..self@ }),
    {
        let mut builder = self;
        builder.buttons = buttons;
        builder
    }

    /// Sets the color theme.
    pub fn colors(self, colors: Colors) -> (builder: Self)
        ensures
            builder@ == (MessageSettings { colors: Some(colors), ..self@ }),
    {
        let mut builder = self;
        builder.colors = Some(colors);
        builder
    }

    /// Sets the width of the text area.
    pub fn width(self, width: u32) -> (builder: Self)
        ensures
            builder@ == (MessageSettings { width: Some(width), ..self@ }),
    {
        let mut builder = self;
        builder.width = Some(width);
        builder
    }

    /// Sets the height of the window.
    pub fn height(self, height: u32) -> (builder: Self)
        ensures
            builder@ == (MessageSettings { height: Some(height), ..self@ }),
    {
        let mut builder = self;
        builder.height = Some(height);
        builder
    }

    /// Sets whether the text is kept on its lines.
    pub fn no_wrap(self, no_wrap: bool) -> (builder: Self)
        ensures
            builder@ == (MessageSettings { no_wrap, ..self@ }),
    {
        let mut builder = self;
        builder.no_wrap = no_wrap;
        builder
    }

    /// Sets whether markup in the text is left as it is.
    pub fn no_markup(self, no_markup: bool) -> (builder: Self)
        ensures
            builder@ == (MessageSettings { no_markup, ..self@ }),
    {
        let mut builder = self;
        builder.no_markup = no_markup;
        builder
    }

    /// Sets whether text that is too long is cut short.
    pub fn ellipsize(self, ellipsize: bool) -> (builder: Self)
        ensures
            builder@ == (MessageSettings { ellipsize, ..self@ }),
    {
        let mut builder = self;
        builder.ellipsize = ellipsize;
        builder
    }

    /// Sets whether only the extra buttons are shown.
    pub fn switch(self, switch: bool) -> (builder: Self)
        ensures
            builder@ == (MessageSettings { switch, ..self@ }),
    {
        let mut builder = self;
        builder.switch = switch;
        builder
    }

    /// Adds a button after the ones there are.
    pub fn extra_button(self, label: &str) -> (builder: Self)
        ensures
            builder@ == (MessageSettings {
                extra_buttons: self@.extra_buttons.push(label@),
                ..self@
            }),
    {
        let mut builder = self;
        let ghost before = texts(builder.extra_buttons@);
        builder.extra_buttons.push(label.to_owned());
        assert(texts(builder.extra_buttons@) =~= before.push(label@));
        builder
    }

    /// The labels of the dialog's buttons in the order in which they are
    /// given: computes `button_labels`.
    pub fn labels(&self) -> (labels: Vec<String>)
        ensures
            texts(labels@) == button_labels(self@),
    {
        let mut labels: Vec<String> = if self.switch {
            Vec::new()
        } else {
            self.buttons.labels()
        };
        let ghost start = texts(labels@);
        assert(start =~= if self@.switch {
            Seq::<Seq<char>>::empty()
        } else {
            self@.buttons
        });
        let mut i: usize = 0;
        while i < self.extra_buttons.len()
            invariant
                i <= self.extra_buttons.len(),
                texts(labels@) == start + texts(self.extra_buttons@).take(i as int),
            decreases self.extra_buttons.len() - i,
        {
            let ghost before = texts(labels@);
            let label = self.extra_buttons[i].clone();
            labels.push(label);
            i += 1;
            assert(texts(labels@) =~= before.push(label@));
            assert(texts(self.extra_buttons@).take(i as int) =~= texts(
                self.extra_buttons@,
            ).take(i - 1).push(label@));
        }
        assert(texts(self.extra_buttons@).take(self.extra_buttons@.len() as int)
            =~= texts(self.extra_buttons@));
        labels
    }

    /// The message.
    pub fn message(&self) -> (text: &str)
        ensures
            text@ == self@.text,
    {
        self.text.as_str()
    }

    /// The window title.
    pub fn window_title(&self) -> (title: &str)
        ensures
            title@ == self@.title,
    {
        self.title.as_str()
    }

    /// The icon, if one is set.
    pub fn shown_icon(&self) -> (icon: Option<&Icon>)
        ensures
            match icon {
                Some(i) => self@.icon == Some(*i),
                None => self@.icon is None,
            },
    {
        self.icon.as_ref()
    }

    /// The color theme, if one is set.
    pub fn theme(&self) -> (colors: Option<Colors>)
        ensures
            colors == self@.colors,
    {
        self.colors
    }

    /// Whether the text is kept on its lines.
    pub fn keeps_lines(&self) -> (no_wrap: bool)
        ensures
            no_wrap == self@.no_wrap,
    {
        self.no_wrap
    }

    /// The seconds after which the dialog closes by itself.
    pub fn time_limit(&self) -> (seconds: Option<u32>)
        ensures
            seconds == self@.timeout,
    {
        self.timeout
    }

    /// The width of the text area at scale 1: the one set, else 150 pixels.
    pub fn text_width(&self) -> (width: u32)
        ensures
            width == text_area_width(self@),
    {
        match self.width {
            Some(width) => width,
            None => BASE_MAX_TEXT_WIDTH,
        }
    }

    /// The size of the window at scale 1 and the way the buttons are laid
    /// out, given the widths of the buttons and the measured size of the
    /// text, all in pixels at scale 1: computes `planned`.
    pub fn plan(&self, button_widths: &Vec<u32>, text_size: (u32, u32)) -> (plan: DialogPlan)
        ensures
            plan == planned(self@, button_widths@, text_size),
    {
        let count = button_widths.len();
        let mut total: u128 = 0;
        let mut widest: u32 = 0;
        let mut i: usize = 0;
        while i < count
            invariant
                i <= count,
                count == button_widths.len(),
                total == sum_widths(button_widths@.take(i as int)),
                total <= i * 0xffff_ffff,
                widest == max_width(button_widths@.take(i as int)),
            decreases count - i,
        {
            proof {
                assert(button_widths@.take(i + 1).drop_last() =~= button_widths@.take(i as int));
            }
            total += button_widths[i] as u128;
            if button_widths[i] > widest {
                widest = button_widths[i];
            }
            i += 1;
        }
        assert(button_widths@.take(count as int) =~= button_widths@);
        assert(BASE_BUTTON_SPACING == 10);
        let gaps: u128 = if count > 0 {
            (count - 1) as u128 * 10
        } else {
            0
        };
        let total: u128 = total + gaps;
        let available: u128 = (BASE_MAX_TEXT_WIDTH + BASE_PADDING * 2) as u128;
        let vertical = total > available || count > 3;
        let buttons_width: u128 = if vertical {
            widest as u128
        } else {
            total
        };
        let icon_width: u128 = if self.icon.is_some() {
            (BASE_ICON_SIZE + BASE_PADDING) as u128
        } else {
            0
        };
        let text_width = self.text_width();
        let content: u128 = icon_width + if self.no_wrap && text_size.0 > text_width {
            text_size.0 as u128
        } else {
            text_width as u128
        };
        let inner: u128 = if content > buttons_width {
            content
        } else {
            buttons_width
        };
        let padded: u128 = inner + (BASE_PADDING * 2) as u128;
        let width: u128 = if padded < BASE_MIN_WIDTH as u128 {
            BASE_MIN_WIDTH as u128
        } else {
            padded
        };
        let text_height: u128 = if text_size.1 > BASE_ICON_SIZE {
            text_size.1 as u128
        } else {
            BASE_ICON_SIZE as u128
        };
        let button_area: u128 = if vertical {
            count as u128 * 32 + gaps
        } else {
            32
        };
        let height: u128 = match self.height {
            Some(height) => height as u128,
            None => (BASE_PADDING * 3) as u128 + text_height + button_area,
        };
        DialogPlan { width: to_u16(width), height: to_u16(height), vertical }
    }

    /// Opens the dialog: its state before any input. `buttons` are the
    /// dialog's buttons as they are shown, which is in the reverse of the
    /// order in which their labels are given.
    pub fn show(self, buttons: Vec<Button>) -> (dialog: MessageDialog)
        ensures
            dialog@ == (MessageState { buttons: button_states(buttons@), dragging: false }),
            dialog.settings() == self@,
    {
        MessageDialog { settings: self, buttons, dragging: false }
    }
}

impl Default for MessageBuilder {
    /// A builder for a dialog with an OK button and nothing else set.
    fn default() -> (builder: Self)
        ensures
            builder@ == MessageBuilder::new_settings(),
    {
        Self::new()
    }
}

/// The kinds of message dialogs.
#[derive(Debug, Clone, Copy, PartialEq, Eq, Structural)]
pub enum DialogType {
    Info,
    Warning,
    Error,
    Question,
}

/// The title of a kind of dialog where none is set.
pub open spec fn default_title(kind: DialogType) -> Seq<char> {
    match kind {
        DialogType::Info => "Information"@,
        DialogType::Warning => "Warning"@,
        DialogType::Error => "Error"@,
        DialogType::Question => "Question"@,
    }
}

/// The settings of a dialog of a kind: its icon, the title set or the
/// kind's own, and Yes and No for a question, OK for every other kind.
pub open spec fn settings_for(kind: DialogType, title: Seq<char>, text: Seq<char>) -> MessageSettings {
    MessageSettings {
        title: if title.len() == 0 {
            default_title(kind)
        } else {
            title
        },
        text,
        icon: Some(
            match kind {
                DialogType::Info => Icon::Info,
                DialogType::Warning => Icon::Warning,
                DialogType::Error => Icon::Error,
                DialogType::Question => Icon::Question,
            },
        ),
        buttons: match kind {
            DialogType::Question => seq!["Yes"@, "No"@],
            _ => seq!["OK"@],
        },
        ..MessageBuilder::new_settings()
    }
}

/// The builder for a dialog of a kind: computes `settings_for`.
pub fn dialog_for(kind: DialogType, title: &str, text: &str) -> (builder: MessageBuilder)
    ensures
        builder@ == settings_for(kind, title@, text@),
{
    let has_title = title.unicode_len() > 0;
    let builder = MessageBuilder::new().text(text);
    match kind {
        DialogType::Info => builder.title(
            if has_title {
                title
            } else {
                "Information"
            },
        ).icon(Icon::Info).buttons(ButtonPreset::OnlyOk),
        DialogType::Warning => builder.title(
            if has_title {
                title
            } else {
                "Warning"
            },
        ).icon(Icon::Warning).buttons(ButtonPreset::OnlyOk),
        DialogType::Error => builder.title(
            if has_title {
                title
            } else {
                "Error"
            },
        ).icon(Icon::Error).buttons(ButtonPreset::OnlyOk),
        DialogType::Question => builder.title(
            if has_title {
                title
            } else {
                "Question"
            },
        ).icon(Icon::Question).buttons(ButtonPreset::YesNo),
    }
}

/// The shape of an icon.
#[derive(Debug, Clone, Copy, PartialEq, Eq, Structural)]
pub enum IconShape {
    Circle,
    Triangle,
}

/// What an icon looks like: the color and the shape of its ground, and the
/// sign on it.
pub open spec fn icon_look(icon: Icon) -> (crate::render::canvas::Rgba, IconShape, Seq<char>) {
    match icon {
        Icon::Info => (crate::ui::opaque(66, 133, 244), IconShape::Circle, "i"@),
        Icon::Warning => (crate::ui::opaque(251, 188, 4), IconShape::Triangle, "!"@),
        Icon::Error => (crate::ui::opaque(234, 67, 53), IconShape::Circle, "X"@),
        Icon::Question => (crate::ui::opaque(52, 168, 83), IconShape::Circle, "?"@),
        Icon::Custom(_) => (crate::ui::opaque(100, 100, 100), IconShape::Circle, "i"@),
    }
}

/// Computes `icon_look`.
pub fn icon_style(icon: &Icon) -> (look: (crate::render::canvas::Rgba, IconShape, &'static str))
    ensures
        (look.0, look.1, look.2@) == icon_look(*icon),
{
    match icon {
        Icon::Info => (crate::render::canvas::rgb(66, 133, 244), IconShape::Circle, "i"),
        Icon::Warning => (crate::render::canvas::rgb(251, 188, 4), IconShape::Triangle, "!"),
        Icon::Error => (crate::render::canvas::rgb(234, 67, 53), IconShape::Circle, "X"),
        Icon::Question => (crate::render::canvas::rgb(52, 168, 83), IconShape::Circle, "?"),
        Icon::Custom(_) => (crate::render::canvas::rgb(100, 100, 100), IconShape::Circle, "i"),
    }
}

/// The size of a message dialog and the way its buttons are laid out.
#[derive(Debug, Clone, Copy, PartialEq, Eq, Structural)]
pub struct DialogPlan {
    /// The width of the window at scale 1, in pixels.
    pub width: u16,
    /// The height of the window at scale 1, in pixels.
    pub height: u16,
    /// Whether the buttons stand one above the other.
    pub vertical: bool,
}

/// The labels of the dialog's buttons in the order in which they are
/// given: those of the preset, then the extra ones; only the extra ones in
/// switch mode.
pub open spec fn button_labels(settings: MessageSettings) -> Seq<Seq<char>> {
    if settings.switch {
        settings.extra_buttons
    } else {
        settings.buttons + settings.extra_buttons
    }
}

/// The width of the text area at scale 1.
pub open spec fn text_area_width(settings: MessageSettings) -> u32 {
    match settings.width {
        Some(width) => width,
        None => BASE_MAX_TEXT_WIDTH,
    }
}

/// The sum of the widths.
pub open spec fn sum_widths(widths: Seq<u32>) -> int
    decreases widths.len(),
{
    if widths.len() == 0 {
        0
    } else {
        sum_widths(widths.drop_last()) + widths.last()
    }
}

/// The greatest of the widths; 0 where there is none.
pub open spec fn max_width(widths: Seq<u32>) -> int
    decreases widths.len(),
{
    if widths.len() == 0 {
        0
    } else if widths.last() > max_width(widths.drop_last()) {
        widths.last() as int
    } else {
        max_width(widths.drop_last())
    }
}

/// `value` as a 16-bit number, the greatest where it does not fit.
pub open spec fn nearest_u16(value: int) -> u16 {
    if value > u16::MAX {
        u16::MAX
    } else {
        value as u16
    }
}

/// Computes `nearest_u16`.
fn to_u16(value: u128) -> (r: u16)
    ensures
        r == nearest_u16(value as int),
{
    if value > u16::MAX as u128 {
        u16::MAX
    } else {
        value as u16
    }
}

/// The plan of a dialog.
///
/// The buttons stand in one row if there are at most three and the row,
/// with 10 pixels between two buttons, is no wider than the default text
/// area with its padding; else one above the other. The window is as wide
/// as the wider of the content (the icon, if any, and the text area) and the
/// buttons, with padding, and 150 pixels at least; it is as high as set,
/// else as the text (or the icon, if that is higher) with the buttons and
/// padding.
pub open spec fn planned(settings: MessageSettings, widths: Seq<u32>, text_size: (u32, u32)) -> DialogPlan {
    let count = widths.len() as int;
    let gaps = if count > 0 {
        (count - 1) * BASE_BUTTON_SPACING
    } else {
        0
    };
    let total = sum_widths(widths) + gaps;
    let vertical = total > BASE_MAX_TEXT_WIDTH + BASE_PADDING * 2 || count > 3;
    let buttons_width = if vertical {
        max_width(widths)
    } else {
        total
    };
    let icon_width: int = if settings.icon is Some {
        BASE_ICON_SIZE + BASE_PADDING
    } else {
        0
    };
    let text_width = text_area_width(settings);
    let content = icon_width + if settings.no_wrap && text_size.0 > text_width {
        text_size.0
    } else {
        text_width
    };
    let inner = if content > buttons_width {
        content
    } else {
        buttons_width
    };
    let width = if inner + BASE_PADDING * 2 < BASE_MIN_WIDTH {
        BASE_MIN_WIDTH as int
    } else {
        inner + BASE_PADDING * 2
    };
    let text_height: int = if text_size.1 > BASE_ICON_SIZE {
        text_size.1 as int
    } else {
        BASE_ICON_SIZE as int
    };
    let button_area = if vertical {
        count * 32 + gaps
    } else {
        32
    };
    let height = match settings.height {
        Some(height) => height as int,
        None => BASE_PADDING * 3 + text_height + button_area,
    };
    DialogPlan { width: nearest_u16(width), height: nearest_u16(height), vertical }
}

/// A message dialog while it is shown.
pub struct MessageDialog {
    settings: MessageBuilder,
    buttons: Vec<Button>,
    dragging: bool,
}

/// The state of a message dialog.
pub ghost struct MessageState {
    /// The buttons as they are shown: in the reverse of the order in which
    /// their labels were given.
    pub buttons: Seq<ButtonState>,
    /// Whether the left mouse button is down and the window was not yet
    /// dragged.
    pub dragging: bool,
}

/// What a message dialog does after an event.
#[derive(Debug, Clone, Copy, PartialEq, Eq, Structural)]
pub enum MessageStep {
    /// The dialog stays open; `redraw` tells whether it is to be drawn
    /// anew, `start_drag` whether the window is to be dragged.
    Continue { redraw: bool, start_drag: bool },
    /// The dialog ends with this result.
    Finished(DialogResult),
}

/// The values of a list of buttons.
pub open spec fn button_states(buttons: Seq<Button>) -> Seq<ButtonState> {
    Seq::new(buttons.len(), |i: int| buttons[i]@)
}

/// The first button, in the order shown, that the event clicks.
pub open spec fn first_clicked(buttons: Seq<ButtonState>, event: WindowEvent, from: int) -> Option<
    int,
>
    decreases buttons.len() - from,
{
    if from < 0 || from >= buttons.len() {
        None
    } else if button_after(buttons[from], event).clicked {
        Some(from)
    } else {
        first_clicked(buttons, event, from + 1)
    }
}

/// Whether one of the buttons before `end` is to be drawn anew.
pub open spec fn any_reacts(buttons: Seq<ButtonState>, event: WindowEvent, end: int) -> bool
    decreases end,
{
    if end <= 0 || end > buttons.len() {
        false
    } else {
        any_reacts(buttons, event, end - 1) || button_reacts(buttons[end - 1], event)
    }
}

/// The buttons after they saw an event, one after the other up to the
/// first that is clicked; its click is taken, and the buttons behind it
/// do not see the event.
pub open spec fn buttons_after(buttons: Seq<ButtonState>, event: WindowEvent) -> Seq<ButtonState> {
    let clicked = first_clicked(buttons, event, 0);
    Seq::new(
        buttons.len(),
        |i: int|
            if clicked is Some && i > clicked->0 {
                buttons[i]
            } else {
                ButtonState { clicked: false, ..button_after(buttons[i], event) }
            },
    )
}

/// The result for a click on the button shown at place `shown` of
/// `count`: the place of its label in the order in which the labels were
/// given.
pub open spec fn result_of_click(count: int, shown: int) -> DialogResult {
    DialogResult::Button((count - 1 - shown) as usize)
}

/// The result with which an event ends the dialog at once, if it does:
/// closing the window and the escape key close it, the return key is the
/// first button if there is a button.
pub open spec fn message_ends_at_once(state: MessageState, event: WindowEvent) -> Option<DialogResult> {
    match event {
        WindowEvent::CloseRequested => Some(DialogResult::Closed),
        WindowEvent::KeyPress(key) => if key.keysym == KEY_ESCAPE {
            Some(DialogResult::Closed)
        } else if key.keysym == KEY_RETURN && state.buttons.len() > 0 {
            Some(DialogResult::Button(0))
        } else {
            None
        },
        _ => None,
    }
}

/// Whether the left mouse button is down after an event.
pub open spec fn dragging_after(dragging: bool, event: WindowEvent) -> bool {
    match event {
        WindowEvent::ButtonPress(MouseButton::Left) => true,
        WindowEvent::ButtonRelease(MouseButton::Left) => false,
        _ => dragging,
    }
}

/// Whether an event is a move of the pointer.
pub open spec fn is_cursor_move(event: WindowEvent) -> bool {
    event is CursorMove
}

/// The dialog after an event.
pub open spec fn message_after(state: MessageState, event: WindowEvent) -> MessageState {
    if message_ends_at_once(state, event) is Some {
        state
    } else {
        let held = dragging_after(state.dragging, event);
        MessageState {
            buttons: buttons_after(state.buttons, event),
            dragging: if first_clicked(state.buttons, event, 0) is Some {
                held
            } else {
                held && !is_cursor_move(event)
            },
        }
    }
}

/// What the dialog does after an event: it ends at once, or with the first
/// button that the event clicks, or it goes on; it is drawn anew when the
/// window asks for it or a button reacts, and the window is dragged when
/// the pointer moves while the left mouse button is down.
pub open spec fn message_step(state: MessageState, event: WindowEvent) -> MessageStep {
    match message_ends_at_once(state, event) {
        Some(result) => MessageStep::Finished(result),
        None => match first_clicked(state.buttons, event, 0) {
            Some(shown) => MessageStep::Finished(result_of_click(state.buttons.len() as int, shown)),
            None => MessageStep::Continue {
                redraw: event is RedrawRequested || any_reacts(
                    state.buttons,
                    event,
                    state.buttons.len() as int,
                ),
                start_drag: dragging_after(state.dragging, event) && is_cursor_move(event),
            },
        },
    }
}

/// The dialog after a further event that was waiting behind the first.
pub open spec fn message_after_pending(state: MessageState, event: WindowEvent) -> MessageState {
    match event {
        WindowEvent::CloseRequested => state,
        _ => MessageState { buttons: buttons_after(state.buttons, event), ..state },
    }
}

/// What the dialog does after a further event that was waiting.
pub open spec fn message_step_pending(state: MessageState, event: WindowEvent) -> MessageStep {
    match event {
        WindowEvent::CloseRequested => MessageStep::Finished(DialogResult::Closed),
        _ => match first_clicked(state.buttons, event, 0) {
            Some(shown) => MessageStep::Finished(result_of_click(state.buttons.len() as int, shown)),
            None => MessageStep::Continue {
                redraw: any_reacts(state.buttons, event, state.buttons.len() as int),
                start_drag: false,
            },
        },
    }
}

impl View for MessageDialog {
    type V = MessageState;

    closed spec fn view(&self) -> MessageState {
        MessageState { buttons: button_states(self.buttons@), dragging: self.dragging }
    }
}

impl MessageDialog {
    /// The settings that the dialog was opened with.
    pub closed spec fn settings(&self) -> MessageSettings {
        self.settings@
    }

    /// The settings that the dialog was opened with.
    pub fn builder(&self) -> (builder: &MessageBuilder)
        ensures
            builder@ == self.settings(),
    {
        &self.settings
    }

    /// The buttons as they are shown.
    pub fn buttons(&self) -> (buttons: &Vec<Button>)
        ensures
            button_states(buttons@) == self@.buttons,
    {
        &self.buttons
    }

    /// Moves the button shown at place `index` and, if `width` is given,
    /// makes it that wide.
    pub fn place_button(&mut self, index: usize, x: i32, y: i32, width: Option<u32>)
        requires
            index < old(self)@.buttons.len(),
        ensures
            final(self).settings() == old(self).settings(),
            final(self)@ == (MessageState {
                buttons: old(self)@.buttons.update(
                    index as int,
                    ButtonState {
                        x,
                        y,
                        width: match width {
                            Some(w) => w,
                            None => old(self)@.buttons[index as int].width,
                        },
                        ..old(self)@.buttons[index as int]
                    },
                ),
                ..old(self)@
            }),
    {
        let ghost before = button_states(self.buttons@);
        let mut button = self.buttons.remove(index);
        button.set_position(x, y);
        if let Some(w) = width {
            button.set_width(w);
        }
        let ghost placed = button@;
        self.buttons.insert(index, button);
        assert(button_states(self.buttons@) =~= before.update(index as int, placed));
    }

    /// Lets the buttons see an event, one after the other up to the first
    /// that is clicked.
    fn press_buttons(&mut self, event: &WindowEvent) -> (r: (Option<usize>, bool))
        ensures
            final(self).settings() == old(self).settings(),
            final(self)@ == (MessageState {
                buttons: buttons_after(old(self)@.buttons, *event),
                ..old(self)@
            }),
            match r.0 {
                Some(shown) => shown < old(self)@.buttons.len() && first_clicked(
                    old(self)@.buttons,
                    *event,
                    0,
                ) == Some(shown as int),
                None => first_clicked(old(self)@.buttons, *event, 0) is None,
            },
            r.0 is None ==> r.1 == any_reacts(
                old(self)@.buttons,
                *event,
                old(self)@.buttons.len() as int,
            ),
    {
        let ghost before = button_states(self.buttons@);
        let mut redraw = false;
        let mut i: usize = 0;
        while i < self.buttons.len()
            invariant
                i <= self.buttons.len(),
                self.buttons.len() == before.len(),
                self.dragging == old(self).dragging,
                self.settings() == old(self).settings(),
                before == old(self)@.buttons,
                first_clicked(before, *event, 0) == first_clicked(before, *event, i as int),
                redraw == any_reacts(before, *event, i as int),
                forall|k: int|
                    0 <= k < before.len() ==> (#[trigger] self.buttons@[k])@ == if k < i {
                        ButtonState { clicked: false, ..button_after(before[k], *event) }
                    } else {
                        before[k]
                    },
            decreases self.buttons.len() - i,
        {
            let ghost shown = self.buttons@;
            assert(shown[i as int]@ == before[i as int]);
            let mut button = self.buttons.remove(i);
            let reacts = button.process_event(event);
            let clicked = button.was_clicked();
            self.buttons.insert(i, button);
            proof {
                assert(self.buttons@ =~= shown.update(i as int, button));
                assert forall|k: int| 0 <= k < before.len() implies (#[trigger] self.buttons@[k])@
                    == if k < i + 1 {
                    ButtonState { clicked: false, ..button_after(before[k], *event) }
                } else {
                    before[k]
                } by {
                    if k != i {
                        assert(self.buttons@[k] == shown[k]);
                    }
                }
            }
            if reacts {
                redraw = true;
            }
            if clicked {
                proof {
                    assert(first_clicked(before, *event, i as int) == Some(i as int));
                    assert(button_states(self.buttons@) =~= buttons_after(before, *event));
                }
                return (Some(i), redraw);
            }
            i += 1;
        }
        proof {
            assert(button_states(self.buttons@) =~= buttons_after(before, *event));
        }
        (None, redraw)
    }

    /// Takes in an event that the window was waited for: computes
    /// `message_step` and leaves the dialog as `message_after` says.
    pub fn handle(&mut self, event: &WindowEvent) -> (step: MessageStep)
        ensures
            final(self).settings() == old(self).settings(),
            final(self)@ == message_after(old(self)@, *event),
            step == message_step(old(self)@, *event),
    {
        let mut redraw = false;
        match event {
            WindowEvent::CloseRequested => {
                return MessageStep::Finished(DialogResult::Closed);
            },
            WindowEvent::RedrawRequested => {
                redraw = true;
            },
            WindowEvent::KeyPress(key) => {
                if key.keysym == KEY_ESCAPE {
                    return MessageStep::Finished(DialogResult::Closed);
                }
                if key.keysym == KEY_RETURN && self.buttons.len() > 0 {
                    return MessageStep::Finished(DialogResult::Button(0));
                }
            },
            WindowEvent::ButtonPress(MouseButton::Left) => {
                self.dragging = true;
            },
            WindowEvent::ButtonRelease(MouseButton::Left) => {
                self.dragging = false;
            },
            _ => {},
        }
        let count = self.buttons.len();
        let (clicked, reacts) = self.press_buttons(event);
        if let Some(shown) = clicked {
            return MessageStep::Finished(DialogResult::Button(count - 1 - shown));
        }
        let mut start_drag = false;
        if self.dragging {
            if let WindowEvent::CursorMove(_) = event {
                start_drag = true;
                self.dragging = false;
            }
        }
        MessageStep::Continue { redraw: redraw || reacts, start_drag }
    }

    /// Takes in a further event that was waiting behind the one handled:
    /// computes `message_step_pending` and leaves the dialog as
    /// `message_after_pending` says.
    pub fn handle_pending(&mut self, event: &WindowEvent) -> (step: MessageStep)
        ensures
            final(self).settings() == old(self).settings(),
            final(self)@ == message_after_pending(old(self)@, *event),
            step == message_step_pending(old(self)@, *event),
    {
        if let WindowEvent::CloseRequested = event {
            return MessageStep::Finished(DialogResult::Closed);
        }
        let count = self.buttons.len();
        let (clicked, reacts) = self.press_buttons(event);
        if let Some(shown) = clicked {
            return MessageStep::Finished(DialogResult::Button(count - 1 - shown));
        }
        MessageStep::Continue { redraw: reacts, start_drag: false }
    }
}

/// The left edge of the button shown at place `index` in a row of buttons
/// that ends `padding` pixels left of the right edge of a window `width`
/// pixels wide, with `spacing` pixels between two buttons.
pub open spec fn row_left(buttons: Seq<ButtonState>, width: int, padding: int, spacing: int, index: int) -> int
    decreases buttons.len() - index,
{
    if index < 0 || index >= buttons.len() {
        width - padding + spacing
    } else {
        row_left(buttons, width, padding, spacing, index + 1) - spacing - buttons[index].width
    }
}

/// The button shown at place `index` where the plan puts it at a scale
/// that counts 1/64.
///
/// One above the other, the buttons fill the window's width but for the
/// padding, the first at the bottom; in a row they keep their widths and
/// end at the right, the last at the right edge.
pub open spec fn placed_button(
    buttons: Seq<ButtonState>,
    plan: DialogPlan,
    scale: u32,
    index: int,
) -> ButtonState {
    let width = at_scale(plan.width as u32, scale) as int;
    let height = at_scale(plan.height as u32, scale) as int;
    let padding = at_scale(BASE_PADDING, scale) as int;
    let spacing = at_scale(BASE_BUTTON_SPACING, scale) as int;
    let button_height = at_scale(32, scale) as int;
    if plan.vertical {
        ButtonState {
            x: nearest_i32(padding),
            y: nearest_i32(height - padding - button_height - index * (button_height + spacing)),
            width: if width - 2 * padding < 0 {
                0
            } else {
                (width - 2 * padding) as u32
            },
            ..buttons[index]
        }
    } else {
        ButtonState {
            x: nearest_i32(row_left(buttons, width, padding, spacing, index)),
            y: nearest_i32(height - padding - button_height),
            ..buttons[index]
        }
    }
}

impl MessageDialog {
    /// Puts the buttons where the plan has them at a scale that counts
    /// 1/64: each button becomes `placed_button`.
    pub fn layout_buttons(&mut self, plan: DialogPlan, scale: u32)
        ensures
            final(self).settings() == old(self).settings(),
            final(self)@.dragging == old(self)@.dragging,
            final(self)@.buttons.len() == old(self)@.buttons.len(),
            forall|i: int|
                0 <= i < old(self)@.buttons.len() ==> #[trigger] final(self)@.buttons[i]
                    == placed_button(old(self)@.buttons, plan, scale, i),
    {
        let ghost before = self@.buttons;
        let width: i128 = scaled_length(plan.width as u32, scale) as i128;
        let height: i128 = scaled_length(plan.height as u32, scale) as i128;
        let padding: i128 = scaled_length(BASE_PADDING, scale) as i128;
        let spacing: i128 = scaled_length(BASE_BUTTON_SPACING, scale) as i128;
        let button_height: i128 = scaled_length(32, scale) as i128;
        let count = self.buttons.len();
        let mut left: i128 = width - padding + spacing;
        let mut i: usize = count;
        while i > 0
            invariant
                i <= count,
                count == before.len(),
                self@.buttons.len() == count,
                self@.dragging == old(self)@.dragging,
                self.settings() == old(self).settings(),
                before == old(self)@.buttons,
                width == at_scale(plan.width as u32, scale),
                height == at_scale(plan.height as u32, scale),
                padding == at_scale(BASE_PADDING, scale),
                spacing == at_scale(BASE_BUTTON_SPACING, scale),
                button_height == at_scale(32, scale),
                left == row_left(before, width as int, padding as int, spacing as int, i as int),
                -(count - i + 1) * 0x2_0000_0000 <= left <= 0x2_0000_0000,
                forall|k: int|
                    0 <= k < count ==> #[trigger] self@.buttons[k] == if k >= i {
                        placed_button(before, plan, scale, k)
                    } else {
                        before[k]
                    },
            decreases i,
        {
            i -= 1;
            let ghost shown = self@.buttons;
            assert(shown[i as int] == before[i as int]);
            let own_width: i128 = self.buttons[i].width() as i128;
            left = left - spacing - own_width;
            if plan.vertical {
                assert(0 <= i * (button_height + spacing) <= i * 0x2_0000_0000) by (nonlinear_arith)
                    requires
                        0 <= i,
                        0 <= button_height + spacing <= 0x2_0000_0000,
                ;
                let y: i128 = height - padding - button_height - i as i128 * (button_height
                    + spacing);
                let wide: i128 = width - 2 * padding;
                let wide: u32 = if wide < 0 {
                    0
                } else {
                    wide as u32
                };
                self.place_button(i, to_i32(padding), to_i32(y), Some(wide));
            } else {
                self.place_button(i, to_i32(left), to_i32(height - padding - button_height), None);
            }
            proof {
                assert forall|k: int| 0 <= k < count implies #[trigger] self@.buttons[k] == if k
                    >= i {
                    placed_button(before, plan, scale, k)
                } else {
                    before[k]
                } by {
                    if k != i {
                        assert(self@.buttons[k] == shown[k]);
                    }
                }
            }
        }
    }
}

/// A length at scale 1 brought to a scale that counts 1/64: rounded down
/// to whole pixels.
pub open spec fn at_scale(length: u32, scale: u32) -> u32 {
    if length * scale / 64 > u32::MAX {
        u32::MAX
    } else {
        (length * scale / 64) as u32
    }
}

/// Computes `at_scale`.
pub fn scaled_length(length: u32, scale: u32) -> (r: u32)
    ensures
        r == at_scale(length, scale),
{
    assert(0 <= length * scale <= 0xffff_ffff * 0xffff_ffff) by (nonlinear_arith)
        requires
            0 <= length <= 0xffff_ffff,
            0 <= scale <= 0xffff_ffff,
    ;
    let product: u64 = length as u64 * scale as u64 / 64;
    if product > u32::MAX as u64 {
        u32::MAX
    } else {
        product as u32
    }
}

/// The return key stands for the first button whose label was given, and
/// closing the window or the escape key close the dialog, whatever its
/// buttons were doing.
pub proof fn lemma_keys_end_the_dialog(state: MessageState)
    requires
        state.buttons.len() > 0,
    ensures
        message_step(state, WindowEvent::KeyPress(crate::ui::event::KeyEvent { keysym: KEY_RETURN }))
            == MessageStep::Finished(DialogResult::Button(0)),
        message_step(state, WindowEvent::KeyPress(crate::ui::event::KeyEvent { keysym: KEY_ESCAPE }))
            == MessageStep::Finished(DialogResult::Closed),
        message_step(state, WindowEvent::CloseRequested) == MessageStep::Finished(
            DialogResult::Closed,
        ),
{
}

} // verus!
