//! Button widget.

use crate::ui::event::{MouseButton, WindowEvent};
use crate::ui::widgets::{in_rect, point_in_rect};
use vstd::prelude::*;

verus! {

/// The height of every button, in pixels.
pub const BUTTON_HEIGHT: u32 = 32;

/// The room between the label and each side of a button, in pixels.
pub const BUTTON_PADDING: u32 = 24;

/// The narrowest a button is made, in pixels.
pub const BUTTON_MIN_WIDTH: u32 = 80;

/// The radius of a button's corners, in pixels.
pub const BUTTON_RADIUS: u32 = 5;

/// A clickable button widget.
#[derive(Debug)]
pub struct Button {
    label: String,
    x: i32,
    y: i32,
    width: u32,
    height: u32,
    hovered: bool,
    pressed: bool,
    clicked: bool,
}

/// The value of a button.
pub ghost struct ButtonState {
    pub label: Seq<char>,
    pub x: i32,
    pub y: i32,
    pub width: u32,
    pub height: u32,
    /// Whether the pointer is over the button.
    pub hovered: bool,
    /// Whether the left mouse button went down over the button and is
    /// still down.
    pub pressed: bool,
    /// Whether the button was clicked and nobody has asked since.
    pub clicked: bool,
}

/// How a button stands after an event.
///
/// The pointer moving or entering settles whether it is over the button;
/// the pointer leaving ends hover and press; the left mouse button going
/// down over the button presses it; its release ends the press, and is a
/// click if the button was pressed with the pointer over it.
pub open spec fn button_after(state: ButtonState, event: WindowEvent) -> ButtonState {
    match event {
        WindowEvent::CursorMove(pos) | WindowEvent::CursorEnter(pos) => ButtonState {
            hovered: in_rect(
                pos.x as int,
                pos.y as int,
                state.x as int,
                state.y as int,
                state.width as int,
                state.height as int,
            ),
            ..state
        },
        WindowEvent::CursorLeave => ButtonState { hovered: false, pressed: false, ..state },
        WindowEvent::ButtonPress(MouseButton::Left) => if state.hovered {
            ButtonState { pressed: true, ..state }
        } else {
            state
        },
        WindowEvent::ButtonRelease(MouseButton::Left) => ButtonState {
            pressed: false,
            clicked: state.clicked || (state.pressed && state.hovered),
            ..state
        },
        _ => state,
    }
}

/// Whether a button is to be drawn anew after an event: after every event
/// that it looks at, changed or not.
pub open spec fn button_reacts(state: ButtonState, event: WindowEvent) -> bool {
    match event {
        WindowEvent::CursorMove(_) | WindowEvent::CursorEnter(_) => true,
        WindowEvent::CursorLeave => true,
        WindowEvent::ButtonPress(MouseButton::Left) => state.hovered,
        WindowEvent::ButtonRelease(MouseButton::Left) => true,
        _ => false,
    }
}

/// The width of a button whose label measures `text_width` units of 1/64
/// pixel: the label in whole pixels with padding on both sides, and no
/// less than the least width.
pub open spec fn button_width(text_width: i64) -> u32 {
    let text: int = if text_width < 0 {
        0
    } else if text_width / 64 > u32::MAX {
        u32::MAX as int
    } else {
        text_width / 64
    };
    let padded = text + 2 * BUTTON_PADDING;
    if padded > u32::MAX {
        u32::MAX
    } else if padded < BUTTON_MIN_WIDTH {
        BUTTON_MIN_WIDTH
    } else {
        padded as u32
    }
}

impl View for Button {
    type V = ButtonState;

    closed spec fn view(&self) -> ButtonState {
        ButtonState {
            label: self.label@,
            x: self.x,
            y: self.y,
            width: self.width,
            height: self.height,
            hovered: self.hovered,
            pressed: self.pressed,
            clicked: self.clicked,
        }
    }
}

impl Button {
    /// A button at the origin for a label that measures `text_width` units
    /// of 1/64 pixel.
    pub fn new(label: &str, text_width: i64) -> (button: Button)
        ensures
            button@ == (ButtonState {
                label: label@,
                x: 0,
                y: 0,
                width: button_width(text_width),
                height: BUTTON_HEIGHT,
                hovered: false,
                pressed: false,
                clicked: false,
            }),
    {
        let text: u64 = if text_width < 0 {
            0
        } else if text_width / 64 > u32::MAX as i64 {
            u32::MAX as u64
        } else {
            (text_width / 64) as u64
        };
        let padded: u64 = text + 2 * BUTTON_PADDING as u64;
        let width: u32 = if padded > u32::MAX as u64 {
            u32::MAX
        } else if padded < BUTTON_MIN_WIDTH as u64 {
            BUTTON_MIN_WIDTH
        } else {
            padded as u32
        };
        Button {
            label: label.to_owned(),
            x: 0,
            y: 0,
            width,
            height: BUTTON_HEIGHT,
            hovered: false,
            pressed: false,
            clicked: false,
        }
    }

    /// Returns true if the button was clicked since this was last asked.
    pub fn was_clicked(&mut self) -> (clicked: bool)
        ensures
            clicked == old(self)@.clicked,
            final(self)@ == (ButtonState { clicked: false, ..old(self)@ }),
    {
        let clicked = self.clicked;
        self.clicked = false;
        clicked
    }

    /// The label.
    pub fn label(&self) -> (label: &str)
        ensures
            label@ == self@.label,
    {
        self.label.as_str()
    }

    /// The width in pixels.
    pub fn width(&self) -> (width: u32)
        ensures
            width == self@.width,
    {
        self.width
    }

    /// The height in pixels.
    pub fn height(&self) -> (height: u32)
        ensures
            height == self@.height,
    {
        self.height
    }

    /// The column of the left edge.
    pub fn x(&self) -> (x: i32)
        ensures
            x == self@.x,
    {
        self.x
    }

    /// The row of the top edge.
    pub fn y(&self) -> (y: i32)
        ensures
            y == self@.y,
    {
        self.y
    }

    /// Whether the pointer is over the button.
    pub fn is_hovered(&self) -> (hovered: bool)
        ensures
            hovered == self@.hovered,
    {
        self.hovered
    }

    /// Whether the button is held down.
    pub fn is_pressed(&self) -> (pressed: bool)
        ensures
            pressed == self@.pressed,
    {
        self.pressed
    }

    /// Moves the button.
    pub fn set_position(&mut self, x: i32, y: i32)
        ensures
            final(self)@ == (ButtonState { x, y, ..old(self)@ }),
    {
        self.x = x;
        self.y = y;
    }

    /// Makes the button as wide as given.
    pub fn set_width(&mut self, width: u32)
        ensures
            final(self)@ == (ButtonState { width, ..old(self)@ }),
    {
        self.width = width;
    }

    /// Takes an event in; returns whether the button is to be drawn anew.
    pub fn process_event(&mut self, event: &WindowEvent) -> (redraw: bool)
        ensures
            final(self)@ == button_after(old(self)@, *event),
            redraw == button_reacts(old(self)@, *event),
    {
        match event {
            WindowEvent::CursorMove(pos) | WindowEvent::CursorEnter(pos) => {
                self.hovered = point_in_rect(pos.x, pos.y, self.x, self.y, self.width, self.height);
                true
            },
            WindowEvent::CursorLeave => {
                self.hovered = false;
                self.pressed = false;
                true
            },
            WindowEvent::ButtonPress(MouseButton::Left) => {
                if self.hovered {
                    self.pressed = true;
                    true
                } else {
                    false
                }
            },
            WindowEvent::ButtonRelease(MouseButton::Left) => {
                if self.pressed && self.hovered {
                    self.clicked = true;
                }
                self.pressed = false;
                true
            },
            _ => false,
        }
    }
}

/// A press and a release of the left mouse button over a button are a
/// click, and asking for the click takes it.
pub proof fn lemma_press_and_release_is_click(state: ButtonState)
    requires
        state.hovered,
    ensures
        button_after(
            button_after(state, WindowEvent::ButtonPress(MouseButton::Left)),
            WindowEvent::ButtonRelease(MouseButton::Left),
        ).clicked,
{
}

/// A release away from the button is no click.
pub proof fn lemma_release_outside_is_no_click(state: ButtonState)
    requires
        !state.hovered,
        !state.clicked,
    ensures
        !button_after(state, WindowEvent::ButtonRelease(MouseButton::Left)).clicked,
{
}

} // verus!
