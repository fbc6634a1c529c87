//! Text rendering and dialog logic for small GUI dialogs: font discovery and
//! ranking, glyph fallback, line layout, compositing, and the state machines
//! that drive the dialogs.

pub mod render;
pub mod timing;
pub mod ui;

pub use ui::calendar::CalendarBuilder;
pub use ui::calendar::CalendarResult;
pub use ui::message::MessageBuilder;
pub use ui::ButtonPreset;
pub use ui::DialogResult;
pub use ui::Icon;

use vstd::prelude::*;

verus! {

/// A builder for a message dialog.
pub fn message() -> (builder: MessageBuilder)
    ensures
        builder@ == MessageBuilder::new_settings(),
{
    MessageBuilder::new()
}

/// A builder for a calendar dialog.
pub fn calendar() -> (builder: CalendarBuilder)
    ensures
        builder@ == CalendarBuilder::new_settings(),
        builder@.valid(),
{
    CalendarBuilder::new()
}

} // verus!
