use rask::render::canvas::{rgb, Rgba};
use rask::ui::calendar::{
    current_date, days_in_month, first_day_of_month, is_leap_year, month_name, CalendarBuilder,
    CalendarDialog, CalendarResult, CalendarStep, DayStyle,
};
use rask::ui::event::{KeyEvent, MouseButton, Position, WindowEvent};
use rask::ui::message::{
    dialog_for, icon_style, scaled_length, DialogPlan, DialogType, IconShape, MessageBuilder,
    MessageStep,
};
use rask::ui::widgets::button::Button;
use rask::ui::widgets::point_in_rect;
use rask::ui::{
    detect_theme, theme_dark, theme_light, ButtonPreset, DialogResult, Icon, KEY_DOWN, KEY_ESCAPE,
    KEY_LEFT, KEY_RETURN, KEY_RIGHT, KEY_SPACE, KEY_UP,
};

fn key(keysym: u32) -> WindowEvent {
    WindowEvent::KeyPress(KeyEvent { keysym })
}

fn move_to(x: i32, y: i32) -> WindowEvent {
    WindowEvent::CursorMove(Position { x, y })
}

const PRESS: WindowEvent = WindowEvent::ButtonPress(MouseButton::Left);
const RELEASE: WindowEvent = WindowEvent::ButtonRelease(MouseButton::Left);

fn calendar(year: u32, month: u32, day: u32) -> CalendarDialog {
    CalendarBuilder::new().year(year).month(month).day(day).show(
        (2000, 1, 1),
        Button::new("OK", 20 * 64),
        Button::new("Cancel", 50 * 64),
    )
}

fn shown(dialog: &CalendarDialog) -> (u32, u32, u32) {
    (dialog.year(), dialog.month(), dialog.selected_day())
}

#[test]
fn icons_by_name() {
    assert_eq!(Icon::from_name("dialog-information"), Some(Icon::Info));
    assert_eq!(Icon::from_name("info"), Some(Icon::Info));
    assert_eq!(Icon::from_name("dialog-warning"), Some(Icon::Warning));
    assert_eq!(Icon::from_name("warning"), Some(Icon::Warning));
    assert_eq!(Icon::from_name("dialog-error"), Some(Icon::Error));
    assert_eq!(Icon::from_name("error"), Some(Icon::Error));
    assert_eq!(Icon::from_name("dialog-question"), Some(Icon::Question));
    assert_eq!(Icon::from_name("question"), Some(Icon::Question));
    assert_eq!(Icon::from_name("Info"), Some(Icon::Custom("Info".to_string())));
    assert_eq!(Icon::from_name(""), Some(Icon::Custom(String::new())));
    assert_eq!(Icon::from_name("face-smile"), Some(Icon::Custom("face-smile".to_string())));
}

#[test]
fn labels_of_button_presets() {
    assert_eq!(ButtonPreset::OnlyOk.labels(), vec!["OK"]);
    assert_eq!(ButtonPreset::OkCancel.labels(), vec!["OK", "Cancel"]);
    assert_eq!(ButtonPreset::YesNo.labels(), vec!["Yes", "No"]);
    assert_eq!(ButtonPreset::YesNoCancel.labels(), vec!["Yes", "No", "Cancel"]);
    assert_eq!(ButtonPreset::Close.labels(), vec!["Close"]);
    assert_eq!(ButtonPreset::Empty.labels(), Vec::<String>::new());
    let custom = ButtonPreset::Custom(vec!["One".to_string(), "Two".to_string()]);
    assert_eq!(custom.labels(), vec!["One", "Two"]);
}

#[test]
fn exit_codes_of_dialog_results() {
    assert_eq!(DialogResult::Button(0).exit_code(), 0);
    assert_eq!(DialogResult::Button(1).exit_code(), 1);
    assert_eq!(DialogResult::Button(2).exit_code(), 2);
    assert_eq!(DialogResult::Button(3).exit_code(), 3);
    assert_eq!(DialogResult::Button(usize::MAX).exit_code(), 3);
    assert_eq!(DialogResult::Timeout.exit_code(), 5);
    assert_eq!(DialogResult::Closed.exit_code(), 1);
}

#[test]
fn themes() {
    assert_eq!(theme_light().window_bg, rgb(250, 250, 250));
    assert_eq!(theme_light().window_shadow, Rgba::new(0, 0, 0, 50));
    assert_eq!(theme_light().input_border_focused, rgb(100, 150, 200));
    assert_eq!(theme_dark().window_bg, rgb(45, 45, 45));
    assert_eq!(theme_dark().text, rgb(230, 230, 230));
    assert_eq!(theme_dark().window_shadow, Rgba::new(0, 0, 0, 80));
    assert_eq!(theme_dark().progress_fill, theme_light().progress_fill);
}

#[test]
fn theme_detection() {
    assert_eq!(detect_theme(Some("Adwaita-dark"), None), theme_dark());
    assert_eq!(detect_theme(Some("Adwaita:DARK"), Some("light")), theme_dark());
    assert_eq!(detect_theme(Some("Adwaita"), Some("prefer-dark")), theme_light());
    assert_eq!(detect_theme(Some(""), None), theme_light());
    assert_eq!(detect_theme(None, Some("'prefer-dark'\n")), theme_dark());
    assert_eq!(detect_theme(None, Some("'prefer-light'\n")), theme_light());
    assert_eq!(detect_theme(None, Some("'default'\n")), theme_light());
    assert_eq!(detect_theme(None, Some("'DARK'")), theme_dark());
    assert_eq!(detect_theme(None, Some("")), theme_dark());
    assert_eq!(detect_theme(None, None), theme_dark());
}

#[test]
fn exit_codes_of_calendar_results() {
    assert_eq!(CalendarResult::Selected { year: 2024, month: 2, day: 29 }.exit_code(), 0);
    assert_eq!(CalendarResult::Cancelled.exit_code(), 1);
    assert_eq!(CalendarResult::Closed.exit_code(), 255);
}

#[test]
fn calendar_results_as_text() {
    let date = |year, month, day| CalendarResult::Selected { year, month, day }.to_string();
    assert_eq!(date(2024, 2, 29), Some("2024-02-29".to_string()));
    assert_eq!(date(1, 12, 5), Some("0001-12-05".to_string()));
    assert_eq!(date(0, 0, 0), Some("0000-00-00".to_string()));
    assert_eq!(date(12345, 123, 100), Some("12345-123-100".to_string()));
    assert_eq!(
        date(u32::MAX, u32::MAX, 10),
        Some("4294967295-4294967295-10".to_string())
    );
    assert_eq!(date(999, 9, 9), Some("0999-09-09".to_string()));
    assert_eq!(date(1000, 10, 10), Some("1000-10-10".to_string()));
    assert_eq!(CalendarResult::Cancelled.to_string(), None);
    assert_eq!(CalendarResult::Closed.to_string(), None);
}

#[test]
fn leap_years() {
    assert!(is_leap_year(2024));
    assert!(is_leap_year(2000));
    assert!(!is_leap_year(1900));
    assert!(!is_leap_year(2023));
    assert!(is_leap_year(0));
}

#[test]
fn days_of_months() {
    let lengths: Vec<u32> = (1..=12).map(|m| days_in_month(2023, m)).collect();
    assert_eq!(lengths, vec![31, 28, 31, 30, 31, 30, 31, 31, 30, 31, 30, 31]);
    assert_eq!(days_in_month(2024, 2), 29);
    assert_eq!(days_in_month(1900, 2), 28);
    assert_eq!(days_in_month(2023, 0), 30);
    assert_eq!(days_in_month(2023, 13), 30);
}

#[test]
fn weekdays_of_first_days() {
    // Sunday is 0.
    assert_eq!(first_day_of_month(1970, 1), 4);
    assert_eq!(first_day_of_month(2000, 1), 6);
    assert_eq!(first_day_of_month(2024, 2), 4);
    assert_eq!(first_day_of_month(2024, 3), 5);
    assert_eq!(first_day_of_month(2024, 9), 0);
    assert_eq!(first_day_of_month(2023, 10), 0);
    assert_eq!(first_day_of_month(2023, 12), 5);
    assert_eq!(first_day_of_month(1900, 3), 4);
    assert_eq!(first_day_of_month(1, 1), 1);
    assert_eq!(first_day_of_month(0, 3), 3);
    assert_eq!(first_day_of_month(0, 1), 6);
    // Far years are no harder.
    assert_eq!(first_day_of_month(10000, 1), 6);
    assert_eq!(first_day_of_month(u32::MAX, 12), 4);
}

#[test]
fn weekdays_agree_with_counted_days() {
    // 1970 began on a Thursday; every later month begins on the weekday
    // that the days since then count up to.
    let mut days: u64 = 4;
    for year in 1970..2200 {
        for month in 1..=12 {
            assert_eq!(first_day_of_month(year, month) as u64, days % 7);
            assert_eq!(current_date((days - 4) * 86400), (year, month, 1));
            days += days_in_month(year, month) as u64;
        }
    }
}

#[test]
fn names_of_months() {
    let names: Vec<&str> = (0..=13).map(|m| month_name(m)).collect();
    assert_eq!(
        names,
        vec![
            "Unknown",
            "January",
            "February",
            "March",
            "April",
            "May",
            "June",
            "July",
            "August",
            "September",
            "October",
            "November",
            "December",
            "Unknown",
        ]
    );
}

#[test]
fn dates_from_seconds() {
    assert_eq!(current_date(0), (1970, 1, 1));
    assert_eq!(current_date(86399), (1970, 1, 1));
    assert_eq!(current_date(86400), (1970, 1, 2));
    assert_eq!(current_date(31 * 86400), (1970, 2, 1));
    assert_eq!(current_date(365 * 86400), (1971, 1, 1));
    assert_eq!(current_date(951_782_400), (2000, 2, 29));
    assert_eq!(current_date(1_709_251_199), (2024, 2, 29));
    assert_eq!(current_date(1_709_251_200), (2024, 3, 1));
    assert_eq!(current_date(1_735_689_599), (2024, 12, 31));
    assert_eq!(current_date(4_102_444_800), (2100, 1, 1));
}

#[test]
fn points_in_rectangles() {
    assert!(point_in_rect(10, 20, 10, 20, 5, 5));
    assert!(point_in_rect(14, 24, 10, 20, 5, 5));
    assert!(!point_in_rect(15, 24, 10, 20, 5, 5));
    assert!(!point_in_rect(14, 25, 10, 20, 5, 5));
    assert!(!point_in_rect(9, 20, 10, 20, 5, 5));
    assert!(!point_in_rect(10, 20, 10, 20, 0, 5));
    assert!(point_in_rect(i32::MAX, 0, i32::MAX, 0, u32::MAX, 1));
    assert!(point_in_rect(-5, -5, -10, -10, 10, 10));
}

#[test]
fn button_sizes() {
    let button = Button::new("OK", 20 * 64 + 63);
    assert_eq!(button.label(), "OK");
    assert_eq!((button.x(), button.y()), (0, 0));
    // 20 px of text and 24 px on each side are less than the least width.
    assert_eq!((button.width(), button.height()), (80, 32));
    assert_eq!(Button::new("Cancel", 32 * 64).width(), 80);
    assert_eq!(Button::new("Cancel", 33 * 64).width(), 81);
    assert_eq!(Button::new("A long label", 100 * 64 + 32).width(), 148);
    assert_eq!(Button::new("", -5).width(), 80);
    assert_eq!(Button::new("", i64::MAX).width(), u32::MAX);
    assert!(!button.is_hovered());
    assert!(!button.is_pressed());
}

#[test]
fn button_clicks() {
    let mut button = Button::new("OK", 0);
    button.set_position(100, 50);
    assert_eq!((button.x(), button.y()), (100, 50));
    assert!(!button.process_event(&PRESS));
    assert!(!button.is_pressed());
    assert!(button.process_event(&move_to(100, 50)));
    assert!(button.is_hovered());
    assert!(button.process_event(&PRESS));
    assert!(button.is_pressed());
    assert!(!button.was_clicked());
    assert!(button.process_event(&RELEASE));
    assert!(!button.is_pressed());
    assert!(button.was_clicked());
    assert!(!button.was_clicked());
}

#[test]
fn button_release_outside_is_no_click() {
    let mut button = Button::new("OK", 0);
    button.process_event(&WindowEvent::CursorEnter(Position { x: 79, y: 31 }));
    button.process_event(&PRESS);
    assert!(button.process_event(&move_to(80, 31)));
    assert!(!button.is_hovered());
    assert!(button.is_pressed());
    assert!(button.process_event(&RELEASE));
    assert!(!button.was_clicked());
}

#[test]
fn button_leave_ends_the_press() {
    let mut button = Button::new("OK", 0);
    button.process_event(&move_to(1, 1));
    button.process_event(&PRESS);
    assert!(button.process_event(&WindowEvent::CursorLeave));
    assert!(!button.is_hovered());
    assert!(!button.is_pressed());
    button.process_event(&move_to(1, 1));
    button.process_event(&RELEASE);
    assert!(!button.was_clicked());
}

#[test]
fn button_ignores_other_events() {
    let mut button = Button::new("OK", 0);
    button.process_event(&move_to(1, 1));
    assert!(!button.process_event(&WindowEvent::ButtonPress(MouseButton::Right)));
    assert!(!button.process_event(&WindowEvent::ButtonRelease(MouseButton::Middle)));
    assert!(!button.process_event(&key(KEY_RETURN)));
    assert!(!button.process_event(&WindowEvent::RedrawRequested));
    assert!(!button.process_event(&WindowEvent::CloseRequested));
    assert!(!button.is_pressed());
    button.set_width(200);
    assert_eq!(button.width(), 200);
}

#[test]
fn calendar_opens_with_the_date_set_or_today() {
    let dialog = CalendarBuilder::new().show(
        (2024, 5, 17),
        Button::new("OK", 0),
        Button::new("Cancel", 0),
    );
    assert_eq!(shown(&dialog), (2024, 5, 17));
    assert_eq!(dialog.hovered_day(), None);
    assert_eq!(dialog.title(), "Select Date");
    assert_eq!(dialog.text(), "");
    assert_eq!(dialog.colors(), None);
    assert_eq!(dialog.size(), (284, 366));
    assert_eq!(dialog.origin(), (16, 16));
    assert_eq!((dialog.cancel_button().x(), dialog.cancel_button().y()), (188, 318));
    assert_eq!((dialog.ok_button().x(), dialog.ok_button().y()), (98, 318));

    let dialog = CalendarBuilder::new()
        .title("Pick")
        .text("When?")
        .year(1999)
        .month(0)
        .day(40)
        .colors(theme_light())
        .show((2024, 5, 17), Button::new("OK", 0), Button::new("Cancel", 100 * 64));
    assert_eq!(shown(&dialog), (1999, 1, 31));
    assert_eq!(dialog.title(), "Pick");
    assert_eq!(dialog.text(), "When?");
    assert_eq!(dialog.colors(), Some(theme_light()));
    assert_eq!(dialog.size(), (284, 390));
    assert_eq!(dialog.origin(), (16, 48));
    assert_eq!(dialog.cancel_button().x(), 120);
    assert_eq!(dialog.ok_button().x(), 30);
    let clamped = CalendarBuilder::new().month(13).day(0).show(
        (2024, 5, 17),
        Button::new("OK", 0),
        Button::new("Cancel", 0),
    );
    assert_eq!(shown(&clamped), (2024, 12, 1));
}

#[test]
fn calendar_keys_move_the_selection() {
    let mut dialog = calendar(2024, 3, 1);
    assert_eq!(dialog.handle(&key(KEY_LEFT)), CalendarStep::Continue { redraw: true });
    assert_eq!(shown(&dialog), (2024, 2, 29));
    dialog.handle(&key(KEY_RIGHT));
    assert_eq!(shown(&dialog), (2024, 3, 1));
    dialog.handle(&key(KEY_UP));
    assert_eq!(shown(&dialog), (2024, 2, 23));
    dialog.handle(&key(KEY_DOWN));
    assert_eq!(shown(&dialog), (2024, 3, 1));
    dialog.handle(&key(KEY_DOWN));
    assert_eq!(shown(&dialog), (2024, 3, 8));
    dialog.handle(&key(KEY_UP));
    dialog.handle(&key(KEY_RIGHT));
    assert_eq!(shown(&dialog), (2024, 3, 2));
    assert_eq!(dialog.handle(&key(KEY_SPACE)), CalendarStep::Continue { redraw: false });
    assert_eq!(shown(&dialog), (2024, 3, 2));
}

#[test]
fn calendar_keys_cross_years() {
    let mut dialog = calendar(2023, 12, 31);
    dialog.handle(&key(KEY_RIGHT));
    assert_eq!(shown(&dialog), (2024, 1, 1));
    dialog.handle(&key(KEY_LEFT));
    assert_eq!(shown(&dialog), (2023, 12, 31));
    dialog.handle(&key(KEY_DOWN));
    assert_eq!(shown(&dialog), (2024, 1, 7));
    dialog.handle(&key(KEY_UP));
    assert_eq!(shown(&dialog), (2023, 12, 31));
    let mut first = calendar(0, 1, 1);
    first.handle(&key(KEY_LEFT));
    assert_eq!(shown(&first), (0, 12, 31));
    let mut last = calendar(u32::MAX, 12, 31);
    last.handle(&key(KEY_RIGHT));
    assert_eq!(shown(&last), (u32::MAX, 1, 1));
}

#[test]
fn calendar_keys_end_the_dialog() {
    let mut dialog = calendar(2024, 2, 29);
    assert_eq!(
        dialog.handle(&key(KEY_RETURN)),
        CalendarStep::Finished(CalendarResult::Selected { year: 2024, month: 2, day: 29 })
    );
    assert_eq!(dialog.handle(&key(KEY_ESCAPE)), CalendarStep::Finished(CalendarResult::Cancelled));
    assert_eq!(
        dialog.handle(&WindowEvent::CloseRequested),
        CalendarStep::Finished(CalendarResult::Closed)
    );
    assert_eq!(
        dialog.handle_pending(&WindowEvent::CloseRequested),
        CalendarStep::Finished(CalendarResult::Closed)
    );
    assert_eq!(
        dialog.handle(&WindowEvent::RedrawRequested),
        CalendarStep::Continue { redraw: true }
    );
}

#[test]
fn calendar_pointer_selects_days() {
    // February 2024 starts on a Thursday: day 1 is in column 4 of row 0.
    let mut dialog = calendar(2024, 2, 10);
    assert_eq!(dialog.cell_of(1), (4, 0));
    assert_eq!(dialog.cell_of(4), (0, 1));
    assert_eq!(dialog.cell_of(29), (4, 4));
    let grid_y = 16 + 40 + 28;
    assert_eq!(dialog.day_under(16 + 4 * 36, grid_y), Some(1));
    assert_eq!(dialog.day_under(16 + 4 * 36 - 1, grid_y), None);
    assert_eq!(dialog.day_under(16, grid_y + 36), Some(4));
    assert_eq!(dialog.day_under(16 + 4 * 36 + 35, grid_y + 4 * 36 + 35), Some(29));
    assert_eq!(dialog.day_under(16 + 5 * 36, grid_y + 4 * 36), None);
    assert_eq!(dialog.day_under(15, grid_y), None);
    assert_eq!(dialog.day_under(16 + 7 * 36, grid_y), None);
    assert_eq!(dialog.day_under(16, grid_y + 6 * 36), None);

    assert_eq!(
        dialog.handle(&move_to(16 + 5 * 36 + 3, grid_y + 36 + 3)),
        CalendarStep::Continue { redraw: true }
    );
    assert_eq!(dialog.hovered_day(), Some(9));
    assert_eq!(
        dialog.handle(&move_to(16 + 5 * 36 + 4, grid_y + 36 + 4)),
        CalendarStep::Continue { redraw: true }
    );
    assert_eq!(dialog.handle(&PRESS), CalendarStep::Continue { redraw: true });
    assert_eq!(shown(&dialog), (2024, 2, 9));
    dialog.handle(&move_to(0, 0));
    assert_eq!(dialog.hovered_day(), None);
    assert_eq!(dialog.handle(&PRESS), CalendarStep::Continue { redraw: false });
}

#[test]
fn calendar_header_turns_the_months() {
    let mut dialog = calendar(2024, 3, 31);
    dialog.handle(&move_to(20, 20));
    assert_eq!(dialog.handle(&PRESS), CalendarStep::Continue { redraw: true });
    assert_eq!(shown(&dialog), (2024, 2, 29));
    dialog.handle(&move_to(16 + 252 - 32, 55));
    dialog.handle(&PRESS);
    assert_eq!(shown(&dialog), (2024, 3, 29));
    dialog.handle(&move_to(16 + 252 - 33, 55));
    assert_eq!(dialog.handle(&PRESS), CalendarStep::Continue { redraw: false });
    dialog.handle(&move_to(20, 56));
    assert_eq!(dialog.handle(&PRESS), CalendarStep::Continue { redraw: false });
    assert_eq!(shown(&dialog), (2024, 3, 29));
    let mut january = calendar(2024, 1, 15);
    january.handle(&move_to(16, 16));
    january.handle(&PRESS);
    assert_eq!(shown(&january), (2023, 12, 15));
}

#[test]
fn calendar_buttons_end_the_dialog() {
    let mut dialog = calendar(2024, 2, 29);
    let (ok_x, ok_y) = (dialog.ok_button().x(), dialog.ok_button().y());
    dialog.handle(&move_to(ok_x + 1, ok_y + 1));
    assert!(dialog.ok_button().is_hovered());
    assert_eq!(dialog.handle(&PRESS), CalendarStep::Continue { redraw: true });
    assert_eq!(
        dialog.handle(&RELEASE),
        CalendarStep::Finished(CalendarResult::Selected { year: 2024, month: 2, day: 29 })
    );
    let mut dialog = calendar(2024, 2, 29);
    let (x, y) = (dialog.cancel_button().x(), dialog.cancel_button().y());
    dialog.handle(&move_to(x + 79, y + 31));
    dialog.handle(&PRESS);
    assert_eq!(dialog.handle(&RELEASE), CalendarStep::Finished(CalendarResult::Cancelled));
}

#[test]
fn calendar_click_in_waiting_events_counts_at_the_next_event() {
    let mut dialog = calendar(2024, 2, 29);
    let (x, y) = (dialog.ok_button().x(), dialog.ok_button().y());
    assert_eq!(dialog.handle_pending(&move_to(x, y)), CalendarStep::Continue { redraw: true });
    assert_eq!(dialog.hovered_day(), None);
    assert_eq!(dialog.handle_pending(&PRESS), CalendarStep::Continue { redraw: true });
    assert_eq!(dialog.handle_pending(&RELEASE), CalendarStep::Continue { redraw: true });
    assert_eq!(dialog.handle_pending(&key(KEY_RETURN)), CalendarStep::Continue { redraw: false });
    assert_eq!(
        dialog.handle(&WindowEvent::RedrawRequested),
        CalendarStep::Finished(CalendarResult::Selected { year: 2024, month: 2, day: 29 })
    );
}

#[test]
fn message_labels() {
    assert_eq!(MessageBuilder::new().labels(), vec!["OK"]);
    let builder = MessageBuilder::new()
        .buttons(ButtonPreset::YesNo)
        .extra_button("Maybe")
        .extra_button("Later");
    assert_eq!(builder.labels(), vec!["Yes", "No", "Maybe", "Later"]);
    assert_eq!(builder.switch(true).labels(), vec!["Maybe", "Later"]);
    assert_eq!(MessageBuilder::new().switch(true).labels(), Vec::<String>::new());
    assert_eq!(rask::message().labels(), vec!["OK"]);
    assert_eq!(rask::calendar().show((1, 1, 1), Button::new("", 0), Button::new("", 0)).year(), 1);
}

#[test]
fn message_settings() {
    let builder = MessageBuilder::new()
        .title("Title")
        .text("Text")
        .timeout(5)
        .icon(Icon::Info)
        .colors(theme_dark())
        .no_markup(true)
        .ellipsize(true);
    assert_eq!(builder.message(), "Text");
    assert_eq!(builder.time_limit(), Some(5));
    assert_eq!(builder.text_width(), 150);
    assert_eq!(builder.width(300).text_width(), 300);
    assert_eq!(MessageBuilder::new().time_limit(), None);
}

#[test]
fn message_plans() {
    let plan = |builder: &MessageBuilder, widths: Vec<u32>, text: (u32, u32)| {
        builder.plan(&widths, text)
    };
    let plain = MessageBuilder::new();
    // One button of 80: content 150, window 190 wide; 60 + 48 + 32 high.
    assert_eq!(
        plan(&plain, vec![80], (100, 20)),
        DialogPlan { width: 190, height: 140, vertical: false }
    );
    // A high text makes the window higher.
    assert_eq!(
        plan(&plain, vec![80], (100, 100)),
        DialogPlan { width: 190, height: 192, vertical: false }
    );
    // Two buttons of 90 need 190: they just fit in a row.
    assert_eq!(
        plan(&plain, vec![90, 90], (0, 0)),
        DialogPlan { width: 230, height: 140, vertical: false }
    );
    // One pixel more and they stand above each other.
    assert_eq!(
        plan(&plain, vec![90, 91], (0, 0)),
        DialogPlan { width: 190, height: 182, vertical: true }
    );
    // More than three buttons always do.
    assert_eq!(
        plan(&plain, vec![10, 10, 10, 10], (0, 0)),
        DialogPlan { width: 190, height: 266, vertical: true }
    );
    assert_eq!(
        plan(&plain, Vec::new(), (0, 0)),
        DialogPlan { width: 190, height: 140, vertical: false }
    );
    let icon = MessageBuilder::new().icon(Icon::Warning).width(50).height(77);
    assert_eq!(
        plan(&icon, vec![80], (500, 500)),
        DialogPlan { width: 158, height: 77, vertical: false }
    );
    let narrow = MessageBuilder::new().width(10);
    assert_eq!(
        plan(&narrow, Vec::new(), (500, 10)),
        DialogPlan { width: 150, height: 140, vertical: false }
    );
    let unwrapped = MessageBuilder::new().no_wrap(true);
    assert_eq!(
        plan(&unwrapped, vec![80], (500, 10)),
        DialogPlan { width: 540, height: 140, vertical: false }
    );
    assert_eq!(
        plan(&unwrapped, vec![80], (100, 10)),
        DialogPlan { width: 190, height: 140, vertical: false }
    );
    let wide = MessageBuilder::new().width(u32::MAX).height(u32::MAX);
    assert_eq!(
        plan(&wide, vec![u32::MAX, u32::MAX], (0, 0)),
        DialogPlan { width: u16::MAX, height: u16::MAX, vertical: true }
    );
}

#[test]
fn lengths_at_a_scale() {
    assert_eq!(scaled_length(20, 64), 20);
    assert_eq!(scaled_length(20, 96), 30);
    assert_eq!(scaled_length(10, 80), 12);
    assert_eq!(scaled_length(32, 128), 64);
    assert_eq!(scaled_length(1, 63), 0);
    assert_eq!(scaled_length(u32::MAX, u32::MAX), u32::MAX);
}

#[test]
fn message_keys_end_the_dialog() {
    let mut dialog = MessageBuilder::new().show(vec![Button::new("OK", 0)]);
    assert_eq!(dialog.handle(&key(KEY_RETURN)), MessageStep::Finished(DialogResult::Button(0)));
    assert_eq!(dialog.handle(&key(KEY_ESCAPE)), MessageStep::Finished(DialogResult::Closed));
    assert_eq!(
        dialog.handle(&WindowEvent::CloseRequested),
        MessageStep::Finished(DialogResult::Closed)
    );
    assert_eq!(
        dialog.handle_pending(&WindowEvent::CloseRequested),
        MessageStep::Finished(DialogResult::Closed)
    );
    assert_eq!(
        dialog.handle(&WindowEvent::RedrawRequested),
        MessageStep::Continue { redraw: true, start_drag: false }
    );
    let mut bare = MessageBuilder::new().show(Vec::new());
    assert_eq!(
        bare.handle(&key(KEY_RETURN)),
        MessageStep::Continue { redraw: false, start_drag: false }
    );
}

#[test]
fn message_buttons_report_the_place_of_their_label() {
    // Labels Yes, No, Maybe are shown as Maybe, No, Yes.
    let buttons = vec![Button::new("Maybe", 0), Button::new("No", 0), Button::new("Yes", 0)];
    let mut dialog = MessageBuilder::new().buttons(ButtonPreset::YesNo).show(buttons);
    dialog.place_button(0, 0, 0, None);
    dialog.place_button(1, 100, 0, None);
    dialog.place_button(2, 200, 0, Some(50));
    assert_eq!(dialog.buttons()[2].width(), 50);
    assert_eq!(dialog.buttons()[1].x(), 100);
    assert_eq!(
        dialog.handle(&move_to(210, 10)),
        MessageStep::Continue { redraw: true, start_drag: false }
    );
    assert_eq!(dialog.handle(&PRESS), MessageStep::Continue { redraw: true, start_drag: false });
    assert_eq!(dialog.handle(&RELEASE), MessageStep::Finished(DialogResult::Button(0)));
    dialog.handle(&move_to(10, 10));
    dialog.handle(&PRESS);
    assert_eq!(dialog.handle(&RELEASE), MessageStep::Finished(DialogResult::Button(2)));
    dialog.handle_pending(&move_to(110, 10));
    dialog.handle_pending(&PRESS);
    assert_eq!(dialog.handle_pending(&RELEASE), MessageStep::Finished(DialogResult::Button(1)));
}

#[test]
fn message_window_is_dragged_when_the_pointer_moves_with_the_button_down() {
    let mut dialog = MessageBuilder::new().show(vec![Button::new("OK", 0)]);
    dialog.place_button(0, 500, 500, None);
    assert_eq!(
        dialog.handle(&move_to(10, 10)),
        MessageStep::Continue { redraw: true, start_drag: false }
    );
    assert_eq!(dialog.handle(&PRESS), MessageStep::Continue { redraw: false, start_drag: false });
    assert_eq!(
        dialog.handle(&move_to(11, 10)),
        MessageStep::Continue { redraw: true, start_drag: true }
    );
    assert_eq!(
        dialog.handle(&move_to(12, 10)),
        MessageStep::Continue { redraw: true, start_drag: false }
    );
    dialog.handle(&PRESS);
    dialog.handle(&RELEASE);
    assert_eq!(
        dialog.handle(&move_to(13, 10)),
        MessageStep::Continue { redraw: true, start_drag: false }
    );
}

#[test]
fn message_buttons_in_a_row_end_at_the_right() {
    let buttons = vec![Button::new("No", 0), Button::new("Yes", 40 * 64)];
    let mut dialog = MessageBuilder::new().show(buttons);
    let plan = DialogPlan { width: 300, height: 140, vertical: false };
    dialog.layout_buttons(plan, 64);
    let places: Vec<(i32, i32, u32)> =
        dialog.buttons().iter().map(|b| (b.x(), b.y(), b.width())).collect();
    // The last button ends 20 px left of the edge; 10 px lie between the two.
    assert_eq!(places, vec![(102, 88, 80), (192, 88, 88)]);
    dialog.layout_buttons(plan, 128);
    let places: Vec<(i32, i32, u32)> =
        dialog.buttons().iter().map(|b| (b.x(), b.y(), b.width())).collect();
    assert_eq!(places, vec![(372, 176, 80), (472, 176, 88)]);
}

#[test]
fn message_buttons_above_each_other_fill_the_width() {
    let buttons = vec![Button::new("A", 0), Button::new("B", 0), Button::new("C", 0)];
    let mut dialog = MessageBuilder::new().show(buttons);
    dialog.layout_buttons(DialogPlan { width: 190, height: 224, vertical: true }, 64);
    let places: Vec<(i32, i32, u32)> =
        dialog.buttons().iter().map(|b| (b.x(), b.y(), b.width())).collect();
    assert_eq!(places, vec![(20, 172, 150), (20, 130, 150), (20, 88, 150)]);
    dialog.layout_buttons(DialogPlan { width: 10, height: 10, vertical: true }, 96);
    let places: Vec<(i32, i32, u32)> =
        dialog.buttons().iter().map(|b| (b.x(), b.y(), b.width())).collect();
    assert_eq!(places, vec![(30, -63, 0), (30, -126, 0), (30, -189, 0)]);
}

#[test]
fn dialogs_by_kind() {
    let info = dialog_for(DialogType::Info, "", "Done");
    assert_eq!(info.message(), "Done");
    assert_eq!(info.labels(), vec!["OK"]);
    let question = dialog_for(DialogType::Question, "Sure?", "Go on?");
    assert_eq!(question.labels(), vec!["Yes", "No"]);
    assert_eq!(dialog_for(DialogType::Warning, "", "").labels(), vec!["OK"]);
    assert_eq!(dialog_for(DialogType::Error, "", "").labels(), vec!["OK"]);
    // An icon makes the content wider.
    assert_eq!(info.plan(&vec![80], (0, 0)).width, 258);
}

#[test]
fn looks_of_icons() {
    assert_eq!(icon_style(&Icon::Info), (rgb(66, 133, 244), IconShape::Circle, "i"));
    assert_eq!(icon_style(&Icon::Warning), (rgb(251, 188, 4), IconShape::Triangle, "!"));
    assert_eq!(icon_style(&Icon::Error), (rgb(234, 67, 53), IconShape::Circle, "X"));
    assert_eq!(icon_style(&Icon::Question), (rgb(52, 168, 83), IconShape::Circle, "?"));
    assert_eq!(
        icon_style(&Icon::Custom("x".to_string())),
        (rgb(100, 100, 100), IconShape::Circle, "i")
    );
}

#[test]
fn looks_of_days() {
    // September 2024 starts on a Sunday.
    let mut dialog = calendar(2024, 9, 8);
    let text = rgb(1, 2, 3);
    let today = (2024, 9, 8);
    assert_eq!(
        dialog.day_style(8, today, text),
        DayStyle { selected: true, hovered: false, today: false, text: rgb(255, 255, 255) }
    );
    assert_eq!(
        dialog.day_style(1, today, text),
        DayStyle { selected: false, hovered: false, today: false, text: rgb(200, 100, 100) }
    );
    assert_eq!(
        dialog.day_style(2, today, text),
        DayStyle { selected: false, hovered: false, today: false, text }
    );
    dialog.handle(&key(KEY_RIGHT));
    assert_eq!(
        dialog.day_style(8, today, text),
        DayStyle { selected: false, hovered: false, today: true, text: rgb(200, 100, 100) }
    );
    dialog.handle(&move_to(16 + 36, 16 + 40 + 28));
    assert_eq!(dialog.hovered_day(), Some(2));
    assert!(dialog.day_style(2, today, text).hovered);
    assert!(!dialog.day_style(3, today, text).hovered);
    assert!(!dialog.day_style(8, (2024, 10, 8), text).today);
}

#[test]
fn default_builders() {
    assert_eq!(MessageBuilder::default().labels(), vec!["OK"]);
    let dialog = CalendarBuilder::default().show(
        (2024, 1, 2),
        Button::new("OK", 0),
        Button::new("Cancel", 0),
    );
    assert_eq!(shown(&dialog), (2024, 1, 2));
}
