//! Calendar date picker dialog: dates, the builder, and the dialog's
//! reactions to input.

use crate::ui::event::{MouseButton, WindowEvent};
use crate::ui::widgets::button::{button_after, button_reacts, Button, ButtonState};
use crate::ui::{nearest_i32, to_i32, Colors};
use crate::ui::{KEY_DOWN, KEY_ESCAPE, KEY_LEFT, KEY_RETURN, KEY_RIGHT, KEY_UP};
use vstd::prelude::*;
use vstd::string::StringExecFns;

verus! {

/// The room around the dialog's content, in pixels.
pub const PADDING: u32 = 16;

/// The side of a day cell, in pixels.
pub const CELL_SIZE: u32 = 36;

/// The height of the header with month and year, in pixels.
pub const HEADER_HEIGHT: u32 = 40;

/// The height of the row of weekday names, in pixels.
pub const DAY_HEADER_HEIGHT: u32 = 28;

/// The number of seconds in a day.
pub const SECONDS_PER_DAY: u64 = 86400;

/// The latest day, counted from the start of 1970, whose year is sure to
/// fit 32 bits.
pub const MAX_DAY: u64 = 1_000_000_000_000;

/// Calendar dialog result.
#[derive(Debug, Clone, Copy, PartialEq, Eq, Structural)]
pub enum CalendarResult {
    /// User selected a date.
    Selected { year: u32, month: u32, day: u32 },
    /// User cancelled.
    Cancelled,
    /// Dialog was closed.
    Closed,
}

/// The character of a decimal digit.
pub open spec fn digit_char(digit: int) -> char {
    ('0' as u8 + digit) as char
}

/// The last `width` decimal digits of `value`, with zeros in front where
/// it has fewer.
pub open spec fn fixed_digits(value: nat, width: nat) -> Seq<char>
    decreases width,
{
    if width == 0 {
        Seq::empty()
    } else {
        fixed_digits(value / 10, (width - 1) as nat).push(digit_char((value % 10) as int))
    }
}

/// The number of decimal digits of `value`.
pub open spec fn digit_count(value: nat) -> nat
    decreases value,
{
    if value < 10 {
        1
    } else {
        1 + digit_count(value / 10)
    }
}

/// `value` in decimal digits, with zeros in front up to `width` digits.
pub open spec fn zero_padded(value: nat, width: nat) -> Seq<char> {
    if digit_count(value) > width {
        fixed_digits(value, digit_count(value))
    } else {
        fixed_digits(value, width)
    }
}

/// A date as text: the year in at least four digits, the month and the day
/// in at least two, with hyphens between them.
pub open spec fn date_text(year: u32, month: u32, day: u32) -> Seq<char> {
    zero_padded(year as nat, 4) + "-"@ + zero_padded(month as nat, 2) + "-"@ + zero_padded(
        day as nat,
        2,
    )
}

/// The text of one decimal digit.
fn digit_text(digit: u8) -> (text: &'static str)
    requires
        digit < 10,
    ensures
        text@ == seq![digit_char(digit as int)],
{
    proof {
        reveal_strlit("0");
        reveal_strlit("1");
        reveal_strlit("2");
        reveal_strlit("3");
        reveal_strlit("4");
        reveal_strlit("5");
        reveal_strlit("6");
        reveal_strlit("7");
        reveal_strlit("8");
        reveal_strlit("9");
    }
    let text = match digit {
        0 => "0",
        1 => "1",
        2 => "2",
        3 => "3",
        4 => "4",
        5 => "5",
        6 => "6",
        7 => "7",
        8 => "8",
        _ => "9",
    };
    assert(text@ =~= seq![digit_char(digit as int)]);
    text
}

/// Appends `zero_padded(value, width)` to `out`.
fn push_padded(out: &mut String, value: u32, width: usize)
    requires
        width <= 10,
    ensures
        final(out)@ == old(out)@ + zero_padded(value as nat, width as nat),
{
    let mut count: usize = 1;
    let mut rest: u32 = value / 10;
    while rest > 0
        invariant
            1 <= count <= 10,
            count + digit_count(rest as nat) == digit_count(value as nat) + (if rest == 0 {
                1nat
            } else {
                0nat
            }),
            rest <= 0xffff_ffff,
            count < 10 ==> rest < 1_000_000_000,
            count == 1 ==> rest <= 429_496_729,
            count == 2 ==> rest <= 42_949_672,
            count == 3 ==> rest <= 4_294_967,
            count == 4 ==> rest <= 429_496,
            count == 5 ==> rest <= 42_949,
            count == 6 ==> rest <= 4_294,
            count == 7 ==> rest <= 429,
            count == 8 ==> rest <= 42,
            count == 9 ==> rest <= 4,
            count == 10 ==> rest == 0,
        decreases rest,
    {
        rest = rest / 10;
        count += 1;
    }
    let total: usize = if count > width {
        count
    } else {
        width
    };
    let ghost target = fixed_digits(value as nat, total as nat);
    let mut digits: Vec<u8> = Vec::new();
    let mut left: u32 = value;
    let ghost mut suffix: Seq<char> = Seq::empty();
    assert(fixed_digits(left as nat, total as nat) + suffix =~= target);
    while digits.len() < total
        invariant
            digits.len() <= total,
            suffix.len() == digits.len(),
            fixed_digits(left as nat, (total - digits.len()) as nat) + suffix == target,
            forall|i: int| 0 <= i < digits.len() ==> digits@[i] < 10,
            forall|i: int|
                0 <= i < digits.len() ==> suffix[digits.len() - 1 - i] == digit_char(
                    digits@[i] as int,
                ),
        decreases total - digits.len(),
    {
        let digit: u8 = (left % 10) as u8;
        proof {
            let front = fixed_digits((left / 10) as nat, (total - digits.len() - 1) as nat);
            assert(front.push(digit_char(digit as int)) + suffix =~= front + (seq![
                digit_char(digit as int),
            ] + suffix));
            suffix = seq![digit_char(digit as int)] + suffix;
        }
        digits.push(digit);
        left = left / 10;
    }
    assert(suffix =~= target);
    let ghost start = out@;
    let mut i: usize = total;
    while i > 0
        invariant
            i <= total,
            total == digits.len(),
            suffix.len() == total,
            forall|k: int| 0 <= k < digits.len() ==> digits@[k] < 10,
            forall|k: int|
                0 <= k < digits.len() ==> suffix[digits.len() - 1 - k] == digit_char(
                    digits@[k] as int,
                ),
            out@ == start + suffix.take(total - i),
        decreases i,
    {
        i -= 1;
        out.append(digit_text(digits[i]));
        assert(out@ =~= start + suffix.take(total - i));
    }
    assert(suffix.take(total as int) =~= suffix);
}

impl CalendarResult {
    /// The exit code of the result: 0 for a date, 1 for cancelling, 255
    /// for closing the dialog.
    pub open spec fn spec_exit_code(&self) -> i32 {
        match self {
            CalendarResult::Selected { .. } => 0,
            CalendarResult::Cancelled => 1,
            CalendarResult::Closed => 255,
        }
    }

    /// Computes `spec_exit_code`.
    pub fn exit_code(&self) -> (code: i32)
        ensures
            code == self.spec_exit_code(),
    {
        match self {
            CalendarResult::Selected { .. } => 0,
            CalendarResult::Cancelled => 1,
            CalendarResult::Closed => 255,
        }
    }

    /// Returns the date as a string in YYYY-MM-DD format; nothing where no
    /// date was selected.
    pub fn to_string(&self) -> (text: Option<String>)
        ensures
            match self {
                CalendarResult::Selected { year, month, day } => text matches Some(s) && s@
                    == date_text(*year, *month, *day),
                _ => text is None,
            },
    {
        match self {
            CalendarResult::Selected { year, month, day } => {
                let mut out = String::new();
                assert(out@ + zero_padded(*year as nat, 4) =~= zero_padded(*year as nat, 4));
                push_padded(&mut out, *year, 4);
                out.append("-");
                push_padded(&mut out, *month, 2);
                out.append("-");
                push_padded(&mut out, *day, 2);
                Some(out)
            },
            _ => None,
        }
    }
}

/// Whether `year` is a leap year.
pub open spec fn leap_year(year: int) -> bool {
    (year % 4 == 0 && year % 100 != 0) || year % 400 == 0
}

/// The number of days of a month. A month that is none has 30.
pub open spec fn month_length(year: int, month: int) -> int {
    if month == 2 {
        if leap_year(year) {
            29
        } else {
            28
        }
    } else if month == 4 || month == 6 || month == 9 || month == 11 {
        30
    } else if 1 <= month <= 12 {
        31
    } else {
        30
    }
}

/// The number of days of a year.
pub open spec fn year_length(year: int) -> int {
    if leap_year(year) {
        366
    } else {
        365
    }
}

/// The number of days from the start of 1970 to the start of `year`.
pub open spec fn days_before_year(year: int) -> int
    decreases year - 1970,
{
    if year <= 1970 {
        0
    } else {
        days_before_year(year - 1) + year_length(year - 1)
    }
}

/// The number of days from the start of `year` to the start of `month`.
pub open spec fn days_before_month(year: int, month: int) -> int
    decreases month,
{
    if month <= 1 {
        0
    } else {
        days_before_month(year, month - 1) + month_length(year, month - 1)
    }
}

/// Whether `day` days after the start of 1970 it is the given date.
pub open spec fn is_date_of(day: int, year: int, month: int, day_of_month: int) -> bool {
    &&& year >= 1970
    &&& 1 <= month <= 12
    &&& 1 <= day_of_month <= month_length(year, month)
    &&& day == days_before_year(year) + days_before_month(year, month) + day_of_month - 1
}

/// The weekday of the first day of a month, 0 for Sunday, by Zeller's
/// congruence.
pub open spec fn zeller(year: int, month: int) -> int {
    let m = if month < 3 {
        month + 12
    } else {
        month
    };
    let y = if month < 3 {
        year - 1
    } else {
        year
    };
    let k = y % 100;
    let j = y / 100;
    let h = (1 + (13 * (m + 1)) / 5 + k + k / 4 + j / 4 + 5 * j) % 7;
    (h + 6) % 7
}

/// Computes `leap_year`.
pub fn is_leap_year(year: u32) -> (leap: bool)
    ensures
        leap == leap_year(year as int),
{
    (year % 4 == 0 && year % 100 != 0) || (year % 400 == 0)
}

/// Computes `month_length`.
pub fn days_in_month(year: u32, month: u32) -> (days: u32)
    ensures
        days == month_length(year as int, month as int),
        28 <= days <= 31,
{
    match month {
        1 => 31,
        2 => if is_leap_year(year) {
            29
        } else {
            28
        },
        3 => 31,
        4 => 30,
        5 => 31,
        6 => 30,
        7 => 31,
        8 => 31,
        9 => 30,
        10 => 31,
        11 => 30,
        12 => 31,
        _ => 30,
    }
}

/// Get the day of week (0=Sunday) for the first day of the month.
pub fn first_day_of_month(year: u32, month: u32) -> (weekday: u32)
    ensures
        weekday == zeller(year as int, month as int),
        weekday < 7,
{
    let m: u64 = if month < 3 {
        month as u64 + 12
    } else {
        month as u64
    };
    if month < 3 && year == 0 {
        // The year before year 0: its last two digits are 99, its century -1.
        proof {
            assert((-1int) % 100 == 99);
            assert((-1int) / 100 == -1);
            assert((-1int) / 4 == -1);
        }
        let h: u64 = (1 + (13 * (m + 1)) / 5 + 99 + 24 - 1 - 5) % 7;
        return ((h + 6) % 7) as u32;
    }
    let y: u64 = if month < 3 {
        year as u64 - 1
    } else {
        year as u64
    };
    let k: u64 = y % 100;
    let j: u64 = y / 100;
    let h: u64 = (1 + (13 * (m + 1)) / 5 + k + k / 4 + j / 4 + 5 * j) % 7;
    ((h + 6) % 7) as u32
}

/// The English name of a month; "Unknown" for a month that is none.
pub open spec fn month_name_text(month: u32) -> Seq<char> {
    match month {
        1 => "January"@,
        2 => "February"@,
        3 => "March"@,
        4 => "April"@,
        5 => "May"@,
        6 => "June"@,
        7 => "July"@,
        8 => "August"@,
        9 => "September"@,
        10 => "October"@,
        11 => "November"@,
        12 => "December"@,
        _ => "Unknown"@,
    }
}

/// Computes `month_name_text`.
pub fn month_name(month: u32) -> (name: &'static str)
    ensures
        name@ == month_name_text(month),
{
    match month {
        1 => "January",
        2 => "February",
        3 => "March",
        4 => "April",
        5 => "May",
        6 => "June",
        7 => "July",
        8 => "August",
        9 => "September",
        10 => "October",
        11 => "November",
        12 => "December",
        _ => "Unknown",
    }
}

/// The date, as year, month and day, at `secs` seconds after the start of
/// 1970.
pub fn current_date(secs: u64) -> (date: (u32, u32, u32))
    requires
        secs / SECONDS_PER_DAY <= MAX_DAY,
    ensures
        is_date_of((secs / SECONDS_PER_DAY) as int, date.0 as int, date.1 as int, date.2 as int),
{
    let days: u64 = secs / 86400;
    let mut year: u32 = 1970;
    let mut remaining: u64 = days;
    loop
        invariant
            1970 <= year,
            remaining <= days <= MAX_DAY,
            days == days_before_year(year as int) + remaining,
            365 * (year - 1970) <= days - remaining,
        ensures
            1970 <= year,
            days == days_before_year(year as int) + remaining,
            remaining < year_length(year as int),
        decreases remaining,
    {
        let days_in_year: u64 = if is_leap_year(year) {
            366
        } else {
            365
        };
        if remaining < days_in_year {
            break ;
        }
        remaining -= days_in_year;
        year += 1;
    }
    let mut month: u32 = 1;
    proof {
        reveal_with_fuel(days_before_month, 14);
        assert(days_before_month(year as int, 13) == year_length(year as int));
    }
    loop
        invariant
            1 <= month <= 12,
            1970 <= year,
            days == days_before_year(year as int) + days_before_month(year as int, month as int)
                + remaining,
            days_before_month(year as int, month as int) + remaining < days_before_month(
                year as int,
                13,
            ),
        ensures
            1 <= month <= 12,
            days == days_before_year(year as int) + days_before_month(year as int, month as int)
                + remaining,
            remaining < month_length(year as int, month as int),
        decreases 13 - month,
    {
        let days_in: u64 = days_in_month(year, month) as u64;
        if remaining < days_in {
            break ;
        }
        proof {
            reveal_with_fuel(days_before_month, 14);
            if month == 12 {
                assert(days_before_month(year as int, 13) == days_before_month(year as int, 12)
                    + month_length(year as int, 12));
            }
        }
        remaining -= days_in;
        month += 1;
    }
    let day: u32 = remaining as u32 + 1;
    (year, month, day)
}

/// Calendar dialog builder.
pub struct CalendarBuilder {
    title: String,
    text: String,
    year: Option<u32>,
    month: Option<u32>,
    day: Option<u32>,
    colors: Option<Colors>,
}

/// The settings of a calendar dialog.
pub ghost struct CalendarSettings {
    pub title: Seq<char>,
    pub text: Seq<char>,
    pub year: Option<u32>,
    pub month: Option<u32>,
    pub day: Option<u32>,
    pub colors: Option<Colors>,
}

impl CalendarSettings {
    /// Whether the month and the day, where they are set, are a month of
    /// the year and a day of some month. Every builder's settings are.
    pub open spec fn valid(self) -> bool {
        &&& self.month matches Some(month) ==> 1 <= month <= 12
        &&& self.day matches Some(day) ==> 1 <= day <= 31
    }
}

/// `value` kept between `low` and `high`.
pub open spec fn clamped(value: u32, low: u32, high: u32) -> u32 {
    if value < low {
        low
    } else if value > high {
        high
    } else {
        value
    }
}

impl View for CalendarBuilder {
    type V = CalendarSettings;

    closed spec fn view(&self) -> CalendarSettings {
        CalendarSettings {
            title: self.title@,
            text: self.text@,
            year: self.year,
            month: self.month,
            day: self.day,
            colors: self.colors,
        }
    }
}

impl CalendarBuilder {
    /// The settings of a new builder: nothing is set.
    pub open spec fn new_settings() -> CalendarSettings {
        CalendarSettings {
            title: Seq::empty(),
            text: Seq::empty(),
            year: None,
            month: None,
            day: None,
            colors: None,
        }
    }

    /// A builder without title, text, date or colors.
    pub fn new() -> (builder: Self)
        ensures
            builder@ == Self::new_settings(),
            builder@.valid(),
    {
        Self {
            title: String::new(),
            text: String::new(),
            year: None,
            month: None,
            day: None,
            colors: None,
        }
    }

    /// Sets the window title.
    pub fn title(self, title: &str) -> (builder: Self)
        ensures
            builder@ == (CalendarSettings { title: title@, ..self@ }),
            self@.valid() ==> builder@.valid(),
    {
        let mut builder = self;
        builder.title = title.to_owned();
        builder
    }

    /// Sets the prompt above the calendar.
    pub fn text(self, text: &str) -> (builder: Self)
        ensures
            builder@ == (CalendarSettings { text: text@, ..self@ }),
            self@.valid() ==> builder@.valid(),
    {
        let mut builder = self;
        builder.text = text.to_owned();
        builder
    }

    /// Set initial year.
    pub fn year(self, year: u32) -> (builder: Self)
        ensures
            builder@ == (CalendarSettings { year: Some(year), ..self@ }),
            self@.valid() ==> builder@.valid(),
    {
        let mut builder = self;
        builder.year = Some(year);
        builder
    }

    /// Set initial month (1-12); a month outside is moved to the nearest.
    pub fn month(self, month: u32) -> (builder: Self)
        ensures
            builder@ == (CalendarSettings { month: Some(clamped(month, 1, 12)), ..self@ }),
            self@.valid() ==> builder@.valid(),
    {
        let mut builder = self;
        builder.month = Some(
            if month < 1 {
                1
            } else if month > 12 {
                12
            } else {
                month
            },
        );
        builder
    }

    /// Set initial day (1-31); a day outside is moved to the nearest.
    pub fn day(self, day: u32) -> (builder: Self)
        ensures
            builder@ == (CalendarSettings { day: Some(clamped(day, 1, 31)), ..self@ }),
            self@.valid() ==> builder@.valid(),
    {
        let mut builder = self;
        builder.day = Some(
            if day < 1 {
                1
            } else if day > 31 {
                31
            } else {
                day
            },
        );
        builder
    }

    /// Sets the color theme.
    pub fn colors(self, colors: Colors) -> (builder: Self)
        ensures
            builder@ == (CalendarSettings { colors: Some(colors), ..self@ }),
            self@.valid() ==> builder@.valid(),
    {
        let mut builder = self;
        builder.colors = Some(colors);
        builder
    }

    /// Opens the dialog: its state before any input. The date shown is the
    /// one set, with today's year, month and day for what was not set. The
    /// buttons are laid out from the right edge, Cancel last.
    pub fn show(self, today: (u32, u32, u32), ok_button: Button, cancel_button: Button) -> (dialog:
        CalendarDialog)
        requires
            self@.valid(),
            1 <= today.1 <= 12,
            1 <= today.2 <= 31,
        ensures
            dialog.well_formed(),
            dialog@ == opened(self@, today, ok_button@, cancel_button@),
    {
        let has_text = self.text.as_str().unicode_len() > 0;
        let text_height: u32 = if has_text {
            24
        } else {
            0
        };
        let width: u32 = CELL_SIZE * 7 + PADDING * 2;
        let height: u32 = PADDING * 2 + text_height + HEADER_HEIGHT + DAY_HEADER_HEIGHT + CELL_SIZE
            * 6 + 50;
        let calendar_y: i32 = if has_text {
            PADDING as i32 + text_height as i32 + 8
        } else {
            PADDING as i32
        };
        let button_y: i32 = (height - PADDING - 32) as i32;
        let mut ok_button = ok_button;
        let mut cancel_button = cancel_button;
        let cancel_x: i64 = width as i64 - PADDING as i64 - cancel_button.width() as i64;
        let ok_x: i64 = cancel_x - 10 - ok_button.width() as i64;
        cancel_button.set_position(to_i32(cancel_x as i128), button_y);
        ok_button.set_position(to_i32(ok_x as i128), button_y);
        CalendarDialog {
            title: self.title,
            text: self.text,
            colors: self.colors,
            year: match self.year {
                Some(year) => year,
                None => today.0,
            },
            month: match self.month {
                Some(month) => month,
                None => today.1,
            },
            selected_day: match self.day {
                Some(day) => day,
                None => today.2,
            },
            hovered_day: None,
            mouse_x: 0,
            mouse_y: 0,
            width,
            height,
            calendar_x: PADDING as i32,
            calendar_y,
            ok_button,
            cancel_button,
        }
    }
}

impl Default for CalendarBuilder {
    /// A builder without title, text, date or colors.
    fn default() -> (builder: Self)
        ensures
            builder@ == CalendarBuilder::new_settings(),
            builder@.valid(),
    {
        Self::new()
    }
}

/// A calendar dialog while it is shown.
pub struct CalendarDialog {
    title: String,
    text: String,
    colors: Option<Colors>,
    year: u32,
    month: u32,
    selected_day: u32,
    hovered_day: Option<u32>,
    mouse_x: i32,
    mouse_y: i32,
    width: u32,
    height: u32,
    calendar_x: i32,
    calendar_y: i32,
    ok_button: Button,
    cancel_button: Button,
}

/// The state of a calendar dialog.
pub ghost struct CalendarState {
    pub title: Seq<char>,
    pub text: Seq<char>,
    pub colors: Option<Colors>,
    /// The month that is shown.
    pub year: u32,
    pub month: u32,
    /// The day that is selected.
    pub selected_day: u32,
    /// The day under the pointer, if it is over one.
    pub hovered_day: Option<u32>,
    /// Where the pointer was last seen.
    pub mouse_x: i32,
    pub mouse_y: i32,
    /// The size of the window.
    pub width: u32,
    pub height: u32,
    /// The top left corner of the calendar.
    pub calendar_x: i32,
    pub calendar_y: i32,
    pub ok_button: ButtonState,
    pub cancel_button: ButtonState,
}

/// What a dialog does after an event.
#[derive(Debug, Clone, Copy, PartialEq, Eq, Structural)]
pub enum CalendarStep {
    /// The dialog stays open; `redraw` tells whether it is to be drawn
    /// anew.
    Continue { redraw: bool },
    /// The dialog ends with this result.
    Finished(CalendarResult),
}

/// The state of the dialog that `show` opens.
pub open spec fn opened(
    settings: CalendarSettings,
    today: (u32, u32, u32),
    ok_button: ButtonState,
    cancel_button: ButtonState,
) -> CalendarState {
    let text_height: int = if settings.text.len() > 0 {
        24
    } else {
        0
    };
    let width = CELL_SIZE * 7 + PADDING * 2;
    let height = PADDING * 2 + text_height + HEADER_HEIGHT + DAY_HEADER_HEIGHT + CELL_SIZE * 6
        + 50;
    let button_y = height - PADDING - 32;
    let cancel_x = width - PADDING - cancel_button.width;
    CalendarState {
        title: settings.title,
        text: settings.text,
        colors: settings.colors,
        year: match settings.year {
            Some(year) => year,
            None => today.0,
        },
        month: match settings.month {
            Some(month) => month,
            None => today.1,
        },
        selected_day: match settings.day {
            Some(day) => day,
            None => today.2,
        },
        hovered_day: None,
        mouse_x: 0,
        mouse_y: 0,
        width: width as u32,
        height: height as u32,
        calendar_x: PADDING as i32,
        calendar_y: if settings.text.len() > 0 {
            (PADDING + text_height + 8) as i32
        } else {
            PADDING as i32
        },
        ok_button: ButtonState {
            x: nearest_i32(cancel_x - 10 - ok_button.width),
            y: button_y as i32,
            ..ok_button
        },
        cancel_button: ButtonState { x: nearest_i32(cancel_x), y: button_y as i32, ..cancel_button },
    }
}

/// The month before: the year and the month. Before year zero there is
/// none: the year stays.
pub open spec fn month_before(year: u32, month: u32) -> (u32, u32) {
    if month == 1 {
        (
            if year == 0 {
                0u32
            } else {
                (year - 1) as u32
            },
            12u32,
        )
    } else {
        (year, (month - 1) as u32)
    }
}

/// The month after: the year and the month. After the last year that
/// fits there is none: the year stays.
pub open spec fn month_after(year: u32, month: u32) -> (u32, u32) {
    if month == 12 {
        (
            if year == u32::MAX {
                u32::MAX
            } else {
                (year + 1) as u32
            },
            1u32,
        )
    } else {
        (year, (month + 1) as u32)
    }
}

/// The smaller of two days.
pub open spec fn earlier_day(a: u32, b: u32) -> u32 {
    if a < b {
        a
    } else {
        b
    }
}

/// The row at which the day cells start.
pub open spec fn grid_top(state: CalendarState) -> int {
    state.calendar_y + HEADER_HEIGHT + DAY_HEADER_HEIGHT
}

/// The day whose cell holds the point, if the point is over the cell of a
/// day of the shown month. `first_day` is the weekday of the month's first
/// day.
pub open spec fn day_at(state: CalendarState, first_day: int, x: int, y: int) -> Option<u32> {
    let left = state.calendar_x as int;
    let top = grid_top(state);
    if left <= x < left + CELL_SIZE * 7 && top <= y < top + CELL_SIZE * 6 {
        let col = (x - left) / (CELL_SIZE as int);
        let row = (y - top) / (CELL_SIZE as int);
        let day = row * 7 + col - first_day + 1;
        if 1 <= day <= month_length(state.year as int, state.month as int) {
            Some(day as u32)
        } else {
            None
        }
    } else {
        None
    }
}

/// The dialog after the pointer moved to a position: the day under the
/// pointer is looked up anew.
pub open spec fn after_cursor_move(state: CalendarState, x: i32, y: i32) -> CalendarState {
    CalendarState {
        mouse_x: x,
        mouse_y: y,
        hovered_day: day_at(state, zeller(state.year as int, state.month as int), x as int, y as int),
        ..state
    }
}

/// The dialog with another month shown; the selected day is moved into
/// the month if the month is too short for it.
pub open spec fn shown_month(state: CalendarState, to: (u32, u32)) -> CalendarState {
    CalendarState {
        year: to.0,
        month: to.1,
        selected_day: earlier_day(state.selected_day, month_length(to.0 as int, to.1 as int) as u32),
        ..state
    }
}

/// The dialog after the left mouse button went down: on the left end of
/// the header the month before is shown, on its right end the month after;
/// and a day under the pointer is selected.
pub open spec fn after_press(state: CalendarState) -> CalendarState {
    let top = state.calendar_y as int;
    let left = state.calendar_x as int;
    let in_header = top <= state.mouse_y < top + HEADER_HEIGHT;
    let turned = if in_header && left <= state.mouse_x < left + 32 {
        shown_month(state, month_before(state.year, state.month))
    } else if in_header && state.mouse_x >= left + CELL_SIZE * 7 - 32 {
        shown_month(state, month_after(state.year, state.month))
    } else {
        state
    };
    match state.hovered_day {
        Some(day) => CalendarState { selected_day: day, ..turned },
        None => turned,
    }
}

/// Whether the dialog is drawn anew after the left mouse button went down.
pub open spec fn press_redraws(state: CalendarState) -> bool {
    let top = state.calendar_y as int;
    let left = state.calendar_x as int;
    let in_header = top <= state.mouse_y < top + HEADER_HEIGHT;
    ||| in_header && left <= state.mouse_x < left + 32
    ||| in_header && state.mouse_x >= left + CELL_SIZE * 7 - 32
    ||| state.hovered_day is Some
}

/// The dialog after an arrow key: left and right move the selection by a
/// day, up and down by a week, into the month before or after where the
/// shown month ends.
pub open spec fn after_arrow(state: CalendarState, keysym: u32) -> CalendarState {
    let days = month_length(state.year as int, state.month as int);
    let before = month_before(state.year, state.month);
    let after = month_after(state.year, state.month);
    let days_before = month_length(before.0 as int, before.1 as int);
    if keysym == KEY_LEFT {
        if state.selected_day > 1 {
            CalendarState { selected_day: (state.selected_day - 1) as u32, ..state }
        } else {
            CalendarState { year: before.0, month: before.1, selected_day: days_before as u32, ..state }
        }
    } else if keysym == KEY_RIGHT {
        if state.selected_day < days {
            CalendarState { selected_day: (state.selected_day + 1) as u32, ..state }
        } else {
            CalendarState { year: after.0, month: after.1, selected_day: 1, ..state }
        }
    } else if keysym == KEY_UP {
        if state.selected_day > 7 {
            CalendarState { selected_day: (state.selected_day - 7) as u32, ..state }
        } else {
            CalendarState {
                year: before.0,
                month: before.1,
                selected_day: (days_before - (7 - state.selected_day)) as u32,
                ..state
            }
        }
    } else if keysym == KEY_DOWN {
        if state.selected_day + 7 <= days {
            CalendarState { selected_day: (state.selected_day + 7) as u32, ..state }
        } else {
            CalendarState {
                year: after.0,
                month: after.1,
                selected_day: (state.selected_day + 7 - days) as u32,
                ..state
            }
        }
    } else {
        state
    }
}

/// Whether a key is one of the four arrow keys.
pub open spec fn is_arrow(keysym: u32) -> bool {
    keysym == KEY_LEFT || keysym == KEY_RIGHT || keysym == KEY_UP || keysym == KEY_DOWN
}

/// The dialog after an event, before its buttons see the event.
pub open spec fn after_input(state: CalendarState, event: WindowEvent) -> CalendarState {
    match event {
        WindowEvent::CursorMove(pos) => after_cursor_move(state, pos.x, pos.y),
        WindowEvent::ButtonPress(MouseButton::Left) => after_press(state),
        WindowEvent::KeyPress(key) => after_arrow(state, key.keysym),
        _ => state,
    }
}

/// Whether the dialog itself asks to be drawn anew after an event.
pub open spec fn input_redraws(state: CalendarState, event: WindowEvent) -> bool {
    match event {
        WindowEvent::RedrawRequested => true,
        WindowEvent::CursorMove(pos) => after_cursor_move(state, pos.x, pos.y).hovered_day
            != state.hovered_day,
        WindowEvent::ButtonPress(MouseButton::Left) => press_redraws(state),
        WindowEvent::KeyPress(key) => is_arrow(key.keysym),
        _ => false,
    }
}

/// The result with which an event ends the dialog at once, if it does:
/// closing the window, the return key, the escape key.
pub open spec fn ends_at_once(state: CalendarState, event: WindowEvent) -> Option<CalendarResult> {
    match event {
        WindowEvent::CloseRequested => Some(CalendarResult::Closed),
        WindowEvent::KeyPress(key) => if key.keysym == KEY_RETURN {
            Some(
                CalendarResult::Selected {
                    year: state.year,
                    month: state.month,
                    day: state.selected_day,
                },
            )
        } else if key.keysym == KEY_ESCAPE {
            Some(CalendarResult::Cancelled)
        } else {
            None
        },
        _ => None,
    }
}

/// The dialog after an event.
///
/// An event that ends the dialog at once leaves it as it is. Else the
/// dialog takes the event in, then its buttons do; a click on OK ends the
/// dialog with the selected date, a click on Cancel cancels it, and asking
/// a button takes its click.
pub open spec fn calendar_after(state: CalendarState, event: WindowEvent) -> CalendarState {
    if ends_at_once(state, event) is Some {
        state
    } else {
        let input = after_input(state, event);
        let ok = button_after(input.ok_button, event);
        let cancel = button_after(input.cancel_button, event);
        CalendarState {
            ok_button: ButtonState { clicked: false, ..ok },
            cancel_button: if ok.clicked {
                cancel
            } else {
                ButtonState { clicked: false, ..cancel }
            },
            ..input
        }
    }
}

/// What the dialog does after an event.
pub open spec fn calendar_step(state: CalendarState, event: WindowEvent) -> CalendarStep {
    match ends_at_once(state, event) {
        Some(result) => CalendarStep::Finished(result),
        None => {
            let input = after_input(state, event);
            let ok = button_after(input.ok_button, event);
            let cancel = button_after(input.cancel_button, event);
            if ok.clicked {
                CalendarStep::Finished(
                    CalendarResult::Selected {
                        year: input.year,
                        month: input.month,
                        day: input.selected_day,
                    },
                )
            } else if cancel.clicked {
                CalendarStep::Finished(CalendarResult::Cancelled)
            } else {
                CalendarStep::Continue {
                    redraw: input_redraws(state, event) || button_reacts(input.ok_button, event)
                        || button_reacts(input.cancel_button, event),
                }
            }
        },
    }
}

/// The dialog after a further event that was waiting behind the first:
/// only the pointer position is taken from it, and the buttons see it.
pub open spec fn calendar_after_pending(state: CalendarState, event: WindowEvent) -> CalendarState {
    match event {
        WindowEvent::CloseRequested => state,
        _ => {
            let moved = match event {
                WindowEvent::CursorMove(pos) => CalendarState {
                    mouse_x: pos.x,
                    mouse_y: pos.y,
                    ..state
                },
                _ => state,
            };
            CalendarState {
                ok_button: button_after(state.ok_button, event),
                cancel_button: button_after(state.cancel_button, event),
                ..moved
            }
        },
    }
}

/// What the dialog does after a further event that was waiting.
pub open spec fn calendar_step_pending(state: CalendarState, event: WindowEvent) -> CalendarStep {
    match event {
        WindowEvent::CloseRequested => CalendarStep::Finished(CalendarResult::Closed),
        _ => CalendarStep::Continue {
            redraw: button_reacts(state.ok_button, event) || button_reacts(
                state.cancel_button,
                event,
            ),
        },
    }
}

impl View for CalendarDialog {
    type V = CalendarState;

    closed spec fn view(&self) -> CalendarState {
        CalendarState {
            title: self.title@,
            text: self.text@,
            colors: self.colors,
            year: self.year,
            month: self.month,
            selected_day: self.selected_day,
            hovered_day: self.hovered_day,
            mouse_x: self.mouse_x,
            mouse_y: self.mouse_y,
            width: self.width,
            height: self.height,
            calendar_x: self.calendar_x,
            calendar_y: self.calendar_y,
            ok_button: self.ok_button@,
            cancel_button: self.cancel_button@,
        }
    }
}

/// Whether a state is one that a dialog can be in: a month of the year is
/// shown, and the selected and the hovered day are days of some month.
pub open spec fn sound(state: CalendarState) -> bool {
    &&& 1 <= state.month <= 12
    &&& 1 <= state.selected_day <= 31
    &&& state.hovered_day matches Some(day) ==> 1 <= day <= 31
}

impl CalendarDialog {
    /// The invariant of a dialog.
    pub open spec fn well_formed(&self) -> bool {
        sound(self@)
    }

    /// The year that is shown.
    pub fn year(&self) -> (year: u32)
        ensures
            year == self@.year,
    {
        self.year
    }

    /// The month that is shown.
    pub fn month(&self) -> (month: u32)
        ensures
            month == self@.month,
    {
        self.month
    }

    /// The day that is selected.
    pub fn selected_day(&self) -> (day: u32)
        ensures
            day == self@.selected_day,
    {
        self.selected_day
    }

    /// The day under the pointer.
    pub fn hovered_day(&self) -> (day: Option<u32>)
        ensures
            day == self@.hovered_day,
    {
        self.hovered_day
    }

    /// The size of the window.
    pub fn size(&self) -> (size: (u32, u32))
        ensures
            size == (self@.width, self@.height),
    {
        (self.width, self.height)
    }

    /// The top left corner of the calendar.
    pub fn origin(&self) -> (origin: (i32, i32))
        ensures
            origin == (self@.calendar_x, self@.calendar_y),
    {
        (self.calendar_x, self.calendar_y)
    }

    /// The window title: the one set, or "Select Date".
    pub fn title(&self) -> (title: &str)
        ensures
            title@ == if self@.title.len() == 0 {
                "Select Date"@
            } else {
                self@.title
            },
    {
        if self.title.as_str().unicode_len() == 0 {
            "Select Date"
        } else {
            self.title.as_str()
        }
    }

    /// The prompt above the calendar.
    pub fn text(&self) -> (text: &str)
        ensures
            text@ == self@.text,
    {
        self.text.as_str()
    }

    /// The colors that were set.
    pub fn colors(&self) -> (colors: Option<Colors>)
        ensures
            colors == self@.colors,
    {
        self.colors
    }

    /// The OK button.
    pub fn ok_button(&self) -> (button: &Button)
        ensures
            button@ == self@.ok_button,
    {
        &self.ok_button
    }

    /// The Cancel button.
    pub fn cancel_button(&self) -> (button: &Button)
        ensures
            button@ == self@.cancel_button,
    {
        &self.cancel_button
    }

    /// Shows another month.
    fn show_month(&mut self, to: (u32, u32))
        requires
            sound(old(self)@),
            1 <= to.1 <= 12,
        ensures
            final(self)@ == shown_month(old(self)@, to),
            sound(final(self)@),
    {
        self.year = to.0;
        self.month = to.1;
        let days = days_in_month(to.0, to.1);
        if days < self.selected_day {
            self.selected_day = days;
        }
    }

    /// Takes in an event that the window was waited for: computes
    /// `calendar_step` and leaves the dialog as `calendar_after` says.
    pub fn handle(&mut self, event: &WindowEvent) -> (step: CalendarStep)
        requires
            old(self).well_formed(),
        ensures
            final(self).well_formed(),
            final(self)@ == calendar_after(old(self)@, *event),
            step == calendar_step(old(self)@, *event),
    {
        let mut redraw = false;
        match event {
            WindowEvent::CloseRequested => {
                return CalendarStep::Finished(CalendarResult::Closed);
            },
            WindowEvent::RedrawRequested => {
                redraw = true;
            },
            WindowEvent::CursorMove(pos) => {
                let hovered = self.day_under(pos.x, pos.y);
                redraw = !same_day(hovered, self.hovered_day);
                self.mouse_x = pos.x;
                self.mouse_y = pos.y;
                self.hovered_day = hovered;
            },
            WindowEvent::ButtonPress(MouseButton::Left) => {
                let top: i64 = self.calendar_y as i64;
                let left: i64 = self.calendar_x as i64;
                let x: i64 = self.mouse_x as i64;
                let y: i64 = self.mouse_y as i64;
                let hovered = self.hovered_day;
                if top <= y && y < top + HEADER_HEIGHT as i64 {
                    if left <= x && x < left + 32 {
                        let to = previous_month(self.year, self.month);
                        self.show_month(to);
                        redraw = true;
                    } else if x >= left + (CELL_SIZE * 7) as i64 - 32 {
                        let to = following_month(self.year, self.month);
                        self.show_month(to);
                        redraw = true;
                    }
                }
                if let Some(day) = hovered {
                    self.selected_day = day;
                    redraw = true;
                }
            },
            WindowEvent::KeyPress(key) => {
                let keysym = key.keysym;
                if keysym == KEY_RETURN {
                    return CalendarStep::Finished(
                        CalendarResult::Selected {
                            year: self.year,
                            month: self.month,
                            day: self.selected_day,
                        },
                    );
                } else if keysym == KEY_ESCAPE {
                    return CalendarStep::Finished(CalendarResult::Cancelled);
                } else if keysym == KEY_LEFT {
                    if self.selected_day > 1 {
                        self.selected_day -= 1;
                    } else {
                        let to = previous_month(self.year, self.month);
                        self.year = to.0;
                        self.month = to.1;
                        self.selected_day = days_in_month(to.0, to.1);
                    }
                    redraw = true;
                } else if keysym == KEY_RIGHT {
                    if self.selected_day < days_in_month(self.year, self.month) {
                        self.selected_day += 1;
                    } else {
                        let to = following_month(self.year, self.month);
                        self.year = to.0;
                        self.month = to.1;
                        self.selected_day = 1;
                    }
                    redraw = true;
                } else if keysym == KEY_UP {
                    if self.selected_day > 7 {
                        self.selected_day -= 7;
                    } else {
                        let to = previous_month(self.year, self.month);
                        self.year = to.0;
                        self.month = to.1;
                        self.selected_day = days_in_month(to.0, to.1) - (7 - self.selected_day);
                    }
                    redraw = true;
                } else if keysym == KEY_DOWN {
                    let days = days_in_month(self.year, self.month);
                    if self.selected_day + 7 <= days {
                        self.selected_day += 7;
                    } else {
                        let overflow = self.selected_day + 7 - days;
                        let to = following_month(self.year, self.month);
                        self.year = to.0;
                        self.month = to.1;
                        self.selected_day = overflow;
                    }
                    redraw = true;
                }
            },
            _ => {},
        }
        let ok_reacts = self.ok_button.process_event(event);
        let cancel_reacts = self.cancel_button.process_event(event);
        if self.ok_button.was_clicked() {
            return CalendarStep::Finished(
                CalendarResult::Selected {
                    year: self.year,
                    month: self.month,
                    day: self.selected_day,
                },
            );
        }
        if self.cancel_button.was_clicked() {
            return CalendarStep::Finished(CalendarResult::Cancelled);
        }
        CalendarStep::Continue { redraw: redraw || ok_reacts || cancel_reacts }
    }

    /// Takes in a further event that was waiting behind the one handled:
    /// computes `calendar_step_pending` and leaves the dialog as
    /// `calendar_after_pending` says.
    pub fn handle_pending(&mut self, event: &WindowEvent) -> (step: CalendarStep)
        requires
            old(self).well_formed(),
        ensures
            final(self).well_formed(),
            final(self)@ == calendar_after_pending(old(self)@, *event),
            step == calendar_step_pending(old(self)@, *event),
    {
        if let WindowEvent::CloseRequested = event {
            return CalendarStep::Finished(CalendarResult::Closed);
        }
        if let WindowEvent::CursorMove(pos) = event {
            self.mouse_x = pos.x;
            self.mouse_y = pos.y;
        }
        let ok_reacts = self.ok_button.process_event(event);
        let cancel_reacts = self.cancel_button.process_event(event);
        CalendarStep::Continue { redraw: ok_reacts || cancel_reacts }
    }

    /// The day whose cell holds the point: computes `day_at`.
    pub fn day_under(&self, x: i32, y: i32) -> (day: Option<u32>)
        requires
            self.well_formed(),
        ensures
            day == day_at(
                self@,
                zeller(self@.year as int, self@.month as int),
                x as int,
                y as int,
            ),
            day matches Some(d) ==> 1 <= d <= 31,
    {
        let left: i64 = self.calendar_x as i64;
        let top: i64 = self.calendar_y as i64 + HEADER_HEIGHT as i64 + DAY_HEADER_HEIGHT as i64;
        let x: i64 = x as i64;
        let y: i64 = y as i64;
        if left <= x && x < left + (CELL_SIZE * 7) as i64 && top <= y && y < top + (CELL_SIZE
            * 6) as i64 {
            let col: i64 = (x - left) / CELL_SIZE as i64;
            let row: i64 = (y - top) / CELL_SIZE as i64;
            let first_day: i64 = first_day_of_month(self.year, self.month) as i64;
            let day: i64 = row * 7 + col - first_day + 1;
            if day >= 1 && day <= days_in_month(self.year, self.month) as i64 {
                return Some(day as u32);
            }
        }
        None
    }

    /// The cell of a day of the shown month: its column and its row in the
    /// grid of seven columns.
    pub fn cell_of(&self, day: u32) -> (cell: (u32, u32))
        requires
            self.well_formed(),
            1 <= day <= 31,
        ensures
            cell.0 == (zeller(self@.year as int, self@.month as int) + day - 1) % 7,
            cell.1 == (zeller(self@.year as int, self@.month as int) + day - 1) / 7,
    {
        let index: u32 = first_day_of_month(self.year, self.month) + day - 1;
        (index % 7, index / 7)
    }
}

/// Whether two optional days are the same.
fn same_day(a: Option<u32>, b: Option<u32>) -> (same: bool)
    ensures
        same == (a == b),
{
    match (a, b) {
        (Some(x), Some(y)) => x == y,
        (None, None) => true,
        _ => false,
    }
}

/// Computes `month_before`.
fn previous_month(year: u32, month: u32) -> (r: (u32, u32))
    requires
        1 <= month <= 12,
    ensures
        r == month_before(year, month),
        1 <= r.1 <= 12,
{
    if month == 1 {
        (
            if year == 0 {
                0
            } else {
                year - 1
            },
            12,
        )
    } else {
        (year, month - 1)
    }
}

/// Computes `month_after`.
fn following_month(year: u32, month: u32) -> (r: (u32, u32))
    requires
        1 <= month <= 12,
    ensures
        r == month_after(year, month),
        1 <= r.1 <= 12,
{
    if month == 12 {
        (
            if year == u32::MAX {
                u32::MAX
            } else {
                year + 1
            },
            1,
        )
    } else {
        (year, month + 1)
    }
}

/// Moving the selection a day on and a day back leaves it where it was, as
/// long as the calendar does not run out of years.
pub proof fn lemma_right_then_left(state: CalendarState)
    requires
        sound(state),
        state.selected_day <= month_length(state.year as int, state.month as int),
        state.year < u32::MAX,
    ensures
        after_arrow(after_arrow(state, KEY_RIGHT), KEY_LEFT) == state,
{
}

/// The return key ends the dialog with the date that is selected.
pub proof fn lemma_return_selects(state: CalendarState)
    ensures
        calendar_step(state, WindowEvent::KeyPress(crate::ui::event::KeyEvent { keysym: KEY_RETURN }))
            == CalendarStep::Finished(
            CalendarResult::Selected {
                year: state.year,
                month: state.month,
                day: state.selected_day,
            },
        ),
{
}

/// How the cell of a day is drawn.
#[derive(Debug, Clone, Copy, PartialEq, Eq, Structural)]
pub struct DayStyle {
    /// Whether the cell is filled as the selected day.
    pub selected: bool,
    /// Whether the cell is filled as the day under the pointer.
    pub hovered: bool,
    /// Whether the cell gets the ring that marks today.
    pub today: bool,
    /// The color of the day's number.
    pub text: crate::render::canvas::Rgba,
}

/// The look of the cell of `day`: the selected day is filled and has a
/// white number, else the day under the pointer is filled; today gets a
/// ring unless it is selected; Sundays are red, other days have the text
/// color.
pub open spec fn day_look(
    state: CalendarState,
    first_day: int,
    day: u32,
    today: (u32, u32, u32),
    text: crate::render::canvas::Rgba,
) -> DayStyle {
    let selected = day == state.selected_day;
    DayStyle {
        selected,
        hovered: !selected && state.hovered_day == Some(day),
        today: !selected && state.year == today.0 && state.month == today.1 && day == today.2,
        text: if selected {
            crate::render::canvas::Rgba { r: 255, g: 255, b: 255, a: 255 }
        } else if (first_day + day - 1) % 7 == 0 {
            crate::render::canvas::Rgba { r: 200, g: 100, b: 100, a: 255 }
        } else {
            text
        },
    }
}

impl CalendarDialog {
    /// The look of the cell of a day of the shown month: computes
    /// `day_look`.
    pub fn day_style(&self, day: u32, today: (u32, u32, u32), text: crate::render::canvas::Rgba) -> (style:
        DayStyle)
        requires
            self.well_formed(),
            1 <= day <= 31,
        ensures
            style == day_look(
                self@,
                zeller(self@.year as int, self@.month as int),
                day,
                today,
                text,
            ),
    {
        let selected = day == self.selected_day;
        let hovered = match self.hovered_day {
            Some(hovered) => hovered == day,
            None => false,
        };
        let (column, _) = self.cell_of(day);
        DayStyle {
            selected,
            hovered: !selected && hovered,
            today: !selected && self.year == today.0 && self.month == today.1 && day == today.2,
            text: if selected {
                crate::render::canvas::rgb(255, 255, 255)
            } else if column == 0 {
                crate::render::canvas::rgb(200, 100, 100)
            } else {
                text
            },
        }
    }
}

/// The part of the congruence that depends on the year.
spec fn year_term(year: int) -> int {
    year % 100 + (year % 100) / 4 + (year / 100) / 4 + 5 * (year / 100)
}

/// The part of the congruence that depends on the month.
spec fn month_term(month: int) -> int {
    1 + (13 * (month + 1)) / 5
}

/// From one year to the next the congruence moves on by the days of a year.
proof fn lemma_year_term_step(year: int)
    requires
        year >= 0,
    ensures
        (year_term(year + 1) - year_term(year)) % 7 == if leap_year(year + 1) {
            2int
        } else {
            1int
        },
{
    let k = year % 100;
    let j = year / 100;
    if k < 99 {
        assert((year + 1) % 100 == k + 1);
        assert((year + 1) / 100 == j);
        assert(((year + 1) % 4 == 0) == ((k + 1) % 4 == 0));
        assert((year + 1) % 400 != 0);
    } else {
        assert((year + 1) % 100 == 0);
        assert((year + 1) / 100 == j + 1);
        assert(((year + 1) % 400 == 0) == ((j + 1) % 4 == 0));
    }
}

/// The weekday of the first day of a month of 1970.
proof fn lemma_zeller_1970(month: int)
    requires
        1 <= month <= 12,
    ensures
        zeller(1970, month) == (4 + days_before_month(1970, month)) % 7,
{
    reveal_with_fuel(days_before_month, 14);
}

/// The days of a common year before its months.
spec fn common_days_before(month: int) -> int {
    if month <= 1 {
        0
    } else if month == 2 {
        31
    } else if month == 3 {
        59
    } else if month == 4 {
        90
    } else if month == 5 {
        120
    } else if month == 6 {
        151
    } else if month == 7 {
        181
    } else if month == 8 {
        212
    } else if month == 9 {
        243
    } else if month == 10 {
        273
    } else if month == 11 {
        304
    } else {
        334
    }
}

/// The days before a month are those of a common year and, from March on
/// in a leap year, one more.
proof fn lemma_days_before_month(year: int, month: int)
    requires
        1 <= month <= 12,
    ensures
        days_before_month(year, month) == common_days_before(month) + if month > 2 && leap_year(
            year,
        ) {
            1int
        } else {
            0int
        },
{
    reveal_with_fuel(days_before_month, 14);
}

/// Moving the year on moves weekday and day count alike.
proof fn lemma_weekday_moves_on(a: int, d: int, b: int, e: int)
    requires
        ((a % 7) + 6) % 7 == (4 + b) % 7,
        (d - e) % 7 == 0,
    ensures
        (((a + d) % 7) + 6) % 7 == (4 + b + e) % 7,
{
}

/// 1 for the months whose year in the congruence is the year before.
spec fn year_shift(month: int) -> int {
    if month < 3 {
        1
    } else {
        0
    }
}

/// The congruence in its two parts.
proof fn lemma_zeller_parts(year: int, month: int)
    ensures
        zeller(year, month) == ((month_term(month + 12 * year_shift(month)) + year_term(
            year - year_shift(month),
        )) % 7 + 6) % 7,
{
}

/// The first day of a month lies a year, common or leap, behind the first
/// day of the same month of the year before.
proof fn lemma_days_to_next_year(year: int, month: int)
    requires
        year > 1970,
        1 <= month <= 12,
    ensures
        days_before_year(year) + days_before_month(year, month) == days_before_year(year - 1)
            + days_before_month(year - 1, month) + 365 + if leap_year(year - year_shift(month)) {
            1int
        } else {
            0int
        },
{
    lemma_days_before_month(year, month);
    lemma_days_before_month(year - 1, month);
}

/// A step of the year term and a year of days are the same weekdays apart.
proof fn lemma_same_weekdays_apart(moved: int, leap: int)
    requires
        moved % 7 == 1 + leap,
    ensures
        (moved - (365 + leap)) % 7 == 0,
{
}

/// The weekday that the congruence gives is the weekday by counting days
/// from the first day of 1970, a Thursday.
#[verifier::rlimit(50)]
pub proof fn lemma_zeller_counts_days(year: int, month: int)
    requires
        year >= 1970,
        1 <= month <= 12,
    ensures
        zeller(year, month) == (4 + days_before_year(year) + days_before_month(year, month)) % 7,
    decreases year,
{
    if year == 1970 {
        lemma_zeller_1970(month);
    } else {
        lemma_zeller_counts_days(year - 1, month);
        let shift = year_shift(month);
        let term = month_term(month + 12 * shift);
        let before = days_before_year(year - 1) + days_before_month(year - 1, month);
        let days = days_before_year(year) + days_before_month(year, month);
        let leap: int = if leap_year(year - shift) {
            1
        } else {
            0
        };
        let old_term = year_term(year - 1 - shift);
        let moved = year_term(year - shift) - old_term;
        assert(moved % 7 == 1 + leap) by {
            lemma_year_term_step(year - 1 - shift);
        }
        assert(days - before == 365 + leap) by {
            lemma_days_to_next_year(year, month);
        }
        assert((moved - (days - before)) % 7 == 0) by {
            lemma_same_weekdays_apart(moved, leap);
        }
        assert(((term + old_term) % 7 + 6) % 7 == (4 + before) % 7) by {
            lemma_zeller_parts(year - 1, month);
        }
        assert((((term + old_term + moved) % 7) + 6) % 7 == (4 + before + (days - before)) % 7) by {
            lemma_weekday_moves_on(term + old_term, moved, before, days - before);
        }
        assert(zeller(year, month) == ((term + old_term + moved) % 7 + 6) % 7) by {
            lemma_zeller_parts(year, month);
        }
    }
}

} // verus!
