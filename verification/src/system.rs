//! The system subsystem model: the device clock, input state, regional
//! preferences and a handful of system toggles.
//!
//! The device feeds this state (time advancing, buttons changing, the crank
//! docking); the host mirrors those readings in through the `set_*` feed
//! methods, and game logic reads them back through the same queries the
//! native system API answers. The date-to-epoch conversion is the one piece
//! of real computation here and is carried out, and proved, in this model
//! itself: the engine counts seconds from midnight, January 1, 2000.

use vstd::prelude::*;

use crate::bitmap::Bitmap;

verus! {

/// Whether a checkmark menu row starts checked.
#[derive(Clone, Copy, PartialEq, Eq, Structural, Debug)]
pub enum Checked {
    Checked,
    Unchecked,
}

impl Checked {
    /// The numeric encoding the native engine uses.
    pub fn code(&self) -> (r: i32)
        ensures
            r == 0 <==> self is Checked,
            r == 1 <==> self is Unchecked,
    {
        match self {
            Checked::Checked => 0,
            Checked::Unchecked => 1,
        }
    }
}

/// A time span of whole seconds plus leftover milliseconds.
#[derive(Clone, Copy, PartialEq, Eq, Structural, Debug)]
pub struct Duration {
    pub seconds: u32,
    pub milliseconds: u32,
}

/// One of the six device buttons.
#[derive(Clone, Copy, PartialEq, Eq, Structural, Debug)]
pub enum Button {
    Left,
    Right,
    Up,
    Down,
    B,
    A,
}

impl Button {
    pub open spec fn spec_mask(self) -> u32 {
        match self {
            Button::Left => 1,
            Button::Right => 2,
            Button::Up => 4,
            Button::Down => 8,
            Button::B => 16,
            Button::A => 32,
        }
    }

    /// The engine's bit for this button in a button-state word.
    pub fn mask(&self) -> (r: u32)
        ensures
            r == self.spec_mask(),
    {
        match self {
            Button::Left => 1,
            Button::Right => 2,
            Button::Up => 4,
            Button::Down => 8,
            Button::B => 16,
            Button::A => 32,
        }
    }
}

/// A set of device buttons, one bit per button, in the engine's encoding.
#[derive(Clone, Copy, PartialEq, Eq, Structural, Debug)]
pub struct ButtonState {
    pub bits: u32,
}

impl ButtonState {
    /// The empty set of buttons.
    pub fn none() -> (r: ButtonState)
        ensures
            r.bits == 0,
    {
        ButtonState { bits: 0 }
    }

    /// Builds a button set from the engine's bit word.
    pub fn from_bits(bits: u32) -> (r: ButtonState)
        ensures
            r.bits == bits,
    {
        ButtonState { bits }
    }

    /// Whether the set holds the given button.
    pub fn contains(&self, button: Button) -> (r: bool)
        ensures
            r == (self.bits & button.spec_mask() != 0),
    {
        self.bits & button.mask() != 0
    }

    /// The union of two button sets.
    pub fn union(&self, other: &ButtonState) -> (r: ButtonState)
        ensures
            r.bits == self.bits | other.bits,
    {
        ButtonState { bits: self.bits | other.bits }
    }

    /// Adds one button to the set.
    pub fn with(&self, button: Button) -> (r: ButtonState)
        ensures
            r.bits == self.bits | button.spec_mask(),
    {
        ButtonState { bits: self.bits | button.mask() }
    }
}

/// The full input reading: buttons held now, pushed since the last frame,
/// and released since the last frame.
#[derive(Clone, Copy, PartialEq, Eq, Structural, Debug)]
pub struct Buttons {
    pub pushed: ButtonState,
    pub current: ButtonState,
    pub released: ButtonState,
}

impl Buttons {
    /// The reading in which nothing is pressed.
    pub fn idle() -> (r: Buttons)
        ensures
            r.pushed.bits == 0 && r.current.bits == 0 && r.released.bits == 0,
    {
        Buttons {
            pushed: ButtonState { bits: 0 },
            current: ButtonState { bits: 0 },
            released: ButtonState { bits: 0 },
        }
    }
}

/// The optional peripherals that can be switched on, one bit each, in the
/// engine's encoding.
#[derive(Clone, Copy, PartialEq, Eq, Structural, Debug)]
pub struct Peripherals {
    pub bits: u32,
}

impl Peripherals {
    /// No peripheral enabled.
    pub fn none() -> (r: Peripherals)
        ensures
            r.bits == 0,
    {
        Peripherals { bits: 0 }
    }

    /// The accelerometer alone.
    pub fn accelerometer() -> (r: Peripherals)
        ensures
            r.bits == 1,
    {
        Peripherals { bits: 1 }
    }
}

/// Whether the crank is folded into the device body.
#[derive(Clone, Copy, PartialEq, Eq, Structural, Debug)]
pub enum CrankState {
    Docked,
    Undocked,
}

/// Whether the device may lock itself while the game runs.
#[derive(Clone, Copy, PartialEq, Eq, Structural, Debug)]
pub enum AutoLockState {
    Enabled,
    Disabled,
}

impl AutoLockState {
    /// The numeric encoding of the native `setAutoLockDisabled` argument.
    pub fn code(&self) -> (r: i32)
        ensures
            r == 0 <==> self is Enabled,
            r == 1 <==> self is Disabled,
    {
        match self {
            AutoLockState::Enabled => 0,
            AutoLockState::Disabled => 1,
        }
    }
}

/// Whether docking and undocking the crank plays the built-in sounds.
#[derive(Clone, Copy, PartialEq, Eq, Structural, Debug)]
pub enum CrankSoundState {
    Enabled,
    Disabled,
}

/// The system language of the device.
#[derive(Clone, Copy, PartialEq, Eq, Structural, Debug)]
pub enum Language {
    English,
    Japanese,
    Unknown,
}

impl Language {
    pub open spec fn spec_code(self) -> u32 {
        match self {
            Language::English => 0,
            Language::Japanese => 1,
            Language::Unknown => 2,
        }
    }

    /// The numeric encoding the native engine uses.
    pub fn code(&self) -> (r: u32)
        ensures
            r == self.spec_code(),
    {
        match self {
            Language::English => 0,
            Language::Japanese => 1,
            Language::Unknown => 2,
        }
    }

    /// Decodes the engine's numeric language value; exactly the codes 0
    /// through 2 decode, and decoding inverts [`Language::code`].
    pub fn try_from_code(value: u32) -> (r: Option<Language>)
        ensures
            r is Some <==> value <= 2,
            r matches Some(l) ==> l.spec_code() == value,
    {
        match value {
            0 => Some(Language::English),
            1 => Some(Language::Japanese),
            2 => Some(Language::Unknown),
            _ => None,
        }
    }
}

/// A wall-clock date and time, in the engine's layout.
#[derive(Clone, Copy, PartialEq, Eq, Structural, Debug)]
pub struct DateTime {
    pub year: u16,
    pub month: u8,
    pub day: u8,
    pub weekday: u8,
    pub hour: u8,
    pub minute: u8,
    pub second: u8,
}

/// The Gregorian leap-year rule.
pub open spec fn is_leap_year(y: int) -> bool {
    y % 4 == 0 && (y % 100 != 0 || y % 400 == 0)
}

/// Days in the given month of the given year.
pub open spec fn days_in_month(y: int, m: int) -> int {
    if m == 2 {
        if is_leap_year(y) {
            29
        } else {
            28
        }
    } else if m == 4 || m == 6 || m == 9 || m == 11 {
        30
    } else {
        31
    }
}

/// Days in the whole year.
pub open spec fn days_in_year(y: int) -> int {
    if is_leap_year(y) {
        366
    } else {
        365
    }
}

/// Days from January 1, 2000 to January 1 of year `y`.
pub open spec fn days_before_year(y: int) -> int
    decreases y - 2000,
{
    if y <= 2000 {
        0
    } else {
        days_before_year(y - 1) + days_in_year(y - 1)
    }
}

/// Days from the start of year `y` to the start of its month `m`.
pub open spec fn days_before_month(y: int, m: int) -> int
    decreases m,
{
    if m <= 1 {
        0
    } else {
        days_before_month(y, m - 1) + days_in_month(y, m - 1)
    }
}

/// Whether a `DateTime` names a real calendar instant the epoch counter can
/// hold: a valid Gregorian date from 2000 through 2134 and a valid time of
/// day.
pub open spec fn datetime_valid(dt: DateTime) -> bool {
    2000 <= dt.year <= 2134 && 1 <= dt.month <= 12 && 1 <= dt.day && dt.day <= days_in_month(
        dt.year as int,
        dt.month as int,
    ) && dt.hour <= 23 && dt.minute <= 59 && dt.second <= 59
}

/// Seconds from midnight, January 1, 2000 to the given instant.
pub open spec fn spec_datetime_to_epoch(dt: DateTime) -> int {
    (days_before_year(dt.year as int) + days_before_month(dt.year as int, dt.month as int)
        + dt.day as int - 1) * 86400 + dt.hour as int * 3600 + dt.minute as int * 60
        + dt.second as int
}

/// Each year adds at most 366 days to the running day count.
pub proof fn lemma_days_before_year_bound(y: int)
    requires
        2000 <= y,
    ensures
        0 <= days_before_year(y) <= (y - 2000) * 366,
    decreases y - 2000,
{
    if y > 2000 {
        lemma_days_before_year_bound(y - 1);
        assert((y - 1 - 2000) * 366 + 366 == (y - 2000) * 366) by (nonlinear_arith);
    }
}

/// Each month adds at most 31 days to the running day count.
pub proof fn lemma_days_before_month_bound(y: int, m: int)
    requires
        1 <= m <= 13,
    ensures
        0 <= days_before_month(y, m) <= (m - 1) * 31,
    decreases m,
{
    if m > 1 {
        lemma_days_before_month_bound(y, m - 1);
        assert((m - 1 - 1) * 31 + 31 == (m - 1) * 31) by (nonlinear_arith);
    }
}

/// The running day count never shrinks as years advance.
pub proof fn lemma_days_before_year_monotonic(y1: int, y2: int)
    requires
        2000 <= y1 <= y2,
    ensures
        days_before_year(y1) <= days_before_year(y2),
    decreases y2 - y1,
{
    if y1 < y2 {
        lemma_days_before_year_monotonic(y1, y2 - 1);
    }
}

/// The months of a year sum to the year's whole length.
pub proof fn lemma_months_cover_year(y: int)
    ensures
        days_before_month(y, 13) == days_in_year(y),
{
    reveal_with_fuel(days_before_month, 14);
}

/// The weekday of a day count from the epoch, 1 for Monday through 7 for
/// Sunday; the epoch day itself was a Saturday.
pub open spec fn spec_weekday_of_days(days: int) -> int {
    (days + 5) % 7 + 1
}

/// What kind of row a system-menu entry is, with the state the engine
/// keeps for it; the row's callback stays on the host side.
pub enum MenuRowKind {
    Button,
    Checkmark { checked: Checked },
    Options { options: Vec<String>, selected: usize },
}

/// One row of the system menu.
pub struct MenuRow {
    pub title: String,
    pub kind: MenuRowKind,
}

/// The system subsystem model.
pub struct System {
    pub now_ms: u32,
    pub elapsed_base_ms: u32,
    pub epoch_time: Duration,
    pub tz_offset: i32,
    pub use_24_hour: bool,
    pub is_flipped: bool,
    pub reduce_flashing_pref: bool,
    pub buttons: Buttons,
    pub crank_docked: bool,
    pub auto_lock: AutoLockState,
    pub crank_sounds: CrankSoundState,
    pub peripherals: Peripherals,
    pub language: Language,
    pub fps_drawn_at: Option<(i32, i32)>,
    pub button_queue_size: Option<i32>,
    pub console: Vec<String>,
    pub error_raised: bool,
    pub menu: Vec<Option<MenuRow>>,
    pub menu_image: Option<(Bitmap, i32)>,
}

impl System {
    /// The state the system model powers on in, field by field.
    pub open spec fn spec_is_initial(self) -> bool {
        &&& self.now_ms == 0
        &&& self.elapsed_base_ms == 0
        &&& self.epoch_time == (Duration { seconds: 0, milliseconds: 0 })
        &&& self.tz_offset == 0
        &&& !self.use_24_hour
        &&& !self.is_flipped
        &&& !self.reduce_flashing_pref
        &&& self.buttons == (Buttons {
            pushed: ButtonState { bits: 0 },
            current: ButtonState { bits: 0 },
            released: ButtonState { bits: 0 },
        })
        &&& self.crank_docked
        &&& self.auto_lock is Enabled
        &&& self.crank_sounds is Enabled
        &&& self.peripherals == (Peripherals { bits: 0 })
        &&& self.language is English
        &&& self.fps_drawn_at is None
        &&& self.button_queue_size is None
        &&& self.console@ == Seq::<String>::empty()
        &&& !self.error_raised
        &&& self.menu@ == Seq::<Option<MenuRow>>::empty()
        &&& self.menu_image is None
    }

    pub open spec fn spec_now_ms(self) -> u32 {
        self.now_ms
    }

    pub open spec fn spec_elapsed_base_ms(self) -> u32 {
        self.elapsed_base_ms
    }

    pub open spec fn spec_epoch_time(self) -> Duration {
        self.epoch_time
    }

    pub open spec fn spec_tz_offset(self) -> i32 {
        self.tz_offset
    }

    pub open spec fn spec_use_24_hour(self) -> bool {
        self.use_24_hour
    }

    pub open spec fn spec_flipped(self) -> bool {
        self.is_flipped
    }

    pub open spec fn spec_reduce_flashing(self) -> bool {
        self.reduce_flashing_pref
    }

    pub open spec fn spec_buttons(self) -> Buttons {
        self.buttons
    }

    pub open spec fn spec_crank_docked(self) -> bool {
        self.crank_docked
    }

    pub open spec fn spec_auto_lock(self) -> AutoLockState {
        self.auto_lock
    }

    pub open spec fn spec_crank_sounds(self) -> CrankSoundState {
        self.crank_sounds
    }

    pub open spec fn spec_peripherals(self) -> Peripherals {
        self.peripherals
    }

    pub open spec fn spec_language(self) -> Language {
        self.language
    }

    pub open spec fn spec_fps_drawn_at(self) -> Option<(i32, i32)> {
        self.fps_drawn_at
    }

    pub open spec fn spec_button_queue_size(self) -> Option<i32> {
        self.button_queue_size
    }

    /// The lines written to the device console so far.
    pub open spec fn spec_console(self) -> Seq<String> {
        self.console@
    }

    /// Whether a fatal error was ever raised.
    pub open spec fn spec_error_raised(self) -> bool {
        self.error_raised
    }

    /// The system-menu rows; a removed row leaves an empty slot so that row
    /// identities stay stable.
    pub open spec fn spec_menu(self) -> Seq<Option<MenuRow>> {
        self.menu@
    }

    pub fn new() -> (r: System)
        ensures
            r.spec_is_initial(),
    {
        System {
            now_ms: 0,
            elapsed_base_ms: 0,
            epoch_time: Duration { seconds: 0, milliseconds: 0 },
            tz_offset: 0,
            use_24_hour: false,
            is_flipped: false,
            reduce_flashing_pref: false,
            buttons: Buttons::idle(),
            crank_docked: true,
            auto_lock: AutoLockState::Enabled,
            crank_sounds: CrankSoundState::Enabled,
            peripherals: Peripherals { bits: 0 },
            language: Language::English,
            fps_drawn_at: None,
            button_queue_size: None,
            console: Vec::new(),
            error_raised: false,
            menu: Vec::new(),
            menu_image: None,
        }
    }

    /// Writes one line to the device console.
    pub fn log_to_console(&mut self, line: String)
        ensures
            final(self).spec_console() == old(self).spec_console().push(line),
            *final(self) == (System { console: final(self).console, ..*old(self) }),
    {
        self.console.push(line);
    }

    /// The lines written to the console so far.
    pub fn console_lines(&self) -> (r: &Vec<String>)
        ensures
            r@ == self.spec_console(),
    {
        &self.console
    }

    /// Reports a fatal error to the device, which also lands on the
    /// console; the device halts the game after it.
    pub fn error(&mut self, message: String)
        ensures
            final(self).spec_console() == old(self).spec_console().push(message),
            final(self).spec_error_raised(),
            *final(self) == (System {
                console: final(self).console,
                error_raised: true,
                ..*old(self)
            }),
    {
        self.console.push(message);
        self.error_raised = true;
    }

    /// Host feed: the device clock moved forward by `ms` milliseconds.
    pub fn advance_time(&mut self, ms: u32)
        requires
            old(self).spec_now_ms() + ms <= u32::MAX,
        ensures
            final(self).spec_now_ms() == old(self).spec_now_ms() + ms,
            *final(self) == (System { now_ms: final(self).now_ms, ..*old(self) }),
    {
        self.now_ms = self.now_ms + ms;
    }

    /// Host feed: the wall-clock reading from the device.
    pub fn set_seconds_since_epoch(&mut self, time: Duration)
        ensures
            *final(self) == (System { epoch_time: time, ..*old(self) }),
    {
        self.epoch_time = time;
    }

    /// Host feed: the current input reading from the device.
    pub fn set_button_state(&mut self, buttons: Buttons)
        ensures
            *final(self) == (System { buttons, ..*old(self) }),
    {
        self.buttons = buttons;
    }

    /// Host feed: whether the crank is docked.
    pub fn set_crank_docked(&mut self, docked: bool)
        ensures
            *final(self) == (System { crank_docked: docked, ..*old(self) }),
    {
        self.crank_docked = docked;
    }

    /// Host feed: the timezone offset, in seconds from UTC.
    pub fn set_timezone_offset(&mut self, offset: i32)
        ensures
            *final(self) == (System { tz_offset: offset, ..*old(self) }),
    {
        self.tz_offset = offset;
    }

    /// Host feed: the user's system preferences.
    pub fn set_system_prefs(&mut self, use_24_hour: bool, flipped: bool, reduce_flashing: bool)
        ensures
            *final(self) == (System {
                use_24_hour,
                is_flipped: flipped,
                reduce_flashing_pref: reduce_flashing,
                ..*old(self)
            }),
    {
        self.use_24_hour = use_24_hour;
        self.is_flipped = flipped;
        self.reduce_flashing_pref = reduce_flashing;
    }

    /// Host feed: the device's system language.
    pub fn set_language(&mut self, language: Language)
        ensures
            *final(self) == (System { language, ..*old(self) }),
    {
        self.language = language;
    }

    /// Milliseconds since the device powered on.
    pub fn current_time_milliseconds(&self) -> (r: u32)
        ensures
            r == self.spec_now_ms(),
    {
        self.now_ms
    }

    /// The wall clock: seconds (and leftover milliseconds) since midnight,
    /// January 1, 2000.
    pub fn seconds_since_epoch(&self) -> (r: Duration)
        ensures
            r == self.spec_epoch_time(),
    {
        self.epoch_time
    }

    /// Restarts the high-resolution elapsed-time counter at the current
    /// instant.
    pub fn reset_elapsed_time(&mut self)
        ensures
            *final(self) == (System { elapsed_base_ms: old(self).now_ms, ..*old(self) }),
    {
        self.elapsed_base_ms = self.now_ms;
    }

    /// Milliseconds since the last [`System::reset_elapsed_time`].
    pub fn elapsed_time_milliseconds(&self) -> (r: u32)
        requires
            self.spec_elapsed_base_ms() <= self.spec_now_ms(),
        ensures
            r == self.spec_now_ms() - self.spec_elapsed_base_ms(),
    {
        self.now_ms - self.elapsed_base_ms
    }

    /// The timezone offset, in seconds from UTC.
    pub fn timezone_offset(&self) -> (r: i32)
        ensures
            r == self.spec_tz_offset(),
    {
        self.tz_offset
    }

    /// Seconds from midnight, January 1, 2000 to the given instant; the
    /// conversion the native engine performs, computed and proved here.
    pub fn convert_datetime_to_epoch(&self, datetime: &DateTime) -> (r: u32)
        requires
            datetime_valid(*datetime),
        ensures
            r == spec_datetime_to_epoch(*datetime),
    {
        let y: u32 = datetime.year as u32;
        let mut days: u32 = 0;
        let mut k: u32 = 2000;
        while k < y
            invariant
                2000 <= k <= y <= 2134,
                days == days_before_year(k as int),
                days <= (k - 2000) * 366,
            decreases y - k,
        {
            proof {
                lemma_days_before_year_bound(k as int + 1);
            }
            let leap: bool = k % 4 == 0 && (k % 100 != 0 || k % 400 == 0);
            if leap {
                days = days + 366;
            } else {
                days = days + 365;
            }
            k = k + 1;
        }
        proof {
            lemma_days_before_year_bound(y as int);
            lemma_days_before_month_bound(y as int, datetime.month as int);
        }
        let mut m: u32 = 1;
        while m < datetime.month as u32
            invariant
                1 <= m <= 12,
                m <= datetime.month,
                datetime_valid(*datetime),
                y == datetime.year,
                days == days_before_year(y as int) + days_before_month(y as int, m as int),
                days_before_year(y as int) <= (y - 2000) * 366,
                days_before_month(y as int, m as int) <= (m - 1) * 31,
            decreases datetime.month as int - m,
        {
            proof {
                lemma_days_before_year_bound(y as int);
                lemma_days_before_month_bound(y as int, m as int + 1);
            }
            let leap: bool = y % 4 == 0 && (y % 100 != 0 || y % 400 == 0);
            let month_days: u32 = if m == 2 {
                if leap {
                    29
                } else {
                    28
                }
            } else if m == 4 || m == 6 || m == 9 || m == 11 {
                30
            } else {
                31
            };
            days = days + month_days;
            m = m + 1;
        }
        let total_days: u32 = days + datetime.day as u32 - 1;
        total_days * 86400 + datetime.hour as u32 * 3600 + datetime.minute as u32 * 60
            + datetime.second as u32
    }

    /// The inverse conversion: the wall-clock instant a count of seconds
    /// from midnight, January 1, 2000 names, with its weekday filled in.
    /// Proved a round trip: converting the result back gives the count.
    pub fn convert_epoch_to_datetime(&self, epoch: u32) -> (r: DateTime)
        requires
            epoch < 86400 * days_before_year(2135),
        ensures
            datetime_valid(r),
            spec_datetime_to_epoch(r) == epoch,
            r.weekday == spec_weekday_of_days(
                days_before_year(r.year as int) + days_before_month(r.year as int, r.month as int)
                    + r.day as int - 1,
            ),
    {
        let total_days: u32 = epoch / 86400;
        let rem: u32 = epoch % 86400;
        proof {
            lemma_days_before_year_bound(2135);
            assert(total_days < days_before_year(2135));
        }
        let mut y: u32 = 2000;
        let mut days: u32 = total_days;
        loop
            invariant
                2000 <= y <= 2134,
                days_before_year(y as int) + days == total_days,
                total_days < days_before_year(2135),
            ensures
                2000 <= y <= 2134,
                days_before_year(y as int) + days == total_days,
                days < days_in_year(y as int),
            decreases 2135 - y,
        {
            let leap: bool = y % 4 == 0 && (y % 100 != 0 || y % 400 == 0);
            let year_days: u32 = if leap {
                366
            } else {
                365
            };
            proof {
                assert(year_days == days_in_year(y as int));
            }
            if days < year_days {
                break ;
            }
            proof {
                if y as int + 1 > 2134 {
                    lemma_days_before_year_monotonic(y as int + 1, 2135);
                    assert(days_before_year(y as int + 1) <= total_days);
                    assert(false);
                }
            }
            days = days - year_days;
            y = y + 1;
        }
        let leap: bool = y % 4 == 0 && (y % 100 != 0 || y % 400 == 0);
        proof {
            lemma_months_cover_year(y as int);
        }
        let mut m: u32 = 1;
        loop
            invariant
                1 <= m <= 12,
                2000 <= y <= 2134,
                leap == is_leap_year(y as int),
                days_before_year(y as int) + days_before_month(y as int, m as int) + days
                    == total_days,
                days_before_month(y as int, m as int) + days < days_in_year(y as int),
                days_before_month(y as int, 13) == days_in_year(y as int),
            ensures
                1 <= m <= 12,
                days_before_year(y as int) + days_before_month(y as int, m as int) + days
                    == total_days,
                days < days_in_month(y as int, m as int),
            decreases 13 - m,
        {
            let month_days: u32 = if m == 2 {
                if leap {
                    29
                } else {
                    28
                }
            } else if m == 4 || m == 6 || m == 9 || m == 11 {
                30
            } else {
                31
            };
            proof {
                assert(month_days == days_in_month(y as int, m as int));
            }
            if days < month_days {
                break ;
            }
            proof {
                if m as int + 1 > 12 {
                    assert(days_before_month(y as int, 13) == days_before_month(y as int, 12)
                        + days_in_month(y as int, 12));
                    assert(false);
                }
                lemma_days_before_month_bound(y as int, m as int + 1);
            }
            days = days - month_days;
            m = m + 1;
        }
        let day: u32 = days + 1;
        let weekday: u32 = (total_days + 5) % 7 + 1;
        let hour: u32 = rem / 3600;
        let minute: u32 = (rem % 3600) / 60;
        let second: u32 = rem % 60;
        proof {
            lemma_days_before_month_bound(y as int, m as int);
        }
        DateTime {
            year: y as u16,
            month: m as u8,
            day: day as u8,
            weekday: weekday as u8,
            hour: hour as u8,
            minute: minute as u8,
            second: second as u8,
        }
    }

    /// Whether the user prefers 24-hour time.
    pub fn should_display_24_hour_time(&self) -> (r: bool)
        ensures
            r == self.spec_use_24_hour(),
    {
        self.use_24_hour
    }

    /// Whether the user holds the device upside down.
    pub fn flipped(&self) -> (r: bool)
        ensures
            r == self.spec_flipped(),
    {
        self.is_flipped
    }

    /// Whether the user asked for reduced flashing.
    pub fn reduce_flashing(&self) -> (r: bool)
        ensures
            r == self.spec_reduce_flashing(),
    {
        self.reduce_flashing_pref
    }

    /// Draws the frame-rate counter at the given screen position; the model
    /// records where it was last drawn.
    pub fn draw_fps(&mut self, x: i32, y: i32)
        ensures
            *final(self) == (System { fps_drawn_at: Some((x, y)), ..*old(self) }),
    {
        self.fps_drawn_at = Some((x, y));
    }

    /// Flushes the instruction cache; no state of this model changes.
    pub fn clear_icache(&mut self)
        ensures
            *final(self) == *old(self),
    {
    }

    /// Switches the chosen optional peripherals on and the rest off.
    pub fn set_peripherals_enabled(&mut self, peripherals: Peripherals)
        ensures
            *final(self) == (System { peripherals, ..*old(self) }),
    {
        self.peripherals = peripherals;
    }

    /// The current input reading.
    pub fn button_state(&self) -> (r: Buttons)
        ensures
            r == self.spec_buttons(),
    {
        self.buttons
    }

    /// Configures the buffered button queue the engine reports input
    /// through.
    pub fn set_button_callback(&mut self, queue_size: i32)
        requires
            queue_size >= 0,
        ensures
            *final(self) == (System { button_queue_size: Some(queue_size), ..*old(self) }),
    {
        self.button_queue_size = Some(queue_size);
    }

    /// Whether the crank is docked.
    pub fn crank_state(&self) -> (r: CrankState)
        ensures
            r is Docked <==> self.spec_crank_docked(),
    {
        if self.crank_docked {
            CrankState::Docked
        } else {
            CrankState::Undocked
        }
    }

    /// Allows or forbids the device locking itself while the game runs.
    pub fn set_auto_lock_enabled(&mut self, state: AutoLockState)
        ensures
            *final(self) == (System { auto_lock: state, ..*old(self) }),
    {
        self.auto_lock = state;
    }

    /// Switches the built-in crank sounds; the engine reports the previous
    /// setting back.
    pub fn set_crank_sounds_enabled(&mut self, state: CrankSoundState) -> (previous: CrankSoundState)
        ensures
            *final(self) == (System { crank_sounds: state, ..*old(self) }),
            previous == old(self).spec_crank_sounds(),
    {
        let previous = self.crank_sounds;
        self.crank_sounds = state;
        previous
    }

    /// Adds a plain row to the system menu and hands back its stable row
    /// identity; the row's action callback stays with the host.
    pub fn add_menu_item(&mut self, title: String) -> (id: usize)
        ensures
            id == old(self).spec_menu().len(),
            final(self).spec_menu().len() == old(self).spec_menu().len() + 1,
            forall|j: int|
                0 <= j < old(self).spec_menu().len() ==> final(self).spec_menu()[j] == old(
                    self,
                ).spec_menu()[j],
            final(self).spec_menu()[id as int] matches Some(row) && row.title@ == title@
                && row.kind is Button,
            *final(self) == (System { menu: final(self).menu, ..*old(self) }),
    {
        let id = self.menu.len();
        self.menu.push(Some(MenuRow { title, kind: MenuRowKind::Button }));
        id
    }

    /// Adds a checkmark row to the system menu, starting in the given
    /// state.
    pub fn add_checkmark_menu_item(&mut self, title: String, checked: Checked) -> (id: usize)
        ensures
            id == old(self).spec_menu().len(),
            final(self).spec_menu().len() == old(self).spec_menu().len() + 1,
            forall|j: int|
                0 <= j < old(self).spec_menu().len() ==> final(self).spec_menu()[j] == old(
                    self,
                ).spec_menu()[j],
            final(self).spec_menu()[id as int] matches Some(row) && row.title@ == title@
                && row.kind == (MenuRowKind::Checkmark { checked }),
            *final(self) == (System { menu: final(self).menu, ..*old(self) }),
    {
        let id = self.menu.len();
        self.menu.push(Some(MenuRow { title, kind: MenuRowKind::Checkmark { checked } }));
        id
    }

    /// Adds an options row to the system menu; the first option starts
    /// selected.
    pub fn add_options_menu_item(&mut self, title: String, options: Vec<String>) -> (id: usize)
        ensures
            id == old(self).spec_menu().len(),
            final(self).spec_menu().len() == old(self).spec_menu().len() + 1,
            forall|j: int|
                0 <= j < old(self).spec_menu().len() ==> final(self).spec_menu()[j] == old(
                    self,
                ).spec_menu()[j],
            final(self).spec_menu()[id as int] matches Some(row) && row.title@ == title@
                && (row.kind matches MenuRowKind::Options { options: o, selected } && o@
                == options@ && selected == 0),
            *final(self) == (System { menu: final(self).menu, ..*old(self) }),
    {
        let id = self.menu.len();
        self.menu.push(Some(MenuRow { title, kind: MenuRowKind::Options { options, selected: 0 } }));
        id
    }

    /// Removes a menu row, as dropping the original row handle would; the
    /// slot stays empty and later rows keep their identities.
    pub fn remove_menu_item(&mut self, id: usize) -> (found: bool)
        ensures
            found <==> (id < old(self).spec_menu().len() && old(self).spec_menu()[id as int]
                is Some),
            !found ==> *final(self) == *old(self),
            final(self).spec_menu().len() == old(self).spec_menu().len(),
            forall|j: int|
                0 <= j < old(self).spec_menu().len() && j != id ==> final(self).spec_menu()[j]
                    == old(self).spec_menu()[j],
            id < old(self).spec_menu().len() ==> final(self).spec_menu()[id as int] is None,
            *final(self) == (System { menu: final(self).menu, ..*old(self) }),
    {
        if id < self.menu.len() {
            if self.menu[id].is_some() {
                self.menu.set(id, None);
                true
            } else {
                false
            }
        } else {
            false
        }
    }

    /// The title of a menu row, if the row is still there.
    pub fn menu_item_title(&self, id: usize) -> (r: Option<&String>)
        ensures
            r is Some <==> (id < self.spec_menu().len() && self.spec_menu()[id as int] is Some),
            r matches Some(t) ==> (self.spec_menu()[id as int] matches Some(row) && t@
                == row.title@),
    {
        if id < self.menu.len() {
            match &self.menu[id] {
                Some(row) => Some(&row.title),
                None => None,
            }
        } else {
            None
        }
    }

    /// Retitles a menu row.
    pub fn set_menu_item_title(&mut self, id: usize, title: String) -> (found: bool)
        ensures
            found <==> (id < old(self).spec_menu().len() && old(self).spec_menu()[id as int]
                is Some),
            !found ==> *final(self) == *old(self),
            final(self).spec_menu().len() == old(self).spec_menu().len(),
            forall|j: int|
                0 <= j < old(self).spec_menu().len() && j != id ==> final(self).spec_menu()[j]
                    == old(self).spec_menu()[j],
            found ==> (final(self).spec_menu()[id as int] matches Some(row) && (row.title@
                == title@ && (old(self).spec_menu()[id as int] matches Some(old_row) && row.kind
                == old_row.kind))),
            *final(self) == (System { menu: final(self).menu, ..*old(self) }),
    {
        if id < self.menu.len() && self.menu[id].is_some() {
            let slot = &mut self.menu[id];
            match slot {
                Some(row) => {
                    row.title = title;
                },
                None => {
                    proof {
                        assert(false);
                    }
                },
            }
            true
        } else {
            false
        }
    }

    /// The value of a menu row: 1 or 0 for a checkmark row by whether it is
    /// checked, the selected index for an options row; a plain row has no
    /// value.
    pub fn menu_item_value(&self, id: usize) -> (r: Option<usize>)
        ensures
            id < self.spec_menu().len() ==> (self.spec_menu()[id as int] matches Some(row) ==> {
                &&& (row.kind is Button ==> r is None)
                &&& (row.kind matches MenuRowKind::Checkmark { checked } ==> r == Some(
                    (if checked is Checked {
                        1usize
                    } else {
                        0usize
                    }),
                ))
                &&& (row.kind matches MenuRowKind::Options { selected, .. } ==> r == Some(
                    selected,
                ))
            }),
            !(id < self.spec_menu().len() && self.spec_menu()[id as int] is Some) ==> r is None,
    {
        if id < self.menu.len() {
            match &self.menu[id] {
                Some(row) => match &row.kind {
                    MenuRowKind::Button => None,
                    MenuRowKind::Checkmark { checked } => match checked {
                        Checked::Checked => Some(1),
                        Checked::Unchecked => Some(0),
                    },
                    MenuRowKind::Options { selected, .. } => Some(*selected),
                },
                None => None,
            }
        } else {
            None
        }
    }

    /// Sets the value of a menu row: 1 or 0 checks or unchecks a checkmark
    /// row, and an index selects an option; the engine rejects an index
    /// beyond the row's options, so such a call is excluded here.
    pub fn set_menu_item_value(&mut self, id: usize, value: usize) -> (found: bool)
        requires
            id < old(self).spec_menu().len() ==> (old(self).spec_menu()[id as int] matches Some(
                row,
            ) ==> {
                &&& (row.kind matches MenuRowKind::Checkmark { .. } ==> value <= 1)
                &&& (row.kind matches MenuRowKind::Options { options, .. } ==> value
                    < options@.len())
            }),
        ensures
            found <==> (id < old(self).spec_menu().len() && (old(self).spec_menu()[id as int]
                matches Some(row) && !(row.kind is Button))),
            !found ==> *final(self) == *old(self),
            final(self).spec_menu().len() == old(self).spec_menu().len(),
            forall|j: int|
                0 <= j < old(self).spec_menu().len() && j != id ==> final(self).spec_menu()[j]
                    == old(self).spec_menu()[j],
            found ==> (final(self).spec_menu()[id as int] matches Some(row) && old(
                self,
            ).spec_menu()[id as int] matches Some(old_row) && row.title@ == old_row.title@ && ({
                &&& (old_row.kind matches MenuRowKind::Checkmark { .. } ==> row.kind == (
                MenuRowKind::Checkmark {
                    checked: (if value == 1 {
                        Checked::Checked
                    } else {
                        Checked::Unchecked
                    }),
                }))
                &&& (old_row.kind matches MenuRowKind::Options { options, .. } ==> (row.kind
                    matches MenuRowKind::Options { options: o, selected } && o@ == options@
                    && selected == value))
            })),
            *final(self) == (System { menu: final(self).menu, ..*old(self) }),
    {
        let settable = if id < self.menu.len() {
            match &self.menu[id] {
                Some(row) => match &row.kind {
                    MenuRowKind::Button => false,
                    _ => true,
                },
                None => false,
            }
        } else {
            false
        };
        if settable {
            let slot = &mut self.menu[id];
            match slot {
                Some(row) => match &mut row.kind {
                    MenuRowKind::Button => {
                        proof {
                            assert(false);
                        }
                    },
                    MenuRowKind::Checkmark { checked } => {
                        *checked = if value == 1 {
                            Checked::Checked
                        } else {
                            Checked::Unchecked
                        };
                    },
                    MenuRowKind::Options { selected, .. } => {
                        *selected = value;
                    },
                },
                None => {
                    proof {
                        assert(false);
                    }
                },
            }
            true
        } else {
            false
        }
    }

    /// Installs the image shown behind the system menu, offset by
    /// `x_offset`; the previously installed reference, if any, is handed
    /// back so its count can be released.
    pub fn set_menu_image(&mut self, image: Bitmap, x_offset: i32) -> (previous: Option<Bitmap>)
        ensures
            final(self).menu_image matches Some((b, dx)) && b.id() == image.id() && dx == x_offset,
            previous is Some <==> old(self).menu_image is Some,
            previous matches Some(b) ==> (old(self).menu_image matches Some((ob, _)) && b.id()
                == ob.id()),
            *final(self) == (System { menu_image: final(self).menu_image, ..*old(self) }),
    {
        let previous = self.menu_image.take();
        self.menu_image = Some((image, x_offset));
        match previous {
            Some((b, _)) => Some(b),
            None => None,
        }
    }

    /// The device's system language.
    pub fn language(&self) -> (r: Language)
        ensures
            r == self.spec_language(),
    {
        self.language
    }
}

} // verus!
