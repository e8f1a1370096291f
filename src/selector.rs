//! Selectors: a date and time picker, a yes/no question and a list picker.
//!
//! Each is a state machine fed one key at a time; the caller reads the keys
//! and draws the screen.

use crate::calendar::{
    add_days, add_months, add_seconds, date_text, days_in_month, format_stamp,
    lemma_day_steps_wf, lemma_months_shifted_wf, lemma_prev_of_next, lemma_seconds_inverse,
    lemma_seconds_shifted_wf, lemma_seconds_shifted_year, local_now, local_offset_at,
    months_shifted, months_year, next_day, prev_day, seconds_shifted, shift_months, sub_days,
    sub_months, time_text, utc_of, utc_offset_at, within, year_in_range, Timestamp, MAX_YEAR,
    MIN_YEAR, DATETIME_PATTERN,
    DATE_PATTERN,
};
use crate::key::Key;
use vstd::prelude::*;

verus! {

/// A field of a date and time, the unit the selector steps.
#[derive(Clone, Copy, Debug, PartialEq, Eq, Structural)]
pub enum DateTimeField {
    Day,
    Month,
    Year,
    Hour,
    Minute,
    Second,
}

/// The ring of fields: Year, Month, Day, Hour, Minute, Second, and round.
impl DateTimeField {
    pub open spec fn prev_spec(self) -> DateTimeField {
        match self {
            DateTimeField::Year => DateTimeField::Second,
            DateTimeField::Month => DateTimeField::Year,
            DateTimeField::Day => DateTimeField::Month,
            DateTimeField::Hour => DateTimeField::Day,
            DateTimeField::Minute => DateTimeField::Hour,
            DateTimeField::Second => DateTimeField::Minute,
        }
    }

    pub open spec fn next_spec(self) -> DateTimeField {
        match self {
            DateTimeField::Year => DateTimeField::Month,
            DateTimeField::Month => DateTimeField::Day,
            DateTimeField::Day => DateTimeField::Hour,
            DateTimeField::Hour => DateTimeField::Minute,
            DateTimeField::Minute => DateTimeField::Second,
            DateTimeField::Second => DateTimeField::Year,
        }
    }

    pub open spec fn is_time(self) -> bool {
        self == DateTimeField::Hour || self == DateTimeField::Minute || self
            == DateTimeField::Second
    }

    /// The field before this one in the ring.
    pub fn switch_prev(&mut self) -> (r: DateTimeField)
        ensures
            r == old(self).prev_spec(),
            *final(self) == *old(self),
    {
        match self {
            DateTimeField::Year => DateTimeField::Second,
            DateTimeField::Month => DateTimeField::Year,
            DateTimeField::Day => DateTimeField::Month,
            DateTimeField::Hour => DateTimeField::Day,
            DateTimeField::Minute => DateTimeField::Hour,
            DateTimeField::Second => DateTimeField::Minute,
        }
    }

    /// The field after this one in the ring.
    pub fn switch_next(&mut self) -> (r: DateTimeField)
        ensures
            r == old(self).next_spec(),
            *final(self) == *old(self),
    {
        match self {
            DateTimeField::Year => DateTimeField::Month,
            DateTimeField::Month => DateTimeField::Day,
            DateTimeField::Day => DateTimeField::Hour,
            DateTimeField::Hour => DateTimeField::Minute,
            DateTimeField::Minute => DateTimeField::Second,
            DateTimeField::Second => DateTimeField::Year,
        }
    }
}

/// Whether the field is hidden: a time field of a selector without time.
pub open spec fn out_of_field(f: DateTimeField, has_time: bool) -> bool {
    !has_time && f.is_time()
}

/// The field that Left selects; a hidden one gives way to Day.
pub open spec fn left_of(f: DateTimeField, has_time: bool) -> DateTimeField {
    if out_of_field(f.prev_spec(), has_time) {
        DateTimeField::Day
    } else {
        f.prev_spec()
    }
}

/// The field that Right selects; a hidden one gives way to Year.
pub open spec fn right_of(f: DateTimeField, has_time: bool) -> DateTimeField {
    if out_of_field(f.next_spec(), has_time) {
        DateTimeField::Year
    } else {
        f.next_spec()
    }
}

/// The wall clock after one step of a date field, up or down, the offset
/// not yet settled; `None` when it would leave chrono's range. Year and Month
/// go by calendar months, Day by calendar days.
pub open spec fn stepped(t: Timestamp, f: DateTimeField, up: bool) -> Option<Timestamp> {
    match f {
        DateTimeField::Year => shift_months(t, if up { 12 } else { -12 }),
        DateTimeField::Month => shift_months(t, if up { 1 } else { -1 }),
        _ => within(if up { next_day(t) } else { prev_day(t) }),
    }
}

/// The seconds that one step of a time field moves the instant.
pub open spec fn field_seconds(f: DateTimeField) -> int {
    match f {
        DateTimeField::Hour => 3600,
        DateTimeField::Minute => 60,
        _ => 1,
    }
}

/// Far enough from the ends of chrono's range that a step of a time field
/// cannot leave it.
pub open spec fn inner_year(t: Timestamp) -> bool {
    MIN_YEAR + 3 <= t.year <= MAX_YEAR - 3
}

/// What a step of the visible field `f`, up or down, does: from `t` to `n`
/// with result `r`.
///
/// A time field moves the instant by exactly its seconds, and the new offset
/// is the local time zone's at that instant; it fails only near the ends of
/// chrono's range. A date field moves the wall clock by calendar months or
/// days; it fails when that leaves the range, or when the new wall-clock time
/// is skipped or occurs twice in the local time zone. A failed step keeps the
/// date.
pub open spec fn step_done(
    t: Timestamp,
    f: DateTimeField,
    up: bool,
    n: Timestamp,
    r: Result<(), DateError>,
) -> bool {
    if f.is_time() {
        let k = if up { field_seconds(f) } else { -field_seconds(f) };
        match r {
            Ok(_) => n.wf() && utc_of(n) == seconds_shifted(utc_of(t), k),
            Err(e) => e == DateError::OutOfRange && n == t && !inner_year(t),
        }
    } else {
        match stepped(t, f, up) {
            None => r == Err::<(), DateError>(DateError::OutOfRange) && n == t,
            Some(w) => (r is Ok && n.wf() && n == Timestamp { offset: n.offset, ..w }) || (r
                == Err::<(), DateError>(DateError::NoSuchLocalTime) && n == t),
        }
    }
}

/// The column of the cursor for each field, from the start of the date text.
pub open spec fn field_column(f: DateTimeField) -> nat {
    match f {
        DateTimeField::Year => 3,
        DateTimeField::Month => 6,
        DateTimeField::Day => 9,
        DateTimeField::Hour => 12,
        DateTimeField::Minute => 15,
        DateTimeField::Second => 18,
    }
}

/// Why a step of the date failed.
#[derive(Clone, Copy, Debug, PartialEq, Eq, Structural)]
pub enum DateError {
    /// The step would leave the range of dates that chrono covers.
    OutOfRange,
    /// The new wall-clock time is skipped, or occurs twice, in the local time
    /// zone.
    NoSuchLocalTime,
}

/// The title that a selector starts with.
pub const DEFAULT_DATE_NAME: &'static str = "due date";

/// An interactive selector of a date, or of a date and a time.
///
/// A new selector picks a date alone, the cursor on the day.
#[derive(Clone, Debug)]
pub struct DateSelector {
    /// The title shown before the date.
    name: String,
    /// Whether the time fields can be selected.
    has_time: bool,
    /// The field under the cursor.
    active_field: DateTimeField,
    /// The selected date and time.
    date: Timestamp,
}

impl DateSelector {
    pub closed spec fn title(&self) -> Seq<char> {
        self.name@
    }

    pub closed spec fn timed(&self) -> bool {
        self.has_time
    }

    pub closed spec fn field(&self) -> DateTimeField {
        self.active_field
    }

    pub closed spec fn stamp(&self) -> Timestamp {
        self.date
    }

    pub open spec fn wf(&self) -> bool {
        self.stamp().wf()
    }

    /// A selector of the date and time now.
    pub fn new() -> (r: Self)
        ensures
            r.wf(),
            r.title() == DEFAULT_DATE_NAME@,
            !r.timed(),
            r.field() == DateTimeField::Day,
    {
        DateSelector::from(local_now())
    }

    /// A selector that starts at `date`.
    pub fn from(date: Timestamp) -> (r: Self)
        requires
            date.wf(),
        ensures
            r.wf(),
            r.title() == DEFAULT_DATE_NAME@,
            !r.timed(),
            r.field() == DateTimeField::Day,
            r.stamp() == date,
    {
        DateSelector {
            name: DEFAULT_DATE_NAME.to_string(),
            has_time: false,
            active_field: DateTimeField::Day,
            date,
        }
    }

    /// Sets the date, not interactively.
    pub fn set_date(&mut self, date: Timestamp)
        requires
            date.wf(),
        ensures
            final(self).stamp() == date,
            final(self).field() == old(self).field(),
            final(self).timed() == old(self).timed(),
            final(self).title() == old(self).title(),
    {
        self.date = date;
    }

    /// Sets whether the time fields can be selected.
    pub fn set_has_time(&mut self, has_time: bool)
        ensures
            final(self).timed() == has_time,
            final(self).stamp() == old(self).stamp(),
            final(self).field() == old(self).field(),
            final(self).title() == old(self).title(),
    {
        self.has_time = has_time;
    }

    /// Sets the title.
    pub fn set_name(&mut self, name: &str)
        ensures
            final(self).title() == name@,
            final(self).timed() == old(self).timed(),
            final(self).stamp() == old(self).stamp(),
            final(self).field() == old(self).field(),
    {
        self.name = name.to_string();
    }

    /// The title.
    pub fn name(&self) -> (r: String)
        ensures
            r@ == self.title(),
    {
        self.name.clone()
    }

    /// Whether the time fields can be selected.
    pub fn has_time(&self) -> (r: bool)
        ensures
            r == self.timed(),
    {
        self.has_time
    }

    /// The field under the cursor.
    pub fn active_field(&self) -> (r: DateTimeField)
        ensures
            r == self.field(),
    {
        self.active_field
    }

    /// Whether the field under the cursor is hidden in this mode.
    fn is_out_of_field(&self) -> (r: bool)
        ensures
            r == out_of_field(self.field(), self.timed()),
    {
        match self.has_time {
            true => false,
            false => match self.active_field {
                DateTimeField::Year | DateTimeField::Month | DateTimeField::Day => false,
                _ => true,
            },
        }
    }

    /// Moves the cursor to the field before, round the ring of visible fields.
    pub fn left(&mut self)
        ensures
            final(self).field() == left_of(old(self).field(), old(self).timed()),
            !out_of_field(final(self).field(), final(self).timed()),
            final(self).stamp() == old(self).stamp(),
            final(self).timed() == old(self).timed(),
            final(self).title() == old(self).title(),
    {
        self.active_field = self.active_field.switch_prev();
        if self.is_out_of_field() {
            self.active_field = DateTimeField::Day;
        }
    }

    /// Moves the cursor to the field after, round the ring of visible fields.
    pub fn right(&mut self)
        ensures
            final(self).field() == right_of(old(self).field(), old(self).timed()),
            !out_of_field(final(self).field(), final(self).timed()),
            final(self).stamp() == old(self).stamp(),
            final(self).timed() == old(self).timed(),
            final(self).title() == old(self).title(),
    {
        self.active_field = self.active_field.switch_next();
        if self.is_out_of_field() {
            self.active_field = DateTimeField::Year;
        }
    }

    /// The column of the cursor, counted from the start of the date text.
    pub fn column(&self) -> (r: usize)
        ensures
            r == field_column(self.field()),
    {
        match self.active_field {
            DateTimeField::Year => 3,
            DateTimeField::Month => 6,
            DateTimeField::Day => 9,
            DateTimeField::Hour => 12,
            DateTimeField::Minute => 15,
            DateTimeField::Second => 18,
        }
    }

    /// Steps the field under the cursor up or down. A hidden field gives way
    /// to Day instead, with the date kept.
    fn step(&mut self, up: bool) -> (r: Result<(), DateError>)
        requires
            old(self).wf(),
        ensures
            final(self).wf(),
            final(self).timed() == old(self).timed(),
            final(self).title() == old(self).title(),
            out_of_field(old(self).field(), old(self).timed()) ==> {
                &&& r is Ok
                &&& final(self).field() == DateTimeField::Day
                &&& final(self).stamp() == old(self).stamp()
            },
            !out_of_field(old(self).field(), old(self).timed()) ==> {
                &&& final(self).field() == old(self).field()
                &&& step_done(old(self).stamp(), old(self).field(), up, final(self).stamp(), r)
            },
    {
        if self.is_out_of_field() {
            self.active_field = DateTimeField::Day;
            return Ok(());
        }
        let k: i64 = match self.active_field {
            DateTimeField::Hour => 3600,
            DateTimeField::Minute => 60,
            DateTimeField::Second => 1,
            _ => 0,
        };
        if k != 0 {
            let r = self.shift_instant(if up { k } else { -k });
            return r;
        }
        let next = match self.active_field {
            DateTimeField::Year => if up {
                add_months(&self.date, 12)
            } else {
                sub_months(&self.date, 12)
            },
            DateTimeField::Month => if up {
                add_months(&self.date, 1)
            } else {
                sub_months(&self.date, 1)
            },
            _ => if up {
                add_days(&self.date, 1)
            } else {
                sub_days(&self.date, 1)
            },
        };
        match next {
            Some(w) => {
                proof {
                    lemma_stepped_wf(self.date, self.active_field, up);
                }
                match local_offset_at(&w) {
                    Some(o) => {
                        self.date = Timestamp { offset: o, ..w };
                        Ok(())
                    },
                    None => Err(DateError::NoSuchLocalTime),
                }
            },
            None => Err(DateError::OutOfRange),
        }
    }

    /// Moves the instant by `k` seconds; the offset becomes the local time
    /// zone's at the new instant.
    fn shift_instant(&mut self, k: i64) -> (r: Result<(), DateError>)
        requires
            old(self).wf(),
            -3600 <= k <= 3600,
        ensures
            final(self).field() == old(self).field(),
            final(self).timed() == old(self).timed(),
            final(self).title() == old(self).title(),
            final(self).wf(),
            match r {
                Ok(_) => utc_of(final(self).stamp()) == seconds_shifted(utc_of(old(self).stamp()), k as int),
                Err(e) => e == DateError::OutOfRange && final(self).stamp() == old(self).stamp()
                    && !inner_year(old(self).stamp()),
            },
    {
        let t = self.date;
        proof {
            lemma_seconds_shifted_wf(t, -t.offset);
            lemma_seconds_shifted_year(t, -t.offset);
        }
        let u = match add_seconds(&t, -(t.offset as i64)) {
            Some(u) => u,
            None => return Err(DateError::OutOfRange),
        };
        proof {
            lemma_seconds_shifted_wf(u, k as int);
            lemma_seconds_shifted_year(u, k as int);
        }
        let u2 = match add_seconds(&u, k) {
            Some(u2) => u2,
            None => return Err(DateError::OutOfRange),
        };
        let o = utc_offset_at(&u2);
        let v = Timestamp { offset: o, ..u2 };
        proof {
            lemma_seconds_shifted_wf(v, o as int);
            lemma_seconds_shifted_year(v, o as int);
        }
        let l = match add_seconds(&v, o as i64) {
            Some(l) => l,
            None => return Err(DateError::OutOfRange),
        };
        proof {
            lemma_seconds_inverse(v, o as int);
            assert(l.offset == o);
            assert(seconds_shifted(utc_of(t), k as int) == Timestamp { offset: 0, ..u2 });
        }
        self.date = l;
        Ok(())
    }

    /// Increments the field under the cursor.
    pub fn up(&mut self) -> (r: Result<(), DateError>)
        requires
            old(self).wf(),
        ensures
            final(self).wf(),
            final(self).timed() == old(self).timed(),
            final(self).title() == old(self).title(),
            out_of_field(old(self).field(), old(self).timed()) ==> {
                &&& r is Ok
                &&& final(self).field() == DateTimeField::Day
                &&& final(self).stamp() == old(self).stamp()
            },
            !out_of_field(old(self).field(), old(self).timed()) ==> {
                &&& final(self).field() == old(self).field()
                &&& step_done(old(self).stamp(), old(self).field(), true, final(self).stamp(), r)
            },
    {
        self.step(true)
    }

    /// Decrements the field under the cursor.
    pub fn down(&mut self) -> (r: Result<(), DateError>)
        requires
            old(self).wf(),
        ensures
            final(self).wf(),
            final(self).timed() == old(self).timed(),
            final(self).title() == old(self).title(),
            out_of_field(old(self).field(), old(self).timed()) ==> {
                &&& r is Ok
                &&& final(self).field() == DateTimeField::Day
                &&& final(self).stamp() == old(self).stamp()
            },
            !out_of_field(old(self).field(), old(self).timed()) ==> {
                &&& final(self).field() == old(self).field()
                &&& step_done(old(self).stamp(), old(self).field(), false, final(self).stamp(), r)
            },
    {
        self.step(false)
    }

    /// The selected date.
    pub fn get_date(&self) -> (r: Timestamp)
        ensures
            r == self.stamp(),
    {
        self.date
    }

    /// The date as text: `YYYY-MM-DD`, and ` HH:MM:SS` after it with time.
    pub fn to_string(&self) -> (r: String)
        requires
            self.wf(),
        ensures
            r@ == crate::calendar::formatted(
                self.stamp(),
                if self.timed() {
                    DATETIME_PATTERN@
                } else {
                    DATE_PATTERN@
                },
            ),
            0 <= self.stamp().year <= 9999 ==> r@ == if self.timed() {
                date_text(self.stamp()) + seq![' '] + time_text(self.stamp())
            } else {
                date_text(self.stamp())
            },
    {
        if self.has_time {
            format_stamp(&self.date, DATETIME_PATTERN)
        } else {
            format_stamp(&self.date, DATE_PATTERN)
        }
    }

    /// Feeds one key of the selection and returns whether it ends it: Enter.
    /// The arrows move the cursor and step the field; other keys are ignored.
    pub fn press(&mut self, key: Key) -> (r: Result<bool, DateError>)
        requires
            old(self).wf(),
        ensures
            final(self).wf(),
            final(self).timed() == old(self).timed(),
            final(self).title() == old(self).title(),
            key == Key::ArrowLeft ==> final(self).field() == left_of(old(self).field(), old(self).timed())
                && final(self).stamp() == old(self).stamp() && r == Ok::<bool, DateError>(false),
            key == Key::ArrowRight ==> final(self).field() == right_of(old(self).field(), old(self).timed())
                && final(self).stamp() == old(self).stamp() && r == Ok::<bool, DateError>(false),
            (key == Key::ArrowUp || key == Key::ArrowDown) ==> {
                let up = key == Key::ArrowUp;
                if out_of_field(old(self).field(), old(self).timed()) {
                    &&& r == Ok::<bool, DateError>(false)
                    &&& final(self).field() == DateTimeField::Day
                    &&& final(self).stamp() == old(self).stamp()
                } else {
                    &&& final(self).field() == old(self).field()
                    &&& step_done(
                        old(self).stamp(),
                        old(self).field(),
                        up,
                        final(self).stamp(),
                        match r {
                            Ok(_) => Ok(()),
                            Err(e) => Err(e),
                        },
                    )
                    &&& r != Ok::<bool, DateError>(true)
                }
            },
            key == Key::Enter ==> r == Ok::<bool, DateError>(true) && final(self).field()
                == old(self).field() && final(self).stamp() == old(self).stamp(),
            !(key == Key::ArrowLeft || key == Key::ArrowRight || key == Key::ArrowUp || key
                == Key::ArrowDown || key == Key::Enter) ==> r == Ok::<bool, DateError>(false)
                && final(self).field() == old(self).field() && final(self).stamp()
                == old(self).stamp(),
    {
        match key {
            Key::ArrowLeft => {
                self.left();
                Ok(false)
            },
            Key::ArrowRight => {
                self.right();
                Ok(false)
            },
            Key::ArrowUp => match self.up() {
                Ok(()) => Ok(false),
                Err(e) => Err(e),
            },
            Key::ArrowDown => match self.down() {
                Ok(()) => Ok(false),
                Err(e) => Err(e),
            },
            Key::Enter => Ok(true),
            _ => Ok(false),
        }
    }
}

proof fn lemma_stepped_wf(t: Timestamp, f: DateTimeField, up: bool)
    requires
        t.wf(),
    ensures
        stepped(t, f, up) matches Some(s) ==> s.wf(),
{
    let n: int = match f {
        DateTimeField::Year => if up { 12 } else { -12 },
        _ => if up { 1 } else { -1 },
    };
    lemma_months_shifted_wf(t, n);
    lemma_day_steps_wf(t);
}

/// The answer that a key gives to a yes/no question: `y` and `Y` say yes,
/// `n` and `N` say no, and any other key asks again.
pub open spec fn answer_spec(key: Key) -> Option<bool> {
    if key == Key::Char('y') || key == Key::Char('Y') {
        Some(true)
    } else if key == Key::Char('n') || key == Key::Char('N') {
        Some(false)
    } else {
        None
    }
}

/// The text that asks again after a key that is no answer.
pub const ASK_AGAIN: &'static str = "Answer with y or n: ";

/// The answer that a key gives to a yes/no question; `None` asks again.
pub fn answer(key: Key) -> (r: Option<bool>)
    ensures
        r == answer_spec(key),
{
    match key {
        Key::Char(c) => {
            if c == 'y' || c == 'Y' {
                Some(true)
            } else if c == 'n' || c == 'N' {
                Some(false)
            } else {
                None
            }
        },
        _ => None,
    }
}

/// What a key does in a list picker.
#[derive(Clone, Copy, Debug, PartialEq, Eq, Structural)]
pub enum Pick {
    /// The cursor now stands on this item.
    Moved(usize),
    /// This item is chosen.
    Chosen(usize),
    /// The picker is left without a choice.
    Cancelled,
}

/// What `key` does in a list of `count` items with the cursor on item `at`:
/// ArrowUp and `k` move up and wrap to the last item, ArrowDown and `j` move
/// down and wrap to the first, Enter chooses, `q`, `Q` and Escape cancel, and
/// any other key leaves the cursor where it is.
pub open spec fn pick_spec(at: nat, count: nat, key: Key) -> Pick {
    if key == Key::ArrowUp || key == Key::Char('k') {
        Pick::Moved((if at == 0 { count - 1 } else { at - 1 }) as usize)
    } else if key == Key::ArrowDown || key == Key::Char('j') {
        Pick::Moved((if at + 1 == count { 0 } else { at + 1 }) as usize)
    } else if key == Key::Char('q') || key == Key::Char('Q') || key == Key::Escape {
        Pick::Cancelled
    } else if key == Key::Enter {
        Pick::Chosen(at as usize)
    } else {
        Pick::Moved(at as usize)
    }
}

/// One key of a list picker over `count` items, the cursor on item `at`.
pub fn pick_step(at: usize, count: usize, key: Key) -> (r: Pick)
    requires
        at < count,
    ensures
        r == pick_spec(at as nat, count as nat, key),
        r matches Pick::Moved(i) ==> i < count,
        r matches Pick::Chosen(i) ==> i == at,
{
    match key {
        Key::ArrowUp => Pick::Moved(if at == 0 { count - 1 } else { at - 1 }),
        Key::ArrowDown => Pick::Moved(if at + 1 == count { 0 } else { at + 1 }),
        Key::Escape => Pick::Cancelled,
        Key::Enter => Pick::Chosen(at),
        Key::Char(c) => {
            if c == 'k' {
                Pick::Moved(if at == 0 { count - 1 } else { at - 1 })
            } else if c == 'j' {
                Pick::Moved(if at + 1 == count { 0 } else { at + 1 })
            } else if c == 'q' || c == 'Q' {
                Pick::Cancelled
            } else {
                Pick::Moved(at)
            }
        },
        _ => Pick::Moved(at),
    }
}

/// Without time, Left or Right three times from a visible field comes back to
/// it: the ring of visible fields is Year, Month, Day. Down on Day then moves
/// the date one calendar day back.
pub proof fn lemma_date_only_ring(f: DateTimeField, t: Timestamp)
    requires
        !f.is_time(),
    ensures
        stepped(t, DateTimeField::Day, false) == within(prev_day(t)),
        left_of(left_of(left_of(f, false), false), false) == f,
        right_of(right_of(right_of(f, false), false), false) == f,
        !left_of(f, false).is_time(),
        !right_of(f, false).is_time(),
{
}

/// With time, Left or Right six times comes back to the field it started on.
pub proof fn lemma_timed_ring(f: DateTimeField)
    ensures
        left_of(left_of(left_of(left_of(left_of(left_of(f, true), true), true), true), true), true)
            == f,
        right_of(right_of(right_of(right_of(right_of(right_of(f, true), true), true), true), true), true)
            == f,
{
}

/// A Year step moves the date by twelve calendar months, not by a fixed
/// number of days: the year changes by one, the month stays, and the day stays
/// unless that month is shorter in the new year (29 February becomes 28
/// February).
pub proof fn lemma_year_step_is_calendar(t: Timestamp, up: bool)
    requires
        t.wf(),
        year_in_range(t.year + if up { 1int } else { -1int }),
    ensures
        ({
            let y = t.year + if up { 1int } else { -1int };
            let d = if t.day <= days_in_month(y, t.month as int) {
                t.day as int
            } else {
                days_in_month(y, t.month as int)
            };
            stepped(t, DateTimeField::Year, up) == Some(t.on(y, t.month as int, d))
        }),
{
    let n: int = if up { 12 } else { -12 };
    assert((t.year * 12 + t.month - 1 + n) / 12 == t.year + n / 12);
    assert((t.year * 12 + t.month - 1 + n) % 12 + 1 == t.month);
}

/// The day of `t` exists in the month that a step of `n` months reaches.
pub open spec fn day_fits(t: Timestamp, n: int) -> bool {
    t.day <= days_in_month(months_year(t, n), (t.year * 12 + t.month - 1 + n) % 12 + 1)
}

/// Up then Down on the same date field gives back the wall clock. For Year
/// and Month this needs the day to exist in the month that Up reaches:
/// otherwise Up clamps it to that month's last day.
pub proof fn lemma_up_then_down(t: Timestamp, f: DateTimeField)
    requires
        t.wf(),
        !f.is_time(),
        stepped(t, f, true) is Some,
        f == DateTimeField::Year ==> day_fits(t, 12),
        f == DateTimeField::Month ==> day_fits(t, 1),
    ensures
        stepped(stepped(t, f, true)->0, f, false) == Some(t),
{
    match f {
        DateTimeField::Year => lemma_months_back(t, 12),
        DateTimeField::Month => lemma_months_back(t, 1),
        _ => lemma_prev_of_next(t),
    }
}

/// Up then Down on the same time field gives back the instant: whatever
/// offsets the steps settle on, the UTC wall clock comes back.
pub proof fn lemma_time_up_then_down(t: Timestamp, m: Timestamp, n: Timestamp, f: DateTimeField)
    requires
        t.wf(),
        f.is_time(),
        utc_of(t).wf(),
        utc_of(m).wf(),
        step_done(t, f, true, m, Ok(())),
        step_done(m, f, false, n, Ok(())),
    ensures
        utc_of(n) == utc_of(t),
{
    lemma_seconds_inverse(utc_of(t), field_seconds(f));
}

proof fn lemma_months_back(t: Timestamp, n: int)
    requires
        t.wf(),
        0 < n <= 12,
        year_in_range(months_year(t, n)),
        day_fits(t, n),
    ensures
        shift_months(months_shifted(t, n), -n) == Some(t),
{
    let idx = t.year * 12 + t.month - 1 + n;
    let y2 = idx / 12;
    let m2 = idx % 12 + 1;
    assert(y2 * 12 + m2 - 1 == idx);
    let t2 = months_shifted(t, n);
    assert(t2.year == y2);
    assert(t2.month == m2);
    assert(t2.day == t.day);
    assert(t2.year * 12 + t2.month - 1 - n == t.year * 12 + t.month - 1);
    assert((t.year * 12 + t.month - 1) / 12 == t.year);
    assert((t.year * 12 + t.month - 1) % 12 + 1 == t.month);
    assert(months_shifted(t2, -n) == t);
}

} // verus!
