//! Snapshot labels: a kind prefix followed by a moment of local time in a
//! fixed-width layout, `YYYY_MM_DD_hh_mm_ss`, so that labels of one kind sort
//! as their moments do.

use crate::error::ReplError;
use crate::text::{
    after_last, label_part, lemma_lex_common_prefix, lemma_lex_same_length_heads, lex_lt,
    precedes_at, separator,
};
use vstd::prelude::*;

verus! {

/// The error with which the clock of the `time` crate refuses a local time.
#[verifier::external_type_specification]
#[verifier::external_body]
pub struct ExIndeterminateOffset(time::error::IndeterminateOffset);

/// What a snapshot was made for.
#[derive(Clone, Copy, PartialEq, Eq, Debug, Structural)]
pub enum SnapshotKind {
    /// A periodic snapshot, pruned by age.
    Auto,
    /// The base of a replication between two pools.
    Repl,
    /// The base of a replication through an archive or a remote shell.
    Remote,
}

/// A moment of local time, to the second.
pub struct Moment {
    pub year: int,
    pub month: int,
    pub day: int,
    pub hour: int,
    pub minute: int,
    pub second: int,
}

/// A moment of local time that a label can hold: a date of the Gregorian
/// calendar in the years 0 to 9999, and a time of day.
#[derive(Clone, Copy, PartialEq, Eq, Debug)]
pub struct Timestamp {
    year: u16,
    month: u8,
    day: u8,
    hour: u8,
    minute: u8,
    second: u8,
}

/// The greatest number of hours that `Timestamp::hours_before` looks back:
/// ten thousand years of 366 days, more than lie between any two moments
/// that a label can hold.
pub const MAX_HOURS_BACK: u32 = 87_840_000;

/// What `PrimitiveDateTime - Duration::hours(hours)` has in its fields
/// (year, month, day, hour, minute, second), for the date and time with the
/// fields given; `None` where these are no date and time.
pub uninterp spec fn hours_earlier(
    year: u16,
    month: u8,
    day: u8,
    hour: u8,
    minute: u8,
    second: u8,
    hours: u32,
) -> Option<(i32, u8, u8, u8, u8, u8)>;

/// Whether `year` is a leap year of the Gregorian calendar.
pub open spec fn is_leap(year: int) -> bool {
    year % 4 == 0 && (year % 100 != 0 || year % 400 == 0)
}

/// The number of days of a month.
pub open spec fn days_in_month(year: int, month: int) -> int {
    if month == 2 {
        if is_leap(year) {
            29
        } else {
            28
        }
    } else if month == 4 || month == 6 || month == 9 || month == 11 {
        30
    } else {
        31
    }
}

/// The character of a decimal digit.
pub open spec fn digit(d: int) -> char {
    (d + 48) as char
}

/// The last `width` decimal digits of `n`, the most significant first.
pub open spec fn digits(n: int, width: nat) -> Seq<char>
    decreases width,
{
    if width == 0 {
        Seq::empty()
    } else {
        digits(n / 10, (width - 1) as nat).push(digit(n % 10))
    }
}

/// Ten to the power `width`.
pub open spec fn pow10(width: nat) -> int
    decreases width,
{
    if width == 0 {
        1
    } else {
        10 * pow10((width - 1) as nat)
    }
}

impl SnapshotKind {
    /// The prefix that labels of this kind start with.
    pub open spec fn prefix_text(self) -> Seq<char> {
        match self {
            SnapshotKind::Auto => "auto_"@,
            SnapshotKind::Repl => "repl_"@,
            SnapshotKind::Remote => "remote_"@,
        }
    }

    /// The prefix that labels of this kind start with.
    pub fn prefix(self) -> (r: &'static str)
        ensures
            r@ == self.prefix_text(),
    {
        match self {
            SnapshotKind::Auto => "auto_",
            SnapshotKind::Repl => "repl_",
            SnapshotKind::Remote => "remote_",
        }
    }
}

impl Moment {
    /// Whether a label can hold this moment.
    pub open spec fn wf(self) -> bool {
        &&& 0 <= self.year <= 9999
        &&& 1 <= self.month <= 12
        &&& 1 <= self.day <= days_in_month(self.year, self.month)
        &&& 0 <= self.hour <= 23
        &&& 0 <= self.minute <= 59
        &&& 0 <= self.second <= 59
    }

    /// Whether this moment comes before `other`.
    pub open spec fn before(self, other: Moment) -> bool {
        if self.year != other.year {
            self.year < other.year
        } else if self.month != other.month {
            self.month < other.month
        } else if self.day != other.day {
            self.day < other.day
        } else if self.hour != other.hour {
            self.hour < other.hour
        } else if self.minute != other.minute {
            self.minute < other.minute
        } else {
            self.second < other.second
        }
    }

    /// The moment in the fixed-width layout of labels: `YYYY_MM_DD_hh_mm_ss`.
    pub open spec fn stamp(self) -> Seq<char> {
        digits(self.year, 4) + seq!['_'] + digits(self.month, 2) + seq!['_'] + digits(self.day, 2)
            + seq!['_'] + digits(self.hour, 2) + seq!['_'] + digits(self.minute, 2) + seq!['_']
            + digits(self.second, 2)
    }
}

/// The label of a snapshot of `kind` made at `at`.
pub open spec fn label_text(kind: SnapshotKind, at: Moment) -> Seq<char> {
    kind.prefix_text() + at.stamp()
}

/// The identifier of the snapshot of `pool` that carries `label`.
pub open spec fn name_text(pool: Seq<char>, label: Seq<char>) -> Seq<char> {
    pool + seq!['@'] + label
}

/// The moment that the fields stand for.
pub open spec fn moment_of(fields: (i32, u8, u8, u8, u8, u8)) -> Moment {
    Moment {
        year: fields.0 as int,
        month: fields.1 as int,
        day: fields.2 as int,
        hour: fields.3 as int,
        minute: fields.4 as int,
        second: fields.5 as int,
    }
}

/// The moment `hours` hours before `at`, where a label can hold it.
pub open spec fn earlier(at: Moment, hours: u32) -> Option<Moment> {
    if hours > MAX_HOURS_BACK {
        None
    } else {
        match hours_earlier(
            at.year as u16,
            at.month as u8,
            at.day as u8,
            at.hour as u8,
            at.minute as u8,
            at.second as u8,
            hours,
        ) {
            Some(fields) => if moment_of(fields).wf() {
                Some(moment_of(fields))
            } else {
                None
            },
            None => None,
        }
    }
}

impl View for Timestamp {
    type V = Moment;

    closed spec fn view(&self) -> Moment {
        Moment {
            year: self.year as int,
            month: self.month as int,
            day: self.day as int,
            hour: self.hour as int,
            minute: self.minute as int,
            second: self.second as int,
        }
    }
}

/// Reads the clock: `OffsetDateTime::try_now_local` of the `time` crate,
/// and the fields of what it returns (year, month, day, hour, minute,
/// second), each from the getter of that name. Nothing is claimed of them.
#[verifier::external_body]
fn clock_fields() -> (r: Result<(i32, u8, u8, u8, u8, u8), time::error::IndeterminateOffset>) {
    let now = time::OffsetDateTime::try_now_local()?;
    Ok((now.year(), now.month(), now.day(), now.hour(), now.minute(), now.second()))
}

/// Renders a moment: `OffsetDateTime::format` of the `time` crate with the
/// format `%Y_%m_%d_%H_%M_%S`, on the date and time that `Date::try_from_ymd`
/// and `Time::try_from_hms` make of the fields. For a year from 0 to 9999
/// `%Y` gives four digits, and each other field two, all padded with zeros;
/// the underscores stand for themselves. `None` where the fields are no
/// date and time, which no moment that a label can hold is.
#[verifier::external_body]
fn format_fields(at: &Timestamp) -> (r: Option<String>)
    ensures
        at@.wf() ==> r is Some && r->0@ == at@.stamp(),
{
    let date = time::Date::try_from_ymd(at.year as i32, at.month, at.day).ok()?;
    let clock = time::Time::try_from_hms(at.hour, at.minute, at.second).ok()?;
    Some(time::PrimitiveDateTime::new(date, clock).assume_utc().format("%Y_%m_%d_%H_%M_%S"))
}

/// Goes back in time: `PrimitiveDateTime - Duration::hours(hours)` of the
/// `time` crate, on the date and time that `Date::try_from_ymd` and
/// `Time::try_from_hms` make of the fields, and the fields of the result. The
/// subtraction panics where the result lies before the year -100000: from a
/// year that is not negative, `MAX_HOURS_BACK` hours do not lead there.
#[verifier::external_body]
fn fields_earlier(at: &Timestamp, hours: u32) -> (r: Option<(i32, u8, u8, u8, u8, u8)>)
    requires
        at@.wf(),
        hours <= MAX_HOURS_BACK,
    ensures
        r == hours_earlier(at.year, at.month, at.day, at.hour, at.minute, at.second, hours),
{
    let date = time::Date::try_from_ymd(at.year as i32, at.month, at.day).ok()?;
    let clock = time::Time::try_from_hms(at.hour, at.minute, at.second).ok()?;
    let then = time::PrimitiveDateTime::new(date, clock) - time::Duration::hours(hours as i64);
    Some((then.year(), then.month(), then.day(), then.hour(), then.minute(), then.second()))
}

/// The number of days of a month.
pub fn month_length(year: u16, month: u8) -> (days: u8)
    ensures
        days == days_in_month(year as int, month as int),
{
    if month == 2 {
        if year % 4 == 0 && (year % 100 != 0 || year % 400 == 0) {
            29
        } else {
            28
        }
    } else if month == 4 || month == 6 || month == 9 || month == 11 {
        30
    } else {
        31
    }
}

impl Timestamp {
    /// Every `Timestamp` is a moment that a label can hold.
    #[verifier::type_invariant]
    pub open spec fn inv(self) -> bool {
        self@.wf()
    }

    /// The moment with the fields given, where a label can hold it.
    pub fn new(year: i32, month: u8, day: u8, hour: u8, minute: u8, second: u8) -> (r: Option<
        Timestamp,
    >)
        ensures
            match r {
                Some(t) => t@ == moment_of((year, month, day, hour, minute, second)) && t@.wf(),
                None => !moment_of((year, month, day, hour, minute, second)).wf(),
            },
    {
        if year < 0 || year > 9999 || month < 1 || month > 12 || hour > 23 || minute > 59 || second
            > 59 {
            return None;
        }
        let y = year as u16;
        if day < 1 || day > month_length(y, month) {
            return None;
        }
        Some(Timestamp { year: y, month, day, hour, minute, second })
    }

    pub fn year(&self) -> (r: u16)
        ensures
            r == self@.year,
    {
        self.year
    }

    pub fn month(&self) -> (r: u8)
        ensures
            r == self@.month,
    {
        self.month
    }

    pub fn day(&self) -> (r: u8)
        ensures
            r == self@.day,
    {
        self.day
    }

    pub fn hour(&self) -> (r: u8)
        ensures
            r == self@.hour,
    {
        self.hour
    }

    pub fn minute(&self) -> (r: u8)
        ensures
            r == self@.minute,
    {
        self.minute
    }

    pub fn second(&self) -> (r: u8)
        ensures
            r == self@.second,
    {
        self.second
    }

    /// The moment in the layout of labels.
    pub fn stamp(&self) -> (r: String)
        ensures
            r@ == self@.stamp(),
    {
        proof {
            use_type_invariant(self);
        }
        match format_fields(self) {
            Some(s) => s,
            None => String::new(),
        }
    }

    /// The label of a snapshot of `kind` made at this moment.
    pub fn label(&self, kind: SnapshotKind) -> (r: String)
        ensures
            r@ == label_text(kind, self@),
    {
        let stamp = self.stamp();
        String::from_str(kind.prefix()).concat(stamp.as_str())
    }

    /// The moment `hours` hours before this one; `None` where that moment
    /// lies before the year 0, so that no label can hold it.
    pub fn hours_before(&self, hours: u32) -> (r: Option<Timestamp>)
        ensures
            match r {
                Some(t) => earlier(self@, hours) == Some(t@),
                None => earlier(self@, hours) is None,
            },
    {
        proof {
            use_type_invariant(self);
        }
        if hours > MAX_HOURS_BACK {
            return None;
        }
        match fields_earlier(self, hours) {
            Some(f) => Timestamp::new(f.0, f.1, f.2, f.3, f.4, f.5),
            None => None,
        }
    }

    /// Whether this moment comes before `other`.
    pub fn is_before(&self, other: &Timestamp) -> (r: bool)
        ensures
            r == self@.before(other@),
    {
        if self.year != other.year {
            self.year < other.year
        } else if self.month != other.month {
            self.month < other.month
        } else if self.day != other.day {
            self.day < other.day
        } else if self.hour != other.hour {
            self.hour < other.hour
        } else if self.minute != other.minute {
            self.minute < other.minute
        } else {
            self.second < other.second
        }
    }
}

/// The local time of the clock. It fails with `ReplError::Clock`, and with
/// nothing else, where the local time cannot be determined or no label can
/// hold it.
pub fn now_local() -> (r: Result<Timestamp, ReplError>)
    ensures
        r matches Err(e) ==> e == ReplError::Clock,
        r matches Ok(t) ==> t@.wf(),
{
    match clock_fields() {
        Ok(f) => timestamp_of(f),
        Err(_) => Err(ReplError::Clock),
    }
}

/// The moment that the fields of a clock reading stand for; the reading is
/// refused with `ReplError::Clock` where no label can hold it.
pub fn timestamp_of(fields: (i32, u8, u8, u8, u8, u8)) -> (r: Result<Timestamp, ReplError>)
    ensures
        match r {
            Ok(t) => t@ == moment_of(fields) && t@.wf(),
            Err(e) => e == ReplError::Clock && !moment_of(fields).wf(),
        },
{
    match Timestamp::new(fields.0, fields.1, fields.2, fields.3, fields.4, fields.5) {
        Some(t) => Ok(t),
        None => Err(ReplError::Clock),
    }
}

/// A label of `kind` for the present moment. Whatever the clock says, the
/// result is the label of some moment that a label can hold, or the error
/// `ReplError::Clock`.
pub fn new_label(kind: SnapshotKind) -> (r: Result<String, ReplError>)
    ensures
        match r {
            Ok(label) => exists|at: Moment| at.wf() && label@ == #[trigger] label_text(kind, at),
            Err(e) => e == ReplError::Clock,
        },
{
    match now_local() {
        Ok(t) => Ok(t.label(kind)),
        Err(e) => Err(e),
    }
}

/// The identifier of the snapshot of `pool` that carries `label`.
pub fn snapshot_name(pool: &str, label: &str) -> (r: String)
    ensures
        r@ == name_text(pool@, label@),
{
    proof {
        reveal_strlit("@");
        assert("@"@ =~= seq!['@']);
    }
    String::from_str(pool).concat("@").concat(label)
}

/// `digits` gives as many characters as asked for.
pub proof fn lemma_digits_len(n: int, width: nat)
    ensures
        digits(n, width).len() == width,
    decreases width,
{
    if width > 0 {
        lemma_digits_len(n / 10, (width - 1) as nat);
    }
}

/// Numbers of one width are ordered as their digits are.
pub proof fn lemma_digits_order(a: int, b: int, width: nat)
    requires
        0 <= a < b < pow10(width),
    ensures
        lex_lt(digits(a, width), digits(b, width)),
    decreases width,
{
    let w = (width - 1) as nat;
    lemma_digits_len(a / 10, w);
    lemma_digits_len(b / 10, w);
    if a / 10 < b / 10 {
        lemma_digits_order(a / 10, b / 10, w);
        lemma_lex_same_length_heads(
            digits(a / 10, w),
            digits(b / 10, w),
            seq![digit(a % 10)],
            seq![digit(b % 10)],
        );
        assert(digits(a, width) =~= digits(a / 10, w) + seq![digit(a % 10)]);
        assert(digits(b, width) =~= digits(b / 10, w) + seq![digit(b % 10)]);
    } else {
        let x = seq![digit(a % 10)];
        let y = seq![digit(b % 10)];
        assert(x.take(0) =~= y.take(0));
        assert(precedes_at(x, y, 0));
        lemma_lex_common_prefix(digits(a / 10, w), x, y);
        assert(digits(a, width) =~= digits(a / 10, w) + x);
        assert(digits(b, width) =~= digits(b / 10, w) + y);
    }
}

/// Of two texts that open with numbers of one width, the smaller number
/// comes first, whatever follows.
proof fn lemma_field_decides(
    head: Seq<char>,
    a: int,
    b: int,
    width: nat,
    rest_a: Seq<char>,
    rest_b: Seq<char>,
)
    requires
        0 <= a < b < pow10(width),
    ensures
        lex_lt(head + digits(a, width) + rest_a, head + digits(b, width) + rest_b),
{
    lemma_digits_len(a, width);
    lemma_digits_len(b, width);
    lemma_digits_order(a, b, width);
    lemma_lex_same_length_heads(digits(a, width), digits(b, width), rest_a, rest_b);
    lemma_lex_common_prefix(head, digits(a, width) + rest_a, digits(b, width) + rest_b);
    assert(head + digits(a, width) + rest_a =~= head + (digits(a, width) + rest_a));
    assert(head + digits(b, width) + rest_b =~= head + (digits(b, width) + rest_b));
}

/// The widths of the fields of a stamp, as powers of ten.
proof fn lemma_field_widths()
    ensures
        pow10(2) == 100,
        pow10(4) == 10000,
{
    reveal_with_fuel(pow10, 5);
}

/// The part of a stamp that follows the year.
spec fn after_year(at: Moment) -> Seq<char> {
    seq!['_'] + digits(at.month, 2) + after_month(at)
}

/// The part of a stamp that follows the month.
spec fn after_month(at: Moment) -> Seq<char> {
    seq!['_'] + digits(at.day, 2) + after_day(at)
}

/// The part of a stamp that follows the day.
spec fn after_day(at: Moment) -> Seq<char> {
    seq!['_'] + digits(at.hour, 2) + after_hour(at)
}

/// The part of a stamp that follows the hour.
spec fn after_hour(at: Moment) -> Seq<char> {
    seq!['_'] + digits(at.minute, 2) + after_minute(at)
}

/// The part of a stamp that follows the minute.
spec fn after_minute(at: Moment) -> Seq<char> {
    seq!['_'] + digits(at.second, 2)
}

/// A stamp is its year and what follows the year.
proof fn lemma_stamp_parts(at: Moment)
    ensures
        at.stamp() == digits(at.year, 4) + after_year(at),
{
    assert(at.stamp() =~= digits(at.year, 4) + after_year(at));
}

/// Of two texts that open with one underscore and a number of two digits,
/// the smaller number comes first; where the numbers are equal, what
/// follows them decides.
proof fn lemma_next_field(a: int, b: int, rest_a: Seq<char>, rest_b: Seq<char>)
    requires
        0 <= a <= b < 100,
        a == b ==> lex_lt(rest_a, rest_b),
    ensures
        lex_lt(seq!['_'] + digits(a, 2) + rest_a, seq!['_'] + digits(b, 2) + rest_b),
{
    lemma_field_widths();
    if a < b {
        lemma_field_decides(seq!['_'], a, b, 2, rest_a, rest_b);
    } else {
        lemma_lex_common_prefix(seq!['_'] + digits(a, 2), rest_a, rest_b);
    }
}

/// Stamps are ordered as their moments are.
pub proof fn lemma_stamp_order(a: Moment, b: Moment)
    requires
        a.wf(),
        b.wf(),
        a.before(b),
    ensures
        lex_lt(a.stamp(), b.stamp()),
{
    lemma_field_widths();
    lemma_stamp_parts(a);
    lemma_stamp_parts(b);
    if a.year != b.year {
        let e = Seq::<char>::empty();
        lemma_field_decides(e, a.year, b.year, 4, after_year(a), after_year(b));
        assert(e + digits(a.year, 4) =~= digits(a.year, 4));
        assert(e + digits(b.year, 4) =~= digits(b.year, 4));
    } else {
        if a.month == b.month {
            if a.day == b.day {
                if a.hour == b.hour {
                    if a.minute == b.minute {
                        lemma_next_field(a.second, b.second, Seq::empty(), Seq::empty());
                        assert(after_minute(a) =~= seq!['_'] + digits(a.second, 2) + Seq::empty());
                        assert(after_minute(b) =~= seq!['_'] + digits(b.second, 2) + Seq::empty());
                    }
                    lemma_next_field(a.minute, b.minute, after_minute(a), after_minute(b));
                }
                lemma_next_field(a.hour, b.hour, after_hour(a), after_hour(b));
            }
            lemma_next_field(a.day, b.day, after_day(a), after_day(b));
        }
        lemma_next_field(a.month, b.month, after_month(a), after_month(b));
        lemma_lex_common_prefix(digits(a.year, 4), after_year(a), after_year(b));
    }
}

/// Labels of one kind are ordered as the moments at which they were made:
/// of two such moments the earlier has the label that sorts first.
pub proof fn lemma_label_order(kind: SnapshotKind, earlier: Moment, later: Moment)
    requires
        earlier.wf(),
        later.wf(),
        earlier.before(later),
    ensures
        lex_lt(label_text(kind, earlier), label_text(kind, later)),
{
    lemma_stamp_order(earlier, later);
    lemma_lex_common_prefix(kind.prefix_text(), earlier.stamp(), later.stamp());
}

/// Every character of `digits` is a decimal digit.
pub proof fn lemma_digits_are_digits(n: int, width: nat)
    requires
        0 <= n,
    ensures
        forall|i: int| 0 <= i < digits(n, width).len() ==> '0' <= #[trigger] digits(n, width)[i] <= '9',
    decreases width,
{
    if width > 0 {
        let rest = digits(n / 10, (width - 1) as nat);
        lemma_digits_are_digits(n / 10, (width - 1) as nat);
        assert forall|i: int| 0 <= i < digits(n, width).len() implies '0' <= #[trigger] digits(
            n,
            width,
        )[i] <= '9' by {
            if i < rest.len() {
                assert(digits(n, width)[i] == rest[i]);
            } else {
                assert(digits(n, width)[i] == digit(n % 10));
            }
        }
    }
}

/// No label holds the separator of identifiers.
pub proof fn lemma_label_has_no_separator(kind: SnapshotKind, at: Moment)
    requires
        at.wf(),
    ensures
        forall|i: int| 0 <= i < label_text(kind, at).len() ==> #[trigger] label_text(kind, at)[i]
            != separator(),
{
    reveal_strlit("auto_");
    reveal_strlit("repl_");
    reveal_strlit("remote_");
    lemma_digits_are_digits(at.year, 4);
    lemma_digits_are_digits(at.month, 2);
    lemma_digits_are_digits(at.day, 2);
    lemma_digits_are_digits(at.hour, 2);
    lemma_digits_are_digits(at.minute, 2);
    lemma_digits_are_digits(at.second, 2);
    lemma_digits_len(at.year, 4);
    lemma_digits_len(at.month, 2);
    lemma_digits_len(at.day, 2);
    lemma_digits_len(at.hour, 2);
    lemma_digits_len(at.minute, 2);
    lemma_digits_len(at.second, 2);
}

/// The index behind the last separator of a text that ends with a part
/// that holds no separator.
proof fn lemma_after_last_of_tail(head: Seq<char>, tail: Seq<char>)
    requires
        forall|i: int| 0 <= i < tail.len() ==> tail[i] != separator(),
    ensures
        after_last(head + seq![separator()] + tail, separator()) == head.len() + 1,
    decreases tail.len(),
{
    let whole = head + seq![separator()] + tail;
    if tail.len() == 0 {
        assert(whole.last() == separator());
    } else {
        assert(whole.last() == tail.last());
        assert(whole.drop_last() =~= head + seq![separator()] + tail.drop_last());
        lemma_after_last_of_tail(head, tail.drop_last());
    }
}

/// An identifier made of a pool and a label has that label, where the label
/// holds no separator.
pub proof fn lemma_label_of_name(pool: Seq<char>, label: Seq<char>)
    requires
        forall|i: int| 0 <= i < label.len() ==> label[i] != separator(),
    ensures
        label_part(name_text(pool, label)) == label,
{
    lemma_after_last_of_tail(pool, label);
    assert(name_text(pool, label).skip(pool.len() as int + 1) =~= label);
}

/// Every stamp has 19 characters.
pub proof fn lemma_stamp_len(at: Moment)
    ensures
        at.stamp().len() == 19,
{
    lemma_digits_len(at.year, 4);
    lemma_digits_len(at.month, 2);
    lemma_digits_len(at.day, 2);
    lemma_digits_len(at.hour, 2);
    lemma_digits_len(at.minute, 2);
    lemma_digits_len(at.second, 2);
}

} // verus!
