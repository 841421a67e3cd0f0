//! Distances in time, written the way people say them: `5 minutes ago`,
//! `1 week from now`.
//!
//! A distance is matched against a table of magnitudes. Each magnitude has
//! an upper bound, a template for the phrase, and the unit in which the
//! distance is counted. Months have 30 days and years have 12 months.

use vstd::prelude::*;

use crate::decimal::{decimal, decimal_string};
use crate::template::{
    field, fill, fillable, filled, lemma_filled_first_field, lemma_filled_second_field,
    lemma_filled_text, plain_key, plain_text,
};

verus! {

/// One nanosecond: durations are counted in nanoseconds.
pub const NANOSECOND: u128 = 1;

/// One second.
pub const SECOND: u128 = 1_000_000_000;

/// One minute.
pub const MINUTE: u128 = 60 * SECOND;

/// One hour.
pub const HOUR: u128 = 60 * MINUTE;

/// One day.
pub const DAY: u128 = 24 * HOUR;

/// One week.
pub const WEEK: u128 = 7 * DAY;

/// One month, taken as 30 days.
pub const MONTH: u128 = 30 * DAY;

/// One year, taken as 12 months.
pub const YEAR: u128 = 12 * MONTH;

/// The distance from which on no amount is given any more.
pub const LONG_TIME: u128 = 37 * YEAR;

/// The bound of the last magnitude: as many seconds as a `u64` can count.
pub const FOREVER: u128 = 18_446_744_073_709_551_615 * SECOND;

/// The number of magnitudes in the table.
pub const MAGNITUDES: usize = 17;

/// The index of the last magnitude, which stands in when no bound exceeds
/// the distance.
pub const LAST: usize = 16;

/// A point in time: `secs` whole seconds after the start of 1970 in UTC
/// (before it, if negative) and `nanos` nanoseconds after that.
#[derive(Clone, Copy, Debug)]
pub struct Instant {
    pub secs: i64,
    pub nanos: u32,
}

impl View for Instant {
    type V = int;

    /// The nanoseconds from the start of 1970 to this instant.
    open spec fn view(&self) -> int {
        self.secs * SECOND + self.nanos
    }
}

impl Instant {
    /// The nanoseconds from the start of 1970 to this instant.
    pub fn nanoseconds(&self) -> (count: i128)
        ensures
            count == self@,
    {
        (self.secs as i128) * 1_000_000_000 + (self.nanos as i128)
    }
}

/// One row of the table: distances below `upper_bound` that no earlier row
/// has taken are written with `template`, and `divisor` is the unit in which
/// the amount is counted.
#[derive(Clone, Copy, Debug)]
pub struct Magnitude {
    pub upper_bound: u128,
    pub template: &'static str,
    pub divisor: u128,
}

/// A row of the table as plain values.
pub struct MagnitudeView {
    pub upper_bound: nat,
    pub template: Seq<char>,
    pub divisor: nat,
}

impl View for Magnitude {
    type V = MagnitudeView;

    open spec fn view(&self) -> MagnitudeView {
        MagnitudeView {
            upper_bound: self.upper_bound as nat,
            template: self.template@,
            divisor: self.divisor as nat,
        }
    }
}

/// The table of magnitudes, row by row.
pub open spec fn magnitude_at(index: int) -> MagnitudeView
    recommends
        0 <= index < MAGNITUDES,
{
    if index == 0 {
        MagnitudeView { upper_bound: SECOND as nat, template: "now"@, divisor: SECOND as nat }
    } else if index == 1 {
        MagnitudeView {
            upper_bound: (2 * SECOND) as nat,
            template: "1 second {label}"@,
            divisor: NANOSECOND as nat,
        }
    } else if index == 2 {
        MagnitudeView {
            upper_bound: MINUTE as nat,
            template: "{amt} seconds {label}"@,
            divisor: SECOND as nat,
        }
    } else if index == 3 {
        MagnitudeView {
            upper_bound: (2 * MINUTE) as nat,
            template: "1 minute {label}"@,
            divisor: NANOSECOND as nat,
        }
    } else if index == 4 {
        MagnitudeView {
            upper_bound: HOUR as nat,
            template: "{amt} minutes {label}"@,
            divisor: MINUTE as nat,
        }
    } else if index == 5 {
        MagnitudeView {
            upper_bound: (2 * HOUR) as nat,
            template: "1 hour {label}"@,
            divisor: NANOSECOND as nat,
        }
    } else if index == 6 {
        MagnitudeView {
            upper_bound: DAY as nat,
            template: "{amt} hours {label}"@,
            divisor: HOUR as nat,
        }
    } else if index == 7 {
        MagnitudeView {
            upper_bound: (2 * DAY) as nat,
            template: "1 day {label}"@,
            divisor: NANOSECOND as nat,
        }
    } else if index == 8 {
        MagnitudeView {
            upper_bound: WEEK as nat,
            template: "{amt} days {label}"@,
            divisor: DAY as nat,
        }
    } else if index == 9 {
        MagnitudeView {
            upper_bound: (2 * WEEK) as nat,
            template: "1 week {label}"@,
            divisor: NANOSECOND as nat,
        }
    } else if index == 10 {
        MagnitudeView {
            upper_bound: MONTH as nat,
            template: "{amt} weeks {label}"@,
            divisor: WEEK as nat,
        }
    } else if index == 11 {
        MagnitudeView {
            upper_bound: (2 * MONTH) as nat,
            template: "1 month {label}"@,
            divisor: NANOSECOND as nat,
        }
    } else if index == 12 {
        MagnitudeView {
            upper_bound: YEAR as nat,
            template: "{amt} months {label}"@,
            divisor: MONTH as nat,
        }
    } else if index == 13 {
        MagnitudeView {
            upper_bound: (18 * MONTH) as nat,
            template: "1 year {label}"@,
            divisor: NANOSECOND as nat,
        }
    } else if index == 14 {
        MagnitudeView {
            upper_bound: (2 * YEAR) as nat,
            template: "2 years {label}"@,
            divisor: NANOSECOND as nat,
        }
    } else if index == 15 {
        MagnitudeView {
            upper_bound: LONG_TIME as nat,
            template: "{amt} years {label}"@,
            divisor: YEAR as nat,
        }
    } else {
        MagnitudeView {
            upper_bound: FOREVER as nat,
            template: "a long while {label}"@,
            divisor: NANOSECOND as nat,
        }
    }
}

/// The index of the first row from `from` on whose bound exceeds `elapsed`,
/// or of the last row if there is none.
pub open spec fn first_above(elapsed: nat, from: int) -> int
    decreases LAST - from,
{
    if from >= LAST {
        LAST as int
    } else if magnitude_at(from).upper_bound > elapsed {
        from
    } else {
        first_above(elapsed, from + 1)
    }
}

/// The index of the row by which a distance of `elapsed` nanoseconds is
/// written.
pub open spec fn selected(elapsed: nat) -> int {
    first_above(elapsed, 0)
}

/// The phrase for a distance of `elapsed` nanoseconds in the direction that
/// `label` names: the template of the selected row, with the whole number of
/// the row's units in `elapsed` for `{amt}` and the label for `{label}`.
pub open spec fn phrase(elapsed: nat, label: Seq<char>) -> Seq<char> {
    let row = magnitude_at(selected(elapsed));
    filled(row.template, "amt"@, decimal(elapsed / row.divisor), "label"@, label)
}

/// The phrase for the distance between the instants `a` and `b`, given as
/// nanoseconds. When `a` is the later one the phrase takes `b_label`,
/// otherwise `a_label`.
pub open spec fn relative_text(a: int, b: int, a_label: Seq<char>, b_label: Seq<char>) -> Seq<
    char,
> {
    if a > b {
        phrase((a - b) as nat, b_label)
    } else {
        phrase((b - a) as nat, a_label)
    }
}

/// What the template of the row at `index` comes to once `amt` and `label`
/// are put in.
spec fn row_text(index: int, amt: Seq<char>, label: Seq<char>) -> Seq<char>
    recommends
        0 <= index < MAGNITUDES,
{
    if index == 0 {
        "now"@
    } else if index == 1 {
        "1 second "@ + label
    } else if index == 2 {
        amt + " seconds "@ + label
    } else if index == 3 {
        "1 minute "@ + label
    } else if index == 4 {
        amt + " minutes "@ + label
    } else if index == 5 {
        "1 hour "@ + label
    } else if index == 6 {
        amt + " hours "@ + label
    } else if index == 7 {
        "1 day "@ + label
    } else if index == 8 {
        amt + " days "@ + label
    } else if index == 9 {
        "1 week "@ + label
    } else if index == 10 {
        amt + " weeks "@ + label
    } else if index == 11 {
        "1 month "@ + label
    } else if index == 12 {
        amt + " months "@ + label
    } else if index == 13 {
        "1 year "@ + label
    } else if index == 14 {
        "2 years "@ + label
    } else if index == 15 {
        amt + " years "@ + label
    } else {
        "a long while "@ + label
    }
}

/// The two keys of the table's templates can be told apart and hold nothing
/// that a field would read as its own.
proof fn lemma_keys()
    ensures
        plain_key("amt"@),
        plain_key("label"@),
        "amt"@ != "label"@,
{
    reveal_strlit("amt");
    reveal_strlit("label");
    assert("amt"@.len() == 3);
    assert("label"@.len() == 5);
}

/// A template without any field comes to itself.
proof fn lemma_bare(template: Seq<char>, amt: Seq<char>, label: Seq<char>)
    requires
        plain_text(template),
    ensures
        fillable(template, "amt"@, "label"@),
        filled(template, "amt"@, amt, "label"@, label) == template,
{
    let end = Seq::<char>::empty();
    lemma_filled_text(template, end, "amt"@, amt, "label"@, label);
    assert(template + end =~= template);
}

/// A template of some text and then the label field comes to the text and
/// then the label.
proof fn lemma_single(template: Seq<char>, text: Seq<char>, amt: Seq<char>, label: Seq<char>)
    requires
        plain_text(text),
        template == text + field("label"@),
    ensures
        fillable(template, "amt"@, "label"@),
        filled(template, "amt"@, amt, "label"@, label) == text + label,
{
    let end = Seq::<char>::empty();
    lemma_keys();
    lemma_filled_second_field(end, "amt"@, amt, "label"@, label);
    assert(field("label"@) + end =~= field("label"@));
    assert(label + end =~= label);
    lemma_filled_text(text, field("label"@), "amt"@, amt, "label"@, label);
}

/// A template of the amount field, some text and the label field comes to
/// the amount, the text and the label.
proof fn lemma_counted(template: Seq<char>, text: Seq<char>, amt: Seq<char>, label: Seq<char>)
    requires
        plain_text(text),
        template == field("amt"@) + text + field("label"@),
    ensures
        fillable(template, "amt"@, "label"@),
        filled(template, "amt"@, amt, "label"@, label) == amt + text + label,
{
    let rest = text + field("label"@);
    lemma_single(rest, text, amt, label);
    lemma_filled_first_field(rest, "amt"@, amt, "label"@, label);
    assert(template =~= field("amt"@) + rest);
    assert(amt + (text + label) =~= amt + text + label);
}

/// Every template of the table can be filled in, and comes to the text of
/// its row.
proof fn lemma_row_text(index: int, amt: Seq<char>, label: Seq<char>)
    requires
        0 <= index < MAGNITUDES,
    ensures
        fillable(magnitude_at(index).template, "amt"@, "label"@),
        filled(magnitude_at(index).template, "amt"@, amt, "label"@, label) == row_text(
            index,
            amt,
            label,
        ),
{
    reveal_strlit("amt");
    reveal_strlit("label");
    let template = magnitude_at(index).template;
    if index == 0 {
        reveal_strlit("now");
        lemma_bare(template, amt, label);
    } else if index == 1 {
        reveal_strlit("1 second {label}");
        reveal_strlit("1 second ");
        assert(template =~= "1 second "@ + field("label"@));
        lemma_single(template, "1 second "@, amt, label);
    } else if index == 2 {
        reveal_strlit("{amt} seconds {label}");
        reveal_strlit(" seconds ");
        assert(template =~= field("amt"@) + " seconds "@ + field("label"@));
        lemma_counted(template, " seconds "@, amt, label);
    } else if index == 3 {
        reveal_strlit("1 minute {label}");
        reveal_strlit("1 minute ");
        assert(template =~= "1 minute "@ + field("label"@));
        lemma_single(template, "1 minute "@, amt, label);
    } else if index == 4 {
        reveal_strlit("{amt} minutes {label}");
        reveal_strlit(" minutes ");
        assert(template =~= field("amt"@) + " minutes "@ + field("label"@));
        lemma_counted(template, " minutes "@, amt, label);
    } else if index == 5 {
        reveal_strlit("1 hour {label}");
        reveal_strlit("1 hour ");
        assert(template =~= "1 hour "@ + field("label"@));
        lemma_single(template, "1 hour "@, amt, label);
    } else if index == 6 {
        reveal_strlit("{amt} hours {label}");
        reveal_strlit(" hours ");
        assert(template =~= field("amt"@) + " hours "@ + field("label"@));
        lemma_counted(template, " hours "@, amt, label);
    } else if index == 7 {
        reveal_strlit("1 day {label}");
        reveal_strlit("1 day ");
        assert(template =~= "1 day "@ + field("label"@));
        lemma_single(template, "1 day "@, amt, label);
    } else if index == 8 {
        reveal_strlit("{amt} days {label}");
        reveal_strlit(" days ");
        assert(template =~= field("amt"@) + " days "@ + field("label"@));
        lemma_counted(template, " days "@, amt, label);
    } else if index == 9 {
        reveal_strlit("1 week {label}");
        reveal_strlit("1 week ");
        assert(template =~= "1 week "@ + field("label"@));
        lemma_single(template, "1 week "@, amt, label);
    } else if index == 10 {
        reveal_strlit("{amt} weeks {label}");
        reveal_strlit(" weeks ");
        assert(template =~= field("amt"@) + " weeks "@ + field("label"@));
        lemma_counted(template, " weeks "@, amt, label);
    } else if index == 11 {
        reveal_strlit("1 month {label}");
        reveal_strlit("1 month ");
        assert(template =~= "1 month "@ + field("label"@));
        lemma_single(template, "1 month "@, amt, label);
    } else if index == 12 {
        reveal_strlit("{amt} months {label}");
        reveal_strlit(" months ");
        assert(template =~= field("amt"@) + " months "@ + field("label"@));
        lemma_counted(template, " months "@, amt, label);
    } else if index == 13 {
        reveal_strlit("1 year {label}");
        reveal_strlit("1 year ");
        assert(template =~= "1 year "@ + field("label"@));
        lemma_single(template, "1 year "@, amt, label);
    } else if index == 14 {
        reveal_strlit("2 years {label}");
        reveal_strlit("2 years ");
        assert(template =~= "2 years "@ + field("label"@));
        lemma_single(template, "2 years "@, amt, label);
    } else if index == 15 {
        reveal_strlit("{amt} years {label}");
        reveal_strlit(" years ");
        assert(template =~= field("amt"@) + " years "@ + field("label"@));
        lemma_counted(template, " years "@, amt, label);
    } else {
        reveal_strlit("a long while {label}");
        reveal_strlit("a long while ");
        assert(template =~= "a long while "@ + field("label"@));
        lemma_single(template, "a long while "@, amt, label);
    }
}

/// The phrase for a distance of `elapsed` nanoseconds, said band by band:
/// what [`phrase`] comes to once the table has been read.
pub open spec fn spoken(elapsed: nat, label: Seq<char>) -> Seq<char> {
    if elapsed < SECOND {
        "now"@
    } else if elapsed < 2 * SECOND {
        "1 second "@ + label
    } else if elapsed < MINUTE {
        decimal(elapsed / SECOND as nat) + " seconds "@ + label
    } else if elapsed < 2 * MINUTE {
        "1 minute "@ + label
    } else if elapsed < HOUR {
        decimal(elapsed / MINUTE as nat) + " minutes "@ + label
    } else if elapsed < 2 * HOUR {
        "1 hour "@ + label
    } else if elapsed < DAY {
        decimal(elapsed / HOUR as nat) + " hours "@ + label
    } else if elapsed < 2 * DAY {
        "1 day "@ + label
    } else if elapsed < WEEK {
        decimal(elapsed / DAY as nat) + " days "@ + label
    } else if elapsed < 2 * WEEK {
        "1 week "@ + label
    } else if elapsed < MONTH {
        decimal(elapsed / WEEK as nat) + " weeks "@ + label
    } else if elapsed < 2 * MONTH {
        "1 month "@ + label
    } else if elapsed < YEAR {
        decimal(elapsed / MONTH as nat) + " months "@ + label
    } else if elapsed < 18 * MONTH {
        "1 year "@ + label
    } else if elapsed < 2 * YEAR {
        "2 years "@ + label
    } else if elapsed < LONG_TIME {
        decimal(elapsed / YEAR as nat) + " years "@ + label
    } else {
        "a long while "@ + label
    }
}

/// The bounds of the table grow from each row to the next.
pub proof fn lemma_bounds_increase(i: int, j: int)
    requires
        0 <= i < j < MAGNITUDES,
    ensures
        magnitude_at(i).upper_bound < magnitude_at(j).upper_bound,
{
}

/// Exactly one row is selected for every distance: the one whose bound
/// exceeds the distance while no earlier bound does, or the last row when
/// no bound exceeds it.
pub proof fn lemma_selected(elapsed: nat)
    ensures
        0 <= selected(elapsed) < MAGNITUDES,
        forall|j: int|
            0 <= j < selected(elapsed) ==> (#[trigger] magnitude_at(j)).upper_bound <= elapsed,
        selected(elapsed) < LAST ==> magnitude_at(selected(elapsed)).upper_bound > elapsed,
        forall|k: int|
            0 <= k < MAGNITUDES && (k < LAST ==> (#[trigger] magnitude_at(k)).upper_bound
                > elapsed) && (forall|j: int|
                0 <= j < k ==> (#[trigger] magnitude_at(j)).upper_bound <= elapsed) ==> k
                == selected(elapsed),
{
    lemma_first_above(elapsed, 0);
    let chosen = selected(elapsed);
    assert forall|k: int|
        0 <= k < MAGNITUDES && (k < LAST ==> (#[trigger] magnitude_at(k)).upper_bound > elapsed)
            && (forall|j: int|
            0 <= j < k ==> (#[trigger] magnitude_at(j)).upper_bound <= elapsed) implies k
        == chosen by {
        if k < chosen {
            assert(magnitude_at(k).upper_bound <= elapsed);
        } else if chosen < k {
            assert(magnitude_at(chosen).upper_bound <= elapsed);
        }
    }
}

/// What the search from `from` on finds.
proof fn lemma_first_above(elapsed: nat, from: int)
    requires
        0 <= from <= LAST,
    ensures
        from <= first_above(elapsed, from) <= LAST,
        forall|j: int|
            from <= j < first_above(elapsed, from) ==> (#[trigger] magnitude_at(j)).upper_bound
                <= elapsed,
        first_above(elapsed, from) < LAST ==> magnitude_at(
            first_above(elapsed, from),
        ).upper_bound > elapsed,
    decreases LAST - from,
{
    if from < LAST && magnitude_at(from).upper_bound <= elapsed {
        lemma_first_above(elapsed, from + 1);
    }
}

/// A distance that is exactly the bound of a row is written by the next
/// row: a bound belongs to the band above it.
pub proof fn lemma_bound_selects_next(index: int, label: Seq<char>)
    requires
        0 <= index < LAST,
    ensures
        selected(magnitude_at(index).upper_bound) == index + 1,
        phrase(magnitude_at(index).upper_bound, label) == filled(
            magnitude_at(index + 1).template,
            "amt"@,
            decimal(magnitude_at(index).upper_bound / magnitude_at(index + 1).divisor),
            "label"@,
            label,
        ),
{
    let bound = magnitude_at(index).upper_bound;
    lemma_selected(bound);
    assert(magnitude_at(index + 1).upper_bound > bound);
    assert forall|j: int| 0 <= j < index + 1 implies (#[trigger] magnitude_at(j)).upper_bound
        <= bound by {
        if j < index {
            lemma_bounds_increase(j, index);
        }
    }
}

/// Every template of the table is one that can be filled in: its braces
/// all belong to the fields `{amt}` and `{label}`.
pub proof fn lemma_templates_fillable(index: int)
    requires
        0 <= index < MAGNITUDES,
    ensures
        fillable(magnitude_at(index).template, "amt"@, "label"@),
{
    lemma_row_text(index, Seq::empty(), Seq::empty());
}

/// The phrase that the table gives is the one said band by band.
pub proof fn lemma_phrase_spoken(elapsed: nat, label: Seq<char>)
    ensures
        phrase(elapsed, label) == spoken(elapsed, label),
{
    lemma_selected(elapsed);
    let index = selected(elapsed);
    let row = magnitude_at(index);
    lemma_row_text(index, decimal(elapsed / row.divisor), label);
    if index > 0 {
        assert(magnitude_at(index - 1).upper_bound <= elapsed);
    }
}

/// The row of the table at `index`.
pub fn magnitude(index: usize) -> (row: Magnitude)
    requires
        index < MAGNITUDES,
    ensures
        row@ == magnitude_at(index as int),
{
    match index {
        0 => Magnitude { upper_bound: SECOND, template: "now", divisor: SECOND },
        1 => Magnitude {
            upper_bound: 2 * SECOND,
            template: "1 second {label}",
            divisor: NANOSECOND,
        },
        2 => Magnitude { upper_bound: MINUTE, template: "{amt} seconds {label}", divisor: SECOND },
        3 => Magnitude {
            upper_bound: 2 * MINUTE,
            template: "1 minute {label}",
            divisor: NANOSECOND,
        },
        4 => Magnitude { upper_bound: HOUR, template: "{amt} minutes {label}", divisor: MINUTE },
        5 => Magnitude { upper_bound: 2 * HOUR, template: "1 hour {label}", divisor: NANOSECOND },
        6 => Magnitude { upper_bound: DAY, template: "{amt} hours {label}", divisor: HOUR },
        7 => Magnitude { upper_bound: 2 * DAY, template: "1 day {label}", divisor: NANOSECOND },
        8 => Magnitude { upper_bound: WEEK, template: "{amt} days {label}", divisor: DAY },
        9 => Magnitude { upper_bound: 2 * WEEK, template: "1 week {label}", divisor: NANOSECOND },
        10 => Magnitude { upper_bound: MONTH, template: "{amt} weeks {label}", divisor: WEEK },
        11 => Magnitude {
            upper_bound: 2 * MONTH,
            template: "1 month {label}",
            divisor: NANOSECOND,
        },
        12 => Magnitude { upper_bound: YEAR, template: "{amt} months {label}", divisor: MONTH },
        13 => Magnitude {
            upper_bound: 18 * MONTH,
            template: "1 year {label}",
            divisor: NANOSECOND,
        },
        14 => Magnitude { upper_bound: 2 * YEAR, template: "2 years {label}", divisor: NANOSECOND },
        15 => Magnitude { upper_bound: LONG_TIME, template: "{amt} years {label}", divisor: YEAR },
        _ => Magnitude {
            upper_bound: FOREVER,
            template: "a long while {label}",
            divisor: NANOSECOND,
        },
    }
}

/// Finds the row for a distance of `elapsed` nanoseconds: the first whose
/// bound exceeds it, or the last row if none does.
pub fn select(elapsed: u128) -> (row: Magnitude)
    ensures
        row@ == magnitude_at(selected(elapsed as nat)),
{
    let mut index: usize = 0;
    while index < LAST
        invariant
            index <= LAST,
            selected(elapsed as nat) == first_above(elapsed as nat, index as int),
        decreases LAST - index,
    {
        let row = magnitude(index);
        if row.upper_bound > elapsed {
            return row;
        }
        index = index + 1;
    }
    magnitude(LAST)
}

/// Reads the clock through `chrono::Utc::now` and gives the time as seconds
/// and nanoseconds since the start of 1970.
///
/// Nothing is claimed of the instant that comes back. `Utc::now` panics on a
/// machine whose clock stands before 1970.
#[verifier::external_body]
fn now() -> Instant {
    let current = chrono::Utc::now();
    Instant { secs: current.timestamp(), nanos: current.timestamp_subsec_nanos() }
}

/// Says how far `a` is from `b`.
///
/// The distance is the time between the two instants, whichever comes
/// first. When `a` is the later one the phrase ends in `b_label`, otherwise
/// in `a_label`.
pub fn format_rel(a: Instant, b: Instant, a_label: &str, b_label: &str) -> (text: String)
    ensures
        text@ == relative_text(a@, b@, a_label@, b_label@),
{
    let from: i128 = a.nanoseconds();
    let to: i128 = b.nanoseconds();
    let (elapsed, label) = if from > to {
        ((from - to) as u128, b_label)
    } else {
        ((to - from) as u128, a_label)
    };
    let row = select(elapsed);
    let amt = decimal_string(elapsed / row.divisor);
    proof {
        lemma_keys();
        lemma_selected(elapsed as nat);
        lemma_row_text(selected(elapsed as nat), amt@, label@);
    }
    fill(row.template, "amt", amt.as_str(), "label", label).unwrap()
}

/// Says how far `then` is from the present moment: `ago` for the past and
/// `from now` for the future.
///
/// The present moment is whatever the clock says when it is read, so the
/// text is that of [`format_rel`] for some instant in place of now.
pub fn format(then: Instant) -> (text: String)
    ensures
        exists|now: Instant| text@ == relative_text(then@, now@, "ago"@, "from now"@),
{
    let now = now();
    format_rel(then, now, "ago", "from now")
}

/// Giving the two instants the other way round, each with its label, gives
/// the same text.
pub proof fn lemma_relative_text_swap(a: int, b: int, a_label: Seq<char>, b_label: Seq<char>)
    ensures
        relative_text(a, b, a_label, b_label) == relative_text(b, a, b_label, a_label),
{
    if a == b {
        lemma_phrase_spoken(0, a_label);
        lemma_phrase_spoken(0, b_label);
    }
}

/// Asking twice how far the same two instants are apart, with the same
/// labels, gives the same text.
pub proof fn lemma_format_rel_repeatable(
    a: Instant,
    b: Instant,
    a_label: &str,
    b_label: &str,
    first: String,
    second: String,
)
    requires
        call_ensures(format_rel, (a, b, a_label, b_label), first),
        call_ensures(format_rel, (a, b, a_label, b_label), second),
    ensures
        first@ == second@,
{
}

} // verus!
