//! The countdown before a capture: how long it runs, and what it shows.

use vstd::prelude::*;
use vstd::string::{StrSliceExecFns, StringExecFns};

use crate::strings::{decimal, digits};

verus! {

use crate::strings::{
    all_digits, decimal_of, digits_give_the_number_back, digits_of, digits_value,
};

/// The smallest numeral of a countdown of its own, in points.
pub const NUMERAL_MIN: i32 = 96;

/// The smallest numeral of a countdown inside the selector, in points.
pub const SELECTOR_NUMERAL_MIN: i32 = 48;

/// The seconds of a countdown, as far as they can be counted.
pub open spec fn counted_secs(secs: u64) -> u32 {
    if secs > u32::MAX {
        u32::MAX
    } else {
        secs as u32
    }
}

/// The whole seconds of a delay, as far as they can be counted.
pub fn whole_secs(secs: u64) -> (res: u32)
    ensures
        res == counted_secs(secs),
{
    if secs > u32::MAX as u64 {
        u32::MAX
    } else {
        secs as u32
    }
}

/// The number at which the countdown of a delay starts.
pub open spec fn countdown_start(secs: u64, subsec_nanos: u32) -> Option<u32> {
    if secs == 0 && subsec_nanos == 0 {
        None
    } else {
        Some(counted_secs(secs))
    }
}

/// The number at which a countdown starts. A delay of nothing at all shows no countdown; one of
/// less than a second starts at zero.
pub fn show_countdown(secs: u64, subsec_nanos: u32) -> (res: Option<u32>)
    ensures
        res == countdown_start(secs, subsec_nanos),
{
    if secs == 0 && subsec_nanos == 0 {
        None
    } else {
        Some(whole_secs(secs))
    }
}

/// What remains after one more second.
pub open spec fn after_a_second(remaining: u32) -> u32 {
    if remaining == 0 {
        0
    } else {
        (remaining - 1) as u32
    }
}

/// What a countdown shows after one more second.
pub open spec fn ticked(remaining: u32) -> Option<u32> {
    if after_a_second(remaining) == 0 {
        None
    } else {
        Some(after_a_second(remaining))
    }
}

/// Counts one second. `None` when the countdown is over, and otherwise what it shows now.
pub fn tick(remaining: u32) -> (res: Option<u32>)
    ensures
        res == ticked(remaining),
{
    let next: u32 = if remaining == 0 {
        0
    } else {
        remaining - 1
    };
    if next == 0 {
        None
    } else {
        Some(next)
    }
}

/// What remains after so many seconds.
pub open spec fn after_seconds(remaining: u32, elapsed: nat) -> u32
    decreases elapsed,
{
    if elapsed == 0 {
        remaining
    } else {
        after_a_second(after_seconds(remaining, (elapsed - 1) as nat))
    }
}

/// A countdown shows each second once: after `elapsed` seconds it shows what is left of its
/// start, and it is over exactly when its seconds have passed.
pub proof fn a_countdown_takes_its_seconds(start: u32, elapsed: nat)
    ensures
        after_seconds(start, elapsed) == (if elapsed >= start {
            0
        } else {
            start - elapsed
        }),
    decreases elapsed,
{
    if elapsed > 0 {
        a_countdown_takes_its_seconds(start, (elapsed - 1) as nat);
    }
}

/// The size of the numeral: a quarter of the shorter side of the monitor, and not less than
/// `least`.
pub open spec fn numeral_size(width: i32, height: i32, least: i32) -> int {
    let shorter: int = if width < height {
        width as int
    } else {
        height as int
    };
    if shorter < 0 || shorter / 4 < least {
        least as int
    } else {
        shorter / 4
    }
}

/// The size of the numeral on a monitor, in points.
pub fn numeral_points(width: i32, height: i32, least: i32) -> (res: i32)
    requires
        least >= 0,
    ensures
        res == numeral_size(width, height, least),
{
    let shorter: i32 = if width < height {
        width
    } else {
        height
    };
    if shorter < 0 || shorter / 4 < least {
        least
    } else {
        shorter / 4
    }
}

/// The markup of a numeral: the seconds, in bold, at a size in points.
pub open spec fn numeral_markup(secs: u32, points: i32) -> Seq<char> {
    "<span font_desc=\"Sans Bold "@ + decimal_of(points as int) + "\">"@ + digits_of(secs as nat)
        + "</span>"@
}

/// The markup of the countdown's label.
pub fn label_markup(secs: u32, points: i32) -> (res: String)
    ensures
        res@ == numeral_markup(secs, points),
{
    let mut out = String::from_str("<span font_desc=\"Sans Bold ");
    out.append(decimal(points as i64).as_str());
    out.append("\">");
    out.append(digits(secs as u64).as_str());
    out.append("</span>");
    out
}

/// The description of the countdown's font in the selector.
pub fn numeral_font(points: i32) -> (res: String)
    ensures
        res@ == "Sans Bold "@ + decimal_of(points as int),
{
    let mut out = String::from_str("Sans Bold ");
    out.append(decimal(points as i64).as_str());
    out
}

/// The style sheet of the countdown's windows, for a background and a numeral color.
pub open spec fn countdown_sheet(background: Seq<char>, numeral: Seq<char>) -> Seq<char> {
    "\nwindow.snypr-countdown,\nwindow.snypr-countdown decoration {\n    background: "@
        + background
        + ";\n}\nwindow.snypr-countdown label.snypr-countdown-number {\n    color: "@ + numeral
        + ";\n    font-weight: bold;\n}\n"@
}

/// The style sheet of the countdown's windows.
pub fn countdown_css(background: &str, numeral: &str) -> (res: String)
    ensures
        res@ == countdown_sheet(background@, numeral@),
{
    let mut out = String::from_str(
        "\nwindow.snypr-countdown,\nwindow.snypr-countdown decoration {\n    background: ",
    );
    out.append(background);
    out.append(";\n}\nwindow.snypr-countdown label.snypr-countdown-number {\n    color: ");
    out.append(numeral);
    out.append(";\n    font-weight: bold;\n}\n");
    out
}

// ---- what a countdown shows ----------------------------------------------------------------
/// Each tick shows one second less, and the countdown is over with the tick that leaves none.
pub proof fn a_tick_takes_a_second(remaining: u32)
    ensures
        ticked(remaining) is None <==> remaining <= 1,
        ticked(remaining) matches Some(next) ==> next + 1 == remaining,
{
}

/// A countdown is shown for any delay, and starts at its whole seconds.
pub proof fn a_delay_is_counted_from_its_seconds(secs: u64, subsec_nanos: u32)
    ensures
        countdown_start(secs, subsec_nanos) is None <==> secs == 0 && subsec_nanos == 0,
        countdown_start(secs, subsec_nanos) matches Some(start) ==> secs <= u32::MAX ==> start
            == secs,
        countdown_start(secs, subsec_nanos) matches Some(start) ==> secs > u32::MAX ==> start
            == u32::MAX,
{
}

/// The numeral is never smaller than the least size. Where it is larger it fits four times into
/// each side of the monitor, and one point more would not fit into the shorter one.
pub proof fn a_numeral_takes_a_quarter_of_the_monitor(width: i32, height: i32, least: i32)
    requires
        least >= 0,
    ensures
        ({
            let size = numeral_size(width, height, least);
            &&& size >= least
            &&& size > least ==> 4 * size <= width && 4 * size <= height
            &&& 4 * (size + 1) > width || 4 * (size + 1) > height
        }),
{
}

/// The label shows the seconds that remain, between the tags: its text without the tags gives
/// the number back.
pub proof fn a_label_shows_the_seconds(secs: u32, points: i32)
    ensures
        ({
            let opening = "<span font_desc=\"Sans Bold "@ + decimal_of(points as int) + "\">"@;
            let all = numeral_markup(secs, points);
            let shown = all.subrange(
                opening.len() as int,
                all.len() - "</span>"@.len(),
            );
            &&& opening.is_prefix_of(all)
            &&& digits_value(shown) == secs && all_digits(shown)
        }),
{
    let opening = "<span font_desc=\"Sans Bold "@ + decimal_of(points as int) + "\">"@;
    let all = numeral_markup(secs, points);
    let shown = all.subrange(opening.len() as int, all.len() - "</span>"@.len());
    digits_give_the_number_back(secs as nat);
    assert(shown =~= digits_of(secs as nat));
    assert(all.take(opening.len() as int) =~= opening);
}

} // verus!
