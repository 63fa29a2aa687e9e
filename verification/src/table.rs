//! The lines of the table: a header and one row per target.
//!
//! Columns are the target's name, successes over probes, and the least, the
//! mean and the greatest latency in milliseconds. The name column is 20
//! characters wide and left-aligned; the others are right-aligned, 16
//! characters for the counts and 10 for each latency. One space parts two
//! columns. A text wider than its column is kept whole.

use vstd::prelude::*;
use vstd::string::*;
use crate::stats::{lift, Stats, StatsModel};
use crate::text::{
    append_decimal, append_padded_left, append_padded_right, decimal, format_latency,
    latency_text, pad_left, pad_right,
};

verus! {

/// Width of the name column.
pub const NAME_WIDTH: usize = 20;

/// Width of the counts column.
pub const COUNTS_WIDTH: usize = 16;

/// Width of a latency column.
pub const LATENCY_WIDTH: usize = 10;

/// The five cells of a line, laid out in their columns.
pub open spec fn line_text(
    name: Seq<char>,
    counts: Seq<char>,
    min: Seq<char>,
    avg: Seq<char>,
    max: Seq<char>,
) -> Seq<char> {
    pad_right(name, NAME_WIDTH as int) + seq![' '] + pad_left(counts, COUNTS_WIDTH as int)
        + seq![' '] + pad_left(min, LATENCY_WIDTH as int) + seq![' '] + pad_left(
        avg,
        LATENCY_WIDTH as int,
    ) + seq![' '] + pad_left(max, LATENCY_WIDTH as int)
}

/// The header line.
pub open spec fn header_text() -> Seq<char> {
    line_text("IP"@, "Erfolg/Gesamt"@, "min (ms)"@, "avg (ms)"@, "max (ms)"@)
}

/// Successes over probes, as `3/4`.
pub open spec fn counts_text(success: nat, total: nat) -> Seq<char> {
    decimal(success) + seq!['/'] + decimal(total)
}

/// The row of the target `name` with the record `stats`.
pub open spec fn row_text(name: Seq<char>, stats: StatsModel) -> Seq<char> {
    line_text(
        name,
        counts_text(stats.success, stats.total),
        latency_text(stats.min_us),
        latency_text(stats.avg_us()),
        latency_text(stats.max_us),
    )
}

/// Lays five cells out in their columns.
fn format_line(name: &str, counts: &str, min: &str, avg: &str, max: &str) -> (line: String)
    ensures
        line@ == line_text(name@, counts@, min@, avg@, max@),
{
    proof {
        reveal_strlit(" ");
        assert(" "@ =~= seq![' ']);
    }
    let mut line = String::new();
    append_padded_right(&mut line, name, NAME_WIDTH);
    line.append(" ");
    append_padded_left(&mut line, counts, COUNTS_WIDTH);
    line.append(" ");
    append_padded_left(&mut line, min, LATENCY_WIDTH);
    line.append(" ");
    append_padded_left(&mut line, avg, LATENCY_WIDTH);
    line.append(" ");
    append_padded_left(&mut line, max, LATENCY_WIDTH);
    assert(line@ =~= line_text(name@, counts@, min@, avg@, max@));
    line
}

/// The header line of the table.
pub fn header_line() -> (line: String)
    ensures
        line@ == header_text(),
{
    format_line("IP", "Erfolg/Gesamt", "min (ms)", "avg (ms)", "max (ms)")
}

/// Successes over probes, as `3/4`.
pub fn format_counts(success: u64, total: u64) -> (text: String)
    ensures
        text@ == counts_text(success as nat, total as nat),
{
    proof {
        reveal_strlit("/");
        assert("/"@ =~= seq!['/']);
    }
    let mut text = String::new();
    append_decimal(&mut text, success);
    text.append("/");
    append_decimal(&mut text, total);
    assert(text@ =~= counts_text(success as nat, total as nat));
    text
}

/// The table row of the target `name` with the record `stats`.
pub fn format_row(name: &str, stats: &Stats) -> (line: String)
    ensures
        line@ == row_text(name@, stats@),
{
    let counts = format_counts(stats.success(), stats.total());
    let min = format_latency(stats.min_us());
    let avg = format_latency(stats.avg_us());
    let max = format_latency(stats.max_us());
    format_line(name, counts.as_str(), min.as_str(), avg.as_str(), max.as_str())
}

} // verus!
