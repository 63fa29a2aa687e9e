//! The lines of the durable log, and the rule that a failed write ends logging.
//!
//! A line about lost reachability is `[<stamp>] unreachable: a, b`; the
//! block that closes a run starts with `[<stamp>] Final state:` and goes on
//! with the lines of the last table.

use vstd::prelude::*;
use vstd::string::*;
use crate::schedule::WallClock;
use crate::text::views_of;

verus! {

/// Readings further than this many seconds from the Unix epoch are not stamped.
pub const STAMP_RANGE_SECS: i64 = 100_000_000_000;

/// Local time differs from UTC by less than this many seconds.
pub const OFFSET_LIMIT_SECS: i32 = 86_400;

/// The least number of characters of a stamp.
pub const STAMP_MIN_LEN: usize = 19;

/// Why a line could not be stamped.
#[derive(Clone, Copy, Debug, PartialEq, Eq, Structural)]
pub enum StampError {
    /// The reading lies further than [`STAMP_RANGE_SECS`] from the epoch.
    OutOfRange,
    /// The offset of local time is [`OFFSET_LIMIT_SECS`] or more, either way.
    BadOffset,
}

/// Whether the reading `wall` lies within the range that is stamped.
pub open spec fn stampable(wall: WallClock) -> bool {
    -STAMP_RANGE_SECS <= wall.unix_seconds() <= STAMP_RANGE_SECS
}

/// Whether `offset_secs` can be the offset of a local time.
pub open spec fn offset_fits(offset_secs: i32) -> bool {
    -OFFSET_LIMIT_SECS < offset_secs < OFFSET_LIMIT_SECS
}

/// The date and time, as `YYYY-MM-DD HH:MM:SS`, of the instant `unix_secs`
/// seconds after the Unix epoch in the time zone that is `offset_secs`
/// seconds ahead of UTC, as chrono writes them.
pub uninterp spec fn stamp_text(unix_secs: int, offset_secs: int) -> Seq<char>;

/// Whether `c` is a decimal digit.
pub open spec fn is_digit_char(c: char) -> bool {
    '0' <= c && c <= '9'
}

/// Whether `text` has the form `dddd-dd-dd dd:dd:dd`, each `d` a digit.
pub open spec fn is_stamp_form(text: Seq<char>) -> bool {
    &&& text.len() == 19
    &&& text[4] == '-'
    &&& text[7] == '-'
    &&& text[10] == ' '
    &&& text[13] == ':'
    &&& text[16] == ':'
    &&& forall|i: int|
        0 <= i < 19 && i != 4 && i != 7 && i != 10 && i != 13 && i != 16 ==> is_digit_char(
            #[trigger] text[i],
        )
}

/// The stamp of the reading `wall` in the time zone that is `offset_secs`
/// seconds ahead of UTC, or why there is none.
pub open spec fn stamp_of(wall: WallClock, offset_secs: i32) -> Result<Seq<char>, StampError> {
    if !stampable(wall) {
        Err(StampError::OutOfRange)
    } else if !offset_fits(offset_secs) {
        Err(StampError::BadOffset)
    } else {
        Ok(stamp_text(wall.unix_seconds(), offset_secs as int))
    }
}

/// The log line of a cycle that reports `names` at the reading `wall`:
/// none without a name, else the line with the stamp, or why there is no
/// stamp.
pub open spec fn cycle_entry_of(wall: WallClock, offset_secs: i32, names: Seq<Seq<char>>) -> Result<
    Option<Seq<char>>,
    StampError,
> {
    if names.len() == 0 {
        Ok(None)
    } else {
        match stamp_of(wall, offset_secs) {
            Ok(stamp) => Ok(Some(unreachable_text(stamp, names))),
            Err(error) => Err(error),
        }
    }
}

/// The final block over `lines` at the reading `wall`, or why there is no
/// stamp.
pub open spec fn final_entries_of(wall: WallClock, offset_secs: i32, lines: Seq<Seq<char>>) -> Result<
    Seq<Seq<char>>,
    StampError,
> {
    match stamp_of(wall, offset_secs) {
        Ok(stamp) => Ok(final_block(stamp, lines)),
        Err(error) => Err(error),
    }
}

/// `names`, each parted from the next by a comma and a space.
pub open spec fn joined(names: Seq<Seq<char>>) -> Seq<char>
    decreases names.len(),
{
    if names.len() == 0 {
        Seq::empty()
    } else if names.len() == 1 {
        names[0]
    } else {
        joined(names.drop_last()) + ", "@ + names.last()
    }
}

/// The log line that reports `names` unreachable at `stamp`.
pub open spec fn unreachable_text(stamp: Seq<char>, names: Seq<Seq<char>>) -> Seq<char> {
    "["@ + stamp + "] unreachable: "@ + joined(names)
}

/// The line that opens the final block at `stamp`.
pub open spec fn final_header_text(stamp: Seq<char>) -> Seq<char> {
    "["@ + stamp + "] Final state:"@
}

/// The final block at `stamp` over the last table `lines`.
pub open spec fn final_block(stamp: Seq<char>, lines: Seq<Seq<char>>) -> Seq<Seq<char>> {
    seq![final_header_text(stamp)] + lines
}

/// The date and time of the instant `unix_secs` seconds after the Unix
/// epoch, in the time zone `offset_secs` seconds ahead of UTC, as
/// `YYYY-MM-DD HH:MM:SS`.
///
/// Calls `chrono::DateTime::from_timestamp` and
/// `chrono::FixedOffset::east_opt`, then `DateTime::with_timezone` and
/// `DateTime::format`. Within the bounds required here both of the first
/// two give a value, so there is a stamp. Its text is a function of the two
/// arguments and goes by the name [`stamp_text`]. Claimed of it is what
/// chrono's formatting shows: the year takes four characters or more and
/// every other field two, and from the epoch on, where the year has four
/// digits, the text has the form `dddd-dd-dd dd:dd:dd`.
#[verifier::external_body]
fn local_stamp(unix_secs: i64, offset_secs: i32) -> (stamp: Option<String>)
    requires
        -STAMP_RANGE_SECS <= unix_secs <= STAMP_RANGE_SECS,
        -OFFSET_LIMIT_SECS < offset_secs < OFFSET_LIMIT_SECS,
    ensures
        stamp is Some,
        stamp->0@ == stamp_text(unix_secs as int, offset_secs as int),
        stamp->0@.len() >= STAMP_MIN_LEN,
        unix_secs >= 0 ==> is_stamp_form(stamp->0@),
{
    match (
        chrono::DateTime::from_timestamp(unix_secs, 0),
        chrono::FixedOffset::east_opt(offset_secs),
    ) {
        (Some(utc), Some(zone)) => Some(
            utc.with_timezone(&zone).format("%Y-%m-%d %H:%M:%S").to_string(),
        ),
        _ => None,
    }
}

/// Appends `names`, each parted from the next by a comma and a space.
fn append_joined(out: &mut String, names: &Vec<String>)
    ensures
        final(out)@ == old(out)@ + joined(views_of(names@)),
{
    let ghost all = views_of(names@);
    let mut i: usize = 0;
    assert(all.take(0) =~= Seq::<Seq<char>>::empty());
    while i < names.len()
        invariant
            i <= names@.len(),
            all == views_of(names@),
            out@ == old(out)@ + joined(all.take(i as int)),
        decreases names@.len() - i,
    {
        if i > 0 {
            out.append(", ");
        }
        out.append(names[i].as_str());
        proof {
            let grown = all.take(i + 1);
            assert(grown.drop_last() =~= all.take(i as int));
            assert(grown.last() == names@[i as int]@);
            if i == 0 {
                assert(joined(all.take(0)) =~= Seq::<char>::empty());
            }
            assert(out@ =~= old(out)@ + joined(grown));
        }
        i += 1;
    }
    assert(all.take(names@.len() as int) =~= all);
}

/// The log line that reports `names` unreachable at `stamp`.
pub fn unreachable_line(stamp: &str, names: &Vec<String>) -> (line: String)
    ensures
        line@ == unreachable_text(stamp@, views_of(names@)),
{
    let mut line = String::new();
    line.append("[");
    line.append(stamp);
    line.append("] unreachable: ");
    append_joined(&mut line, names);
    assert(line@ =~= unreachable_text(stamp@, views_of(names@)));
    line
}

/// The line that opens the final block at `stamp`.
pub fn final_header(stamp: &str) -> (line: String)
    ensures
        line@ == final_header_text(stamp@),
{
    let mut line = String::new();
    line.append("[");
    line.append(stamp);
    line.append("] Final state:");
    assert(line@ =~= final_header_text(stamp@));
    line
}

/// The log line of one render cycle: `None` when no target went
/// unreachable, else the line that reports `names` at `stamp`.
pub fn cycle_entry(stamp: &str, names: &Vec<String>) -> (entry: Option<String>)
    ensures
        names@.len() == 0 ==> entry is None,
        names@.len() > 0 ==> entry is Some && entry->0@ == unreachable_text(
            stamp@,
            views_of(names@),
        ),
{
    if names.len() == 0 {
        None
    } else {
        Some(unreachable_line(stamp, names))
    }
}

/// The final block at `stamp`: the header and the lines of the last table.
pub fn final_entries(stamp: &str, last_display: Vec<String>) -> (entries: Vec<String>)
    ensures
        views_of(entries@) == final_block(stamp@, views_of(last_display@)),
{
    let mut entries: Vec<String> = Vec::new();
    entries.push(final_header(stamp));
    let mut rest = last_display;
    let ghost lines = views_of(rest@);
    entries.append(&mut rest);
    assert(views_of(entries@) =~= final_block(stamp@, lines));
    entries
}

/// The whole seconds from the epoch to the reading `wall`, rounded down,
/// if the reading lies within the range that is stamped.
pub fn stamp_seconds(wall: WallClock) -> (secs: Option<i64>)
    ensures
        stampable(wall) ==> secs == Some(wall.unix_seconds() as i64),
        !stampable(wall) ==> secs is None,
{
    match wall {
        WallClock::SinceEpoch { secs, .. } => {
            if secs <= STAMP_RANGE_SECS as u64 {
                Some(secs as i64)
            } else {
                None
            }
        },
        WallClock::BeforeEpoch { secs, subsec_nanos } => {
            if secs > STAMP_RANGE_SECS as u64 {
                None
            } else {
                let down: u64 = if subsec_nanos == 0 {
                    secs
                } else {
                    secs + 1
                };
                if down > STAMP_RANGE_SECS as u64 {
                    None
                } else {
                    Some(-(down as i64))
                }
            }
        },
    }
}

/// The view of a stamp or of its error.
pub open spec fn stamp_view(stamp: Result<String, StampError>) -> Result<Seq<char>, StampError> {
    match stamp {
        Ok(text) => Ok(text@),
        Err(error) => Err(error),
    }
}

/// The view of a cycle's log line or of its error.
pub open spec fn entry_view(entry: Result<Option<String>, StampError>) -> Result<
    Option<Seq<char>>,
    StampError,
> {
    match entry {
        Ok(Some(line)) => Ok(Some(line@)),
        Ok(None) => Ok(None),
        Err(error) => Err(error),
    }
}

/// The view of a block of lines or of its error.
pub open spec fn entries_view(entries: Result<Vec<String>, StampError>) -> Result<
    Seq<Seq<char>>,
    StampError,
> {
    match entries {
        Ok(lines) => Ok(views_of(lines@)),
        Err(error) => Err(error),
    }
}

/// Whether `offset_secs` can be the offset of a local time.
pub fn offset_in_range(offset_secs: i32) -> (ok: bool)
    ensures
        ok == offset_fits(offset_secs),
{
    -OFFSET_LIMIT_SECS < offset_secs && offset_secs < OFFSET_LIMIT_SECS
}

/// The date and time of the reading `wall` in the time zone that is
/// `offset_secs` seconds ahead of UTC, as `YYYY-MM-DD HH:MM:SS`.
///
/// A reading out of the range that is stamped is refused, and so is an
/// offset of a day or more; every other reading has its stamp, of at least
/// 19 characters, and of the form `dddd-dd-dd dd:dd:dd` for a reading at or
/// after the epoch.
pub fn local_timestamp(wall: WallClock, offset_secs: i32) -> (stamp: Result<String, StampError>)
    ensures
        stamp_view(stamp) == stamp_of(wall, offset_secs),
        stamp matches Ok(text) ==> text@.len() >= STAMP_MIN_LEN,
        stamp matches Ok(text) ==> (wall.unix_seconds() >= 0 ==> is_stamp_form(text@)),
{
    match stamp_seconds(wall) {
        None => Err(StampError::OutOfRange),
        Some(secs) => {
            if !offset_in_range(offset_secs) {
                Err(StampError::BadOffset)
            } else {
                match local_stamp(secs, offset_secs) {
                    Some(text) => Ok(text),
                    None => vstd::pervasive::unreached(),
                }
            }
        },
    }
}

/// The log line of one render cycle, stamped with the date and time of the
/// reading `wall` in the time zone `offset_secs` seconds ahead of UTC.
///
/// Without a target that went unreachable there is no line, and the reading
/// is not looked at. With one, the line reports `names` at the stamp, or
/// the stamp's error is handed on.
pub fn stamped_cycle_entry(wall: WallClock, offset_secs: i32, names: &Vec<String>) -> (entry:
    Result<Option<String>, StampError>)
    ensures
        entry_view(entry) == cycle_entry_of(wall, offset_secs, views_of(names@)),
{
    if names.len() == 0 {
        Ok(None)
    } else {
        match local_timestamp(wall, offset_secs) {
            Ok(stamp) => Ok(Some(unreachable_line(stamp.as_str(), names))),
            Err(error) => Err(error),
        }
    }
}

/// The final block over the last table, stamped with the date and time of
/// the reading `wall` in the time zone `offset_secs` seconds ahead of UTC,
/// or the stamp's error.
pub fn stamped_final_entries(wall: WallClock, offset_secs: i32, last_display: Vec<String>) -> (entries:
    Result<Vec<String>, StampError>)
    ensures
        entries_view(entries) == final_entries_of(wall, offset_secs, views_of(last_display@)),
{
    match local_timestamp(wall, offset_secs) {
        Ok(stamp) => Ok(final_entries(stamp.as_str(), last_display)),
        Err(error) => Err(error),
    }
}

/// Whether the log is still written to.
#[derive(Clone, Copy, Debug, PartialEq, Eq, Structural)]
pub enum LogState {
    /// Lines are written.
    Open,
    /// A write or the opening failed: lines are dropped.
    Disabled,
}

/// What follows one attempt to write a line.
#[derive(Clone, Copy, Debug, PartialEq, Eq, Structural)]
pub struct WriteOutcome {
    /// The state of the log after the attempt.
    pub state: LogState,
    /// Whether to tell the user, once, that logging has ended.
    pub announce: bool,
}

/// The state of the log after a line was to be written in `state`: open
/// only if it was open and the write succeeded.
pub open spec fn state_after(state: LogState, write_ok: bool) -> LogState {
    if state is Open && write_ok {
        LogState::Open
    } else {
        LogState::Disabled
    }
}

/// The state of the log once its file was or was not opened.
pub fn log_opened(ok: bool) -> (state: LogState)
    ensures
        state == if ok {
            LogState::Open
        } else {
            LogState::Disabled
        },
{
    if ok {
        LogState::Open
    } else {
        LogState::Disabled
    }
}

/// Whether a line is to be written in `state`.
pub fn should_write(state: LogState) -> (write: bool)
    ensures
        write == (state is Open),
{
    match state {
        LogState::Open => true,
        LogState::Disabled => false,
    }
}

/// The state after a line was to be written in `state` and the write, if
/// one was made, succeeded or not. The first failed write disables the log
/// for good and is announced; nothing else changes the state.
pub fn after_write(state: LogState, write_ok: bool) -> (outcome: WriteOutcome)
    ensures
        outcome.state == state_after(state, write_ok),
        outcome.announce == (state is Open && !write_ok),
{
    match state {
        LogState::Open => if write_ok {
            WriteOutcome { state: LogState::Open, announce: false }
        } else {
            WriteOutcome { state: LogState::Disabled, announce: true }
        },
        LogState::Disabled => WriteOutcome { state: LogState::Disabled, announce: false },
    }
}

/// A disabled log stays disabled, whatever a later attempt reports, and is
/// not announced again.
pub proof fn lemma_disabled_stays(write_ok: bool)
    ensures
        state_after(LogState::Disabled, write_ok) == LogState::Disabled,
        state_after(LogState::Open, false) == LogState::Disabled,
        state_after(LogState::Open, true) == LogState::Open,
{
}

} // verus!
