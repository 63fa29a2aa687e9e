//! The list of targets, read out of the text of the input file.
//!
//! Each line holds one target. Whitespace around it is dropped, and a line
//! that holds nothing else is passed over. A list without any target is a
//! configuration error, as is a file that is missing or cannot be read.

use vstd::prelude::*;
use vstd::string::*;
use crate::text::views_of;

verus! {

/// The code point of the line feed.
pub const LINE_FEED: u32 = 0x0a;

/// What reading the input file gave.
#[derive(Debug)]
pub enum FileRead {
    /// There is no file at the path.
    Missing,
    /// The file is there and could not be read as text.
    Unreadable,
    /// The text of the file.
    Content(String),
}

/// Why the run cannot start.
#[derive(Clone, Copy, Debug, PartialEq, Eq, Structural)]
pub enum ConfigError {
    /// The input file does not exist.
    FileNotFound,
    /// The input file could not be read.
    FileUnreadable,
    /// The input file names no target.
    NoTargets,
}

/// What the user is told about `error`, for the input file at `path`.
pub open spec fn error_text(error: ConfigError, path: Seq<char>) -> Seq<char> {
    match error {
        ConfigError::FileNotFound => "IP list file not found: "@ + path
            + " (default is ips.txt next to executable)"@,
        ConfigError::FileUnreadable => "Failed to read IP list file: "@ + path,
        ConfigError::NoTargets => "No IPs found in "@ + path,
    }
}

/// Whether `c` is whitespace: a character with the Unicode property
/// White_Space.
pub open spec fn is_whitespace(c: char) -> bool {
    let v = c as u32;
    ||| (0x09 <= v && v <= 0x0d)
    ||| v == 0x20
    ||| v == 0x85
    ||| v == 0xa0
    ||| v == 0x1680
    ||| (0x2000 <= v && v <= 0x200a)
    ||| v == 0x2028
    ||| v == 0x2029
    ||| v == 0x202f
    ||| v == 0x205f
    ||| v == 0x3000
}

/// Whether `c` ends a line.
pub open spec fn is_line_end(c: char) -> bool {
    c as u32 == LINE_FEED
}

/// Length of the leading run of characters of `s` that do not end a line.
pub open spec fn line_len(s: Seq<char>) -> nat
    decreases s.len(),
{
    if s.len() == 0 || is_line_end(s[0]) {
        0
    } else {
        1 + line_len(s.skip(1))
    }
}

/// Number of whitespace characters at the head of `s`.
pub open spec fn leading_space(s: Seq<char>) -> nat
    decreases s.len(),
{
    if s.len() == 0 || !is_whitespace(s[0]) {
        0
    } else {
        1 + leading_space(s.skip(1))
    }
}

/// Number of whitespace characters at the end of `s`.
pub open spec fn trailing_space(s: Seq<char>) -> nat
    decreases s.len(),
{
    if s.len() == 0 || !is_whitespace(s.last()) {
        0
    } else {
        1 + trailing_space(s.drop_last())
    }
}

/// `s` without the whitespace at its head and at its end.
pub open spec fn trimmed(s: Seq<char>) -> Seq<char> {
    let from = leading_space(s) as int;
    if from == s.len() {
        Seq::empty()
    } else {
        s.subrange(from, s.len() - trailing_space(s))
    }
}

/// The targets that the text `s` names: its lines, trimmed, without the
/// empty ones, in order.
pub open spec fn targets_in(s: Seq<char>) -> Seq<Seq<char>>
    decreases s.len(),
    via targets_in_decreases
{
    let n = line_len(s) as int;
    let head = trimmed(s.take(n));
    let here = if head.len() > 0 {
        seq![head]
    } else {
        Seq::empty()
    };
    if n >= s.len() {
        here
    } else {
        here + targets_in(s.skip(n + 1))
    }
}

#[via_fn]
proof fn targets_in_decreases(s: Seq<char>) {
    lemma_line_len_bound(s);
}

/// A line is no longer than the text it starts.
pub proof fn lemma_line_len_bound(s: Seq<char>)
    ensures
        line_len(s) <= s.len(),
    decreases s.len(),
{
    if s.len() > 0 && !is_line_end(s[0]) {
        lemma_line_len_bound(s.skip(1));
    }
}

/// The line at the head of `s` has length `k` when none of its first `k`
/// characters ends a line and the text ends or a line ends after them.
pub proof fn lemma_line_len_is(s: Seq<char>, k: int)
    requires
        0 <= k <= s.len(),
        forall|i: int| 0 <= i < k ==> !is_line_end(#[trigger] s[i]),
        k == s.len() || is_line_end(s[k]),
    ensures
        line_len(s) == k,
    decreases k,
{
    if k > 0 {
        let t = s.skip(1);
        assert forall|i: int| 0 <= i < k - 1 implies !is_line_end(#[trigger] t[i]) by {
            assert(t[i] == s[i + 1]);
        }
        lemma_line_len_is(t, k - 1);
    }
}

/// `s` starts with `k` whitespace characters and no more.
pub proof fn lemma_leading_space_is(s: Seq<char>, k: int)
    requires
        0 <= k <= s.len(),
        forall|i: int| 0 <= i < k ==> is_whitespace(#[trigger] s[i]),
        k == s.len() || !is_whitespace(s[k]),
    ensures
        leading_space(s) == k,
    decreases k,
{
    if k > 0 {
        let t = s.skip(1);
        assert forall|i: int| 0 <= i < k - 1 implies is_whitespace(#[trigger] t[i]) by {
            assert(t[i] == s[i + 1]);
        }
        lemma_leading_space_is(t, k - 1);
    }
}

/// `s` ends with `k` whitespace characters and no more.
pub proof fn lemma_trailing_space_is(s: Seq<char>, k: int)
    requires
        0 <= k <= s.len(),
        forall|i: int| s.len() - k <= i < s.len() ==> is_whitespace(#[trigger] s[i]),
        k == s.len() || !is_whitespace(s[s.len() - k - 1]),
    ensures
        trailing_space(s) == k,
    decreases k,
{
    if k > 0 {
        let t = s.drop_last();
        assert forall|i: int| t.len() - (k - 1) <= i < t.len() implies is_whitespace(
            #[trigger] t[i],
        ) by {
            assert(t[i] == s[i]);
        }
        lemma_trailing_space_is(t, k - 1);
    }
}

fn char_is_whitespace(c: char) -> (r: bool)
    ensures
        r == is_whitespace(c),
{
    let v: u32 = c as u32;
    (0x09 <= v && v <= 0x0d) || v == 0x20 || v == 0x85 || v == 0xa0 || v == 0x1680 || (0x2000 <= v
        && v <= 0x200a) || v == 0x2028 || v == 0x2029 || v == 0x202f || v == 0x205f || v == 0x3000
}

fn char_is_line_end(c: char) -> (r: bool)
    ensures
        r == is_line_end(c),
{
    c as u32 == LINE_FEED
}

/// The characters of `s`.
fn chars_of(s: &str) -> (chars: Vec<char>)
    ensures
        chars@ == s@,
{
    broadcast use vstd::string::group_string_axioms;

    let mut chars: Vec<char> = Vec::new();
    for c in it: s.chars()
        invariant
            it.seq() == s@,
            chars@ == it.seq().take(it.index() as int),
    {
        chars.push(c);
        assert(it.seq().take(it.index() + 1) == it.seq().take(it.index() as int).push(c));
    }
    assert(s@.take(s@.len() as int) == s@);
    chars
}

/// The bounds of the trimmed part of the characters from `from` up to `to`.
fn trim_bounds(chars: &Vec<char>, from: usize, to: usize) -> (bounds: (usize, usize))
    requires
        from <= to <= chars@.len(),
    ensures
        from <= bounds.0 <= bounds.1 <= to,
        chars@.subrange(bounds.0 as int, bounds.1 as int) == trimmed(
            chars@.subrange(from as int, to as int),
        ),
{
    let ghost line = chars@.subrange(from as int, to as int);
    let mut start: usize = from;
    while start < to && char_is_whitespace(chars[start])
        invariant
            from <= start <= to,
            to <= chars@.len(),
            forall|i: int| from <= i < start ==> is_whitespace(#[trigger] chars@[i]),
        decreases to - start,
    {
        start += 1;
    }
    proof {
        assert forall|i: int| 0 <= i < start - from implies is_whitespace(#[trigger] line[i]) by {
            assert(line[i] == chars@[from + i]);
        }
        lemma_leading_space_is(line, start - from);
    }
    if start == to {
        assert(chars@.subrange(start as int, start as int) =~= Seq::<char>::empty());
        return (start, start);
    }
    let mut end: usize = to;
    while end > start && char_is_whitespace(chars[end - 1])
        invariant
            start <= end <= to,
            start < to,
            to <= chars@.len(),
            !is_whitespace(chars@[start as int]),
            forall|i: int| end <= i < to ==> is_whitespace(#[trigger] chars@[i]),
        decreases end - start,
    {
        end -= 1;
    }
    proof {
        assert(end > start);
        assert forall|i: int| line.len() - (to - end) <= i < line.len() implies is_whitespace(
            #[trigger] line[i],
        ) by {
            assert(line[i] == chars@[from + i]);
        }
        assert(line[line.len() - (to - end) - 1] == chars@[end - 1]);
        lemma_trailing_space_is(line, to - end);
        assert(chars@.subrange(start as int, end as int) =~= line.subrange(
            start - from,
            line.len() - (to - end),
        ));
    }
    (start, end)
}

/// The targets that the text of an input file names: one per line, without
/// the whitespace around it; lines that hold nothing else are passed over.
pub fn parse_targets(content: &str) -> (targets: Vec<String>)
    ensures
        views_of(targets@) == targets_in(content@),
{
    let chars = chars_of(content);
    let len: usize = chars.len();
    let mut targets: Vec<String> = Vec::new();
    let mut pos: usize = 0;
    let mut done: bool = false;
    assert(chars@.skip(0) =~= chars@);
    while !done
        invariant
            pos <= len,
            len == chars@.len(),
            chars@ == content@,
            !done ==> targets_in(chars@) == views_of(targets@) + targets_in(
                chars@.skip(pos as int),
            ),
            done ==> targets_in(chars@) == views_of(targets@),
        decreases len - pos + if done {
            0int
        } else {
            1int
        },
    {
        let ghost tail = chars@.skip(pos as int);
        let ghost listed = views_of(targets@);
        let mut end: usize = pos;
        while end < len && !char_is_line_end(chars[end])
            invariant
                pos <= end <= len,
                len == chars@.len(),
                forall|i: int| pos <= i < end ==> !is_line_end(#[trigger] chars@[i]),
            decreases len - end,
        {
            end += 1;
        }
        proof {
            assert forall|i: int| 0 <= i < end - pos implies !is_line_end(#[trigger] tail[i]) by {
                assert(tail[i] == chars@[pos + i]);
            }
            if end < len {
                assert(tail[end - pos] == chars@[end as int]);
            }
            lemma_line_len_is(tail, end - pos);
            assert(tail.take(end - pos) =~= chars@.subrange(pos as int, end as int));
        }
        let (start, stop) = trim_bounds(&chars, pos, end);
        if start < stop {
            let name = content.substring_char(start, stop).to_owned();
            targets.push(name);
            assert(views_of(targets@) =~= listed + seq![
                trimmed(chars@.subrange(pos as int, end as int)),
            ]);
        } else {
            assert(trimmed(chars@.subrange(pos as int, end as int)).len() == 0);
        }
        if end >= len {
            done = true;
            assert(views_of(targets@) =~= listed + targets_in(tail));
        } else {
            assert(tail.skip(end - pos + 1) =~= chars@.skip(end + 1));
            assert(views_of(targets@) + targets_in(chars@.skip(end + 1)) =~= listed + targets_in(
                tail,
            ));
            pos = end + 1;
        }
    }
    targets
}

/// The targets of a run, from what reading the input file gave.
///
/// A missing or unreadable file and a file that names no target are
/// errors; any other file gives its targets.
pub fn load_targets(file: &FileRead) -> (loaded: Result<Vec<String>, ConfigError>)
    ensures
        match *file {
            FileRead::Missing => loaded == Err::<Vec<String>, ConfigError>(
                ConfigError::FileNotFound,
            ),
            FileRead::Unreadable => loaded == Err::<Vec<String>, ConfigError>(
                ConfigError::FileUnreadable,
            ),
            FileRead::Content(text) => if targets_in(text@).len() == 0 {
                loaded == Err::<Vec<String>, ConfigError>(ConfigError::NoTargets)
            } else {
                loaded is Ok && views_of(loaded->Ok_0@) == targets_in(text@)
            },
        },
{
    match file {
        FileRead::Missing => Err(ConfigError::FileNotFound),
        FileRead::Unreadable => Err(ConfigError::FileUnreadable),
        FileRead::Content(text) => {
            let targets = parse_targets(text.as_str());
            if targets.len() == 0 {
                Err(ConfigError::NoTargets)
            } else {
                Ok(targets)
            }
        },
    }
}

/// What the user is told about `error`, for the input file at `path`.
pub fn describe(error: ConfigError, path: &str) -> (text: String)
    ensures
        text@ == error_text(error, path@),
{
    let mut text = String::new();
    match error {
        ConfigError::FileNotFound => {
            text.append("IP list file not found: ");
            text.append(path);
            text.append(" (default is ips.txt next to executable)");
        },
        ConfigError::FileUnreadable => {
            text.append("Failed to read IP list file: ");
            text.append(path);
        },
        ConfigError::NoTargets => {
            text.append("No IPs found in ");
            text.append(path);
        },
    }
    assert(text@ =~= error_text(error, path@));
    text
}

} // verus!
