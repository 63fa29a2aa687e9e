//! Building the text of table rows and log lines: decimal numbers, latencies
//! with two decimal places, and padding to a column width.

use vstd::prelude::*;
use vstd::string::*;

verus! {

/// The texts of `strings`, as character sequences.
pub open spec fn views_of(strings: Seq<String>) -> Seq<Seq<char>> {
    Seq::new(strings.len(), |i: int| strings[i]@)
}

/// The character that writes the digit `d`.
pub open spec fn digit_char(d: int) -> char {
    if d == 0 {
        '0'
    } else if d == 1 {
        '1'
    } else if d == 2 {
        '2'
    } else if d == 3 {
        '3'
    } else if d == 4 {
        '4'
    } else if d == 5 {
        '5'
    } else if d == 6 {
        '6'
    } else if d == 7 {
        '7'
    } else if d == 8 {
        '8'
    } else {
        '9'
    }
}

/// `n` in base ten, without leading zeros.
pub open spec fn decimal(n: nat) -> Seq<char>
    decreases n,
{
    if n < 10 {
        seq![digit_char(n as int)]
    } else {
        decimal(n / 10).push(digit_char((n % 10) as int))
    }
}

/// `n` spaces.
pub open spec fn spaces(n: int) -> Seq<char> {
    Seq::new(
        if n > 0 {
            n as nat
        } else {
            0
        },
        |i: int| ' ',
    )
}

/// `text` followed by spaces up to `width` characters; unchanged if it is
/// that wide already.
pub open spec fn pad_right(text: Seq<char>, width: int) -> Seq<char> {
    text + spaces(width - text.len())
}

/// `text` after spaces up to `width` characters; unchanged if it is that
/// wide already.
pub open spec fn pad_left(text: Seq<char>, width: int) -> Seq<char> {
    spaces(width - text.len()) + text
}

/// `us` microseconds in hundredths of a millisecond, halves rounded up.
pub open spec fn hundredths(us: nat) -> nat {
    (us + 5) / 10
}

/// `us` microseconds as milliseconds with two decimal places.
pub open spec fn two_decimals(us: nat) -> Seq<char> {
    let h = hundredths(us);
    decimal(h / 100).push('.').push(digit_char(((h / 10) % 10) as int)).push(
        digit_char((h % 10) as int),
    )
}

/// A latency for display: two decimal places, or `-` when there is none.
pub open spec fn latency_text(latency_us: Option<nat>) -> Seq<char> {
    match latency_us {
        Some(us) => two_decimals(us),
        None => seq!['-'],
    }
}

/// The text of one digit.
fn digit_str(d: u64) -> (s: &'static str)
    requires
        d < 10,
    ensures
        s@ == seq![digit_char(d as int)],
{
    proof {
        reveal_strlit("0");
        reveal_strlit("1");
        reveal_strlit("2");
        reveal_strlit("3");
        reveal_strlit("4");
        reveal_strlit("5");
        reveal_strlit("6");
        reveal_strlit("7");
        reveal_strlit("8");
        reveal_strlit("9");
    }
    let s = if d == 0 {
        "0"
    } else if d == 1 {
        "1"
    } else if d == 2 {
        "2"
    } else if d == 3 {
        "3"
    } else if d == 4 {
        "4"
    } else if d == 5 {
        "5"
    } else if d == 6 {
        "6"
    } else if d == 7 {
        "7"
    } else if d == 8 {
        "8"
    } else {
        "9"
    };
    assert(s@ =~= seq![digit_char(d as int)]);
    s
}

/// Appends `n` in base ten.
pub fn append_decimal(out: &mut String, n: u64)
    ensures
        final(out)@ == old(out)@ + decimal(n as nat),
    decreases n,
{
    if n >= 10 {
        append_decimal(out, n / 10);
    }
    out.append(digit_str(n % 10));
    assert(final(out)@ =~= old(out)@ + decimal(n as nat));
}

/// Appends `n` spaces.
pub fn append_spaces(out: &mut String, n: usize)
    ensures
        final(out)@ == old(out)@ + spaces(n as int),
{
    proof {
        reveal_strlit(" ");
    }
    let mut i: usize = 0;
    while i < n
        invariant
            i <= n,
            out@ == old(out)@ + spaces(i as int),
            " "@ == seq![' '],
        decreases n - i,
    {
        out.append(" ");
        i += 1;
        assert(out@ =~= old(out)@ + spaces(i as int));
    }
    assert(" "@ =~= seq![' ']);
}

/// Appends `text`, padded on the right to `width` characters.
pub fn append_padded_right(out: &mut String, text: &str, width: usize)
    ensures
        final(out)@ == old(out)@ + pad_right(text@, width as int),
{
    let len: usize = text.unicode_len();
    out.append(text);
    if len < width {
        append_spaces(out, width - len);
    }
    assert(final(out)@ =~= old(out)@ + pad_right(text@, width as int));
}

/// Appends `text`, padded on the left to `width` characters.
pub fn append_padded_left(out: &mut String, text: &str, width: usize)
    ensures
        final(out)@ == old(out)@ + pad_left(text@, width as int),
{
    let len: usize = text.unicode_len();
    if len < width {
        append_spaces(out, width - len);
    }
    out.append(text);
    assert(final(out)@ =~= old(out)@ + pad_left(text@, width as int));
}

/// A latency for display: milliseconds with two decimal places, halves
/// rounded up, or `-` when there is none.
pub fn format_latency(latency_us: Option<u64>) -> (text: String)
    ensures
        text@ == latency_text(crate::stats::lift(latency_us)),
{
    let mut text = String::new();
    match latency_us {
        Some(us) => {
            let h: u64 = us / 10 + if us % 10 >= 5 {
                1
            } else {
                0
            };
            assert(h == hundredths(us as nat));
            append_decimal(&mut text, h / 100);
            text.append(".");
            text.append(digit_str((h / 10) % 10));
            text.append(digit_str(h % 10));
            proof {
                reveal_strlit(".");
                assert("."@ =~= seq!['.']);
                assert(text@ =~= two_decimals(us as nat));
            }
        },
        None => {
            text.append("-");
            proof {
                reveal_strlit("-");
                assert(text@ =~= seq!['-']);
            }
        },
    }
    text
}

} // verus!
