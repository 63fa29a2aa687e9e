use ping_plotter::latency::{parse_millis, parse_time, read_token, Amount};

fn millis(latency_us: Option<u64>) -> Option<f64> {
    latency_us.map(|us| us as f64 / 1000.0)
}

#[test]
fn parses_common_time_formats() {
    let samples = [
        ("time=12.34 ms", Some(12.34)),
        ("Zeit=56ms", Some(56.0)),
        ("time<1ms", Some(0.5)),
        ("no time here", None),
    ];
    for (input, expected) in samples {
        let got = millis(parse_time(input.as_bytes()));
        assert_eq!(got, expected, "failed on input {input}");
    }
}

#[test]
fn parse_time_gives_whole_microseconds() {
    assert_eq!(parse_time(b"time=12.34 ms"), Some(12_340));
    assert_eq!(parse_time(b"Zeit=56ms"), Some(56_000));
    assert_eq!(parse_time(b"time<1ms"), Some(500));
    assert_eq!(parse_time(b"no time here"), None);
    assert_eq!(parse_time(b""), None);
    assert_eq!(parse_time(b"   \t\n"), None);
}

#[test]
fn parse_time_reads_a_full_ping_line() {
    let line = b"64 bytes from 1.1.1.1: icmp_seq=1 ttl=57 time=7.89 ms\n";
    assert_eq!(parse_time(line), Some(7_890));
    let reply = b"Antwort von 8.8.8.8: Bytes=32 Zeit=14ms TTL=117\r\n";
    assert_eq!(parse_time(reply), Some(14_000));
    let quick = b"Reply from 127.0.0.1: bytes=32 time<1ms TTL=128";
    assert_eq!(parse_time(quick), Some(500));
}

#[test]
fn parse_time_takes_the_first_token_that_reads() {
    assert_eq!(parse_time(b"time=abc time=3 time=4"), Some(3_000));
    assert_eq!(parse_time(b"time=1e1 time=5"), Some(10_000));
    assert_eq!(parse_time(b"time=-5 time=5"), Some(0));
    assert_eq!(parse_time(b"time=inf time=5"), Some(u64::MAX));
    assert_eq!(parse_time(b"time=nan time=5"), None);
    assert_eq!(parse_time(b"time=e1 time=5"), Some(5_000));
    assert_eq!(parse_time(b"time< time<0.5"), Some(250));
    assert_eq!(parse_time(b"xtime=3 TIME=9.5MS"), Some(9_500));
}

#[test]
fn parse_time_is_case_blind_and_drops_every_ms() {
    assert_eq!(parse_time(b"TiMe=2.5MsmS"), Some(2_500));
    assert_eq!(parse_time(b"ZEIT<0.4ms"), Some(200));
    assert_eq!(parse_time(b"time=ms"), None);
}

#[test]
fn below_marks_read_as_half_of_at_most_a_millisecond() {
    assert_eq!(read_token(b"time<1ms"), Some(Some(500)));
    assert_eq!(read_token(b"time<10ms"), Some(Some(500)));
    assert_eq!(read_token(b"time<0.5ms"), Some(Some(250)));
    assert_eq!(read_token(b"time<0.001"), Some(Some(0)));
    assert_eq!(read_token(b"time<99999999999999999999999999"), Some(Some(500)));
    assert_eq!(read_token(b"time=<1ms"), Some(Some(500)));
    assert_eq!(read_token(b"zeit=<"), Some(Some(500)));
    assert_eq!(read_token(b"time<x"), None);
}

#[test]
fn read_token_wants_a_label() {
    assert_eq!(read_token(b"time"), None);
    assert_eq!(read_token(b"time:5"), None);
    assert_eq!(read_token(b"temps=5"), None);
    assert_eq!(read_token(b"=5"), None);
    assert_eq!(read_token(b"zeit=5"), Some(Some(5_000)));
}

#[test]
fn parse_millis_follows_the_decimal_grammar() {
    assert_eq!(parse_millis(b"0"), Some(Amount::Micros(0)));
    assert_eq!(parse_millis(b"12"), Some(Amount::Micros(12_000)));
    assert_eq!(parse_millis(b"+12"), Some(Amount::Micros(12_000)));
    assert_eq!(parse_millis(b"12."), Some(Amount::Micros(12_000)));
    assert_eq!(parse_millis(b".5"), Some(Amount::Micros(500)));
    assert_eq!(parse_millis(b"+.5"), Some(Amount::Micros(500)));
    assert_eq!(parse_millis(b"0.045"), Some(Amount::Micros(45)));
    assert_eq!(parse_millis(b"1.2345678"), Some(Amount::Micros(1_234)));
    assert_eq!(parse_millis(b"007.5"), Some(Amount::Micros(7_500)));
    assert_eq!(parse_millis(b""), None);
    assert_eq!(parse_millis(b"."), None);
    assert_eq!(parse_millis(b"+"), None);
    assert_eq!(parse_millis(b"+."), None);
    assert_eq!(parse_millis(b"-"), None);
    assert_eq!(parse_millis(b"1e"), None);
    assert_eq!(parse_millis(b"1.2.3"), None);
    assert_eq!(parse_millis(b"1,5"), None);
    assert_eq!(parse_millis(b"1.5x"), None);
    assert_eq!(parse_millis(b"++1"), None);
}

#[test]
fn parse_millis_holds_huge_values_at_the_greatest() {
    assert_eq!(parse_millis(b"18446744073709551"), Some(Amount::Micros(18_446_744_073_709_551_000)));
    assert_eq!(parse_millis(b"18446744073709551.615"), Some(Amount::Micros(u64::MAX)));
    assert_eq!(parse_millis(b"18446744073709551.616"), Some(Amount::Micros(u64::MAX)));
    assert_eq!(parse_millis(b"18446744073709552"), Some(Amount::Micros(u64::MAX)));
    assert_eq!(parse_millis(b"99999999999999999999999999999.9"), Some(Amount::Micros(u64::MAX)));
    assert_eq!(parse_time(b"time=99999999999999999999999999999ms"), Some(u64::MAX));
}

#[test]
fn every_unicode_whitespace_parts_tokens() {
    let spaces = [
        '\u{9}', '\u{a}', '\u{b}', '\u{c}', '\u{d}', '\u{20}', '\u{85}', '\u{a0}', '\u{1680}',
        '\u{2000}', '\u{2001}', '\u{2002}', '\u{2003}', '\u{2004}', '\u{2005}', '\u{2006}',
        '\u{2007}', '\u{2008}', '\u{2009}', '\u{200a}', '\u{2028}', '\u{2029}', '\u{202f}',
        '\u{205f}', '\u{3000}',
    ];
    for space in spaces {
        assert!(space.is_whitespace());
        let text = format!("x{}time=5ms", space);
        assert_eq!(parse_time(text.as_bytes()), Some(5_000), "space {:?}", space);
        let tail = format!("time=7{}ms", space);
        assert_eq!(parse_time(tail.as_bytes()), Some(7_000), "space {:?}", space);
        let only = format!("{}{}", space, space);
        assert_eq!(parse_time(only.as_bytes()), None, "space {:?}", space);
    }
    assert_eq!(parse_time(b"x\xc2\xa0time=5ms"), Some(5_000));
}

#[test]
fn other_characters_part_nothing() {
    for other in ['\u{200b}', '\u{feff}', '\u{2060}', '\u{180e}', '\u{84}', '\u{a1}', '\u{200c}', 'é'] {
        assert!(!other.is_whitespace());
        let text = format!("x{}time=5ms", other);
        assert_eq!(parse_time(text.as_bytes()), None, "character {:?}", other);
    }
}

#[test]
fn splitting_agrees_with_lossy_decoding() {
    let samples: [&[u8]; 14] = [
        b"64 bytes from 1.1.1.1: time=7.89 ms",
        b"x\xc2\xa0time=5ms",
        b"x\xe2\x80\x83time=5ms y",
        b"\xe2\x80time=5ms time=6",
        b"\xe2\x80\xc2\xa0time=5ms",
        b"\xe2\xc2\x85time=4",
        b"\xf0\x9f\x98\x80 time=3",
        b"\xf0\xe1\x9a\x80time=2",
        b"time=1\xe2\x80",
        b"time=1\xff time=2",
        b"\xfftime=1 time=2",
        b"time=5\xc2",
        b"\xc2\x85",
        b"\xe3\x80\x80zeit<1\xe3\x80\x80",
    ];
    for bytes in samples {
        let text = String::from_utf8_lossy(bytes);
        let expected = text.split_whitespace().find_map(|token| read_token(token.as_bytes())).flatten();
        assert_eq!(parse_time(bytes), expected, "bytes {:?}", bytes);
    }
    assert_eq!(parse_time(b"\xe2\x80\xc2\xa0time=5ms"), Some(5_000));
    assert_eq!(parse_time(b"time=1\xff time=2"), Some(2_000));
    assert_eq!(parse_time(b"time=5\xc2"), None);
}

fn amount(text: &str) -> Option<Amount> {
    parse_millis(text.as_bytes())
}

#[test]
fn exponents_move_the_point() {
    assert_eq!(amount("1e1"), Some(Amount::Micros(10_000)));
    assert_eq!(amount("1e3"), Some(Amount::Micros(1_000_000)));
    assert_eq!(amount("1.5e3"), Some(Amount::Micros(1_500_000)));
    assert_eq!(amount("1.5e+3"), Some(Amount::Micros(1_500_000)));
    assert_eq!(amount("12.34e0"), Some(Amount::Micros(12_340)));
    assert_eq!(amount("12.34e-0"), Some(Amount::Micros(12_340)));
    assert_eq!(amount("1e-3"), Some(Amount::Micros(1)));
    assert_eq!(amount("1e-4"), Some(Amount::Micros(0)));
    assert_eq!(amount("9.9999e-4"), Some(Amount::Micros(0)));
    assert_eq!(amount("1234e-5"), Some(Amount::Micros(12)));
    assert_eq!(amount("1234.5678e-2"), Some(Amount::Micros(12_345)));
    assert_eq!(amount("0.000123e5"), Some(Amount::Micros(12_300)));
    assert_eq!(amount(".5e1"), Some(Amount::Micros(5_000)));
    assert_eq!(amount("5.e1"), Some(Amount::Micros(50_000)));
    assert_eq!(amount("0e99999999999999999999999999999999999"), Some(Amount::Micros(0)));
    assert_eq!(amount("0.000e40"), Some(Amount::Micros(0)));
    assert_eq!(amount("1e-99999999999999999999999999999999999"), Some(Amount::Micros(0)));
    assert_eq!(amount("1e16"), Some(Amount::Micros(10_000_000_000_000_000_000)));
    assert_eq!(amount("1.8446744073709551615e16"), Some(Amount::Micros(u64::MAX)));
    assert_eq!(amount("1.8446744073709551614e16"), Some(Amount::Micros(u64::MAX - 1)));
    assert_eq!(amount("1e17"), Some(Amount::Micros(u64::MAX)));
    assert_eq!(amount("1e40"), Some(Amount::Micros(u64::MAX)));
    assert_eq!(amount("0.0000000000000000000001e40"), Some(Amount::Micros(u64::MAX)));
    assert_eq!(amount("0.0000000000000000000001e22"), Some(Amount::Micros(1_000)));
    assert_eq!(amount("1e99999999999999999999999999999999999"), Some(Amount::Micros(u64::MAX)));
    assert_eq!(amount("100000000000000000000000000000e-26"), Some(Amount::Micros(1_000_000)));
}

#[test]
fn signs_and_words() {
    assert_eq!(amount("-5"), Some(Amount::Micros(0)));
    assert_eq!(amount("-0"), Some(Amount::Micros(0)));
    assert_eq!(amount("-0.0001"), Some(Amount::Micros(0)));
    assert_eq!(amount("-1e40"), Some(Amount::Micros(0)));
    assert_eq!(amount("+5"), Some(Amount::Micros(5_000)));
    assert_eq!(amount("inf"), Some(Amount::Micros(u64::MAX)));
    assert_eq!(amount("+inf"), Some(Amount::Micros(u64::MAX)));
    assert_eq!(amount("infinity"), Some(Amount::Micros(u64::MAX)));
    assert_eq!(amount("-inf"), Some(Amount::Micros(0)));
    assert_eq!(amount("-infinity"), Some(Amount::Micros(0)));
    assert_eq!(amount("nan"), Some(Amount::NotANumber));
    assert_eq!(amount("+nan"), Some(Amount::NotANumber));
    assert_eq!(amount("-nan"), Some(Amount::NotANumber));
    for text in ["", "+", "-", "+-1", "--1", "in", "infi", "infinit", "infinityy", "na", "nann", "1inf", "e", "e5", ".e5", "1e", "1e+", "1e-", "1e+-1", "1e1.5", "1e1e1", "1 e1", "1_000", "0x10", "1f", "1.2.3", "..1"] {
        assert_eq!(amount(text), None, "text {:?}", text);
    }
}

#[test]
fn grammar_is_that_of_float_parsing() {
    let texts = [
        "0", "5", "+5", "-5", "5.", ".5", "+.5", "-.5", "5.5", "05.50", ".", "+", "-", "", "1e1", "1E1",
        "1e+1", "1e-1", "1e", "1e+", "e1", ".e1", "1.e1", ".1e1", "1e1.0", "1e01", "1e-01", "inf",
        "+inf", "-inf", "infinity", "-infinity", "Infinity", "INF", "nan", "NaN", "+nan", "-nan",
        "infinit", "nana", "1 ", " 1", "1,5", "1_0", "0x1", "1f32", "++1", "1e1e1", "١", "1..", "..1",
        "1.2.3", "-e1", "+e", "1e400", "1e-400", "123456789012345678901234567890",
    ];
    for text in texts {
        let lowered = text.to_ascii_lowercase();
        let by_float = lowered.parse::<f64>();
        let ours = amount(&lowered);
        assert_eq!(ours.is_some(), by_float.is_ok(), "text {:?}", text);
        if let Ok(value) = by_float {
            let nan = ours == Some(Amount::NotANumber);
            assert_eq!(nan, value.is_nan(), "text {:?}", text);
            if value < 0.0 || value == 0.0 {
                assert_eq!(ours, Some(Amount::Micros(0)), "text {:?}", text);
            }
            if value.is_infinite() && value > 0.0 {
                assert_eq!(ours, Some(Amount::Micros(u64::MAX)), "text {:?}", text);
            }
        }
    }
}

#[test]
fn values_agree_with_float_parsing_where_both_are_exact() {
    for text in ["12.34", "56", "7.89", "1e1", "2.5e2", "125e-3", "0.5", "1e-3", "3e3", "4.096e3", "1e9"] {
        let value: f64 = text.parse().unwrap();
        let expected = (value * 1000.0).round() as u64;
        assert_eq!(amount(text), Some(Amount::Micros(expected)), "text {:?}", text);
    }
}

#[test]
fn tokens_with_signs_words_and_exponents() {
    assert_eq!(read_token(b"time=1e1ms"), Some(Some(10_000)));
    assert_eq!(read_token(b"TIME=1E1MS"), Some(Some(10_000)));
    assert_eq!(read_token(b"time=-5"), Some(Some(0)));
    assert_eq!(read_token(b"time=inf"), Some(Some(u64::MAX)));
    assert_eq!(read_token(b"time=nan"), Some(None));
    assert_eq!(read_token(b"time=NaNms"), Some(None));
    assert_eq!(read_token(b"time<nan"), Some(Some(500)));
    assert_eq!(read_token(b"time<inf"), Some(Some(500)));
    assert_eq!(read_token(b"time<-inf"), Some(Some(0)));
    assert_eq!(read_token(b"time<-3"), Some(Some(0)));
    assert_eq!(read_token(b"time<5e-1"), Some(Some(250)));
    assert_eq!(read_token(b"time<1e3"), Some(Some(500)));
    assert_eq!(read_token(b"time=e1"), None);
    assert_eq!(read_token(b"zeit=1e"), None);
}
