use sextant::market_state::{field_value, quote_texts, spread_bps_text, FieldEnd};
use sextant::data_source::decimal_string;
use sextant::research::parse_param;
use sextant::text::{find_text, parse_usize, tagged_word_text, trim_suffixes, white_space};

fn parse_param_f64(description: &str, name: &str, default: f64) -> f64 {
    tagged_word_text(description, name, '=')
        .and_then(|t| t.parse::<f64>().ok())
        .unwrap_or(default)
}

fn parse_spread_bps(state: &str) -> f64 {
    spread_bps_text(state).and_then(|t| t.parse::<f64>().ok()).unwrap_or(0.0)
}

fn parse_momentum(state: &str) -> f64 {
    field_value(state, "momentum:", FieldEnd::SpaceOrBar)
        .and_then(|t| t.parse::<f64>().ok())
        .unwrap_or(0.0)
}

#[test]
fn test_parse_param() {
    assert_eq!(parse_param("window=20", "window", 5), 20);
    assert_eq!(parse_param("window=10 bars", "window", 5), 10);
    assert_eq!(parse_param("no param here", "window", 5), 5);
    assert_eq!(parse_param("fast=5 slow=20", "fast", 3), 5);
    assert_eq!(parse_param("fast=5 slow=20", "slow", 10), 20);
}

#[test]
fn test_parse_param_f64() {
    assert!((parse_param_f64("threshold=1.5", "threshold", 1.0) - 1.5).abs() < 1e-10);
    assert!((parse_param_f64("target_vol=0.02", "target_vol", 0.01) - 0.02).abs() < 1e-10);
    assert!((parse_param_f64("nothing", "threshold", 1.0) - 1.0).abs() < 1e-10);
}

#[test]
fn test_parse_spread_bps() {
    let state = "OrderBook[BTC-USDT] bid:0.1 @ 78650.0 | ask:0.1 @ 78651.0 | mid:78650.50 | spread:1.3bps | momentum:+0.000123 | position:0";
    let spread = parse_spread_bps(state);
    assert!((spread - 1.3).abs() < 0.01);
}

#[test]
fn test_parse_spread_bps_missing() {
    let state = "bid:150.00 | ask:150.05";
    let spread = parse_spread_bps(state);
    assert_eq!(spread, 0.0);
}

#[test]
fn test_parse_momentum() {
    let state = "bid:150.00 | ask:150.05 | spread:0.0500 | vol:50000 | momentum:+0.0035 | regime:65%";
    let m = parse_momentum(state);
    assert!((m - 0.0035).abs() < 1e-6);
}

#[test]
fn test_parse_momentum_negative() {
    let state = "bid:149.00 | ask:149.05 | momentum:-0.0012 | regime:30%";
    let m = parse_momentum(state);
    assert!((m - (-0.0012)).abs() < 1e-6);
}

#[test]
fn test_parse_momentum_missing() {
    let state = "bid:150.00 | ask:150.05";
    let m = parse_momentum(state);
    assert_eq!(m, 0.0);
}

#[test]
fn find_counts_characters_not_bytes() {
    assert_eq!(find_text("héllo wörld", "wö"), Some(6));
    assert_eq!(find_text("abc", ""), Some(0));
    assert_eq!(find_text("", ""), Some(0));
    assert_eq!(find_text("abc", "abcd"), None);
    assert_eq!(find_text("abab", "ab"), Some(0));
    assert_eq!(find_text("xxab", "ab"), Some(2));
}

#[test]
fn unsigned_parsing_follows_std() {
    for s in ["0", "7", "+12", "007", "18446744073709551615", "+", "", "-1", "1a", " 1", "99999999999999999999"] {
        assert_eq!(parse_usize(s), s.parse::<usize>().ok(), "input {:?}", s);
    }
    assert_eq!(parse_usize("+12"), Some(12));
    assert_eq!(parse_usize("+"), None);
}

#[test]
fn whitespace_matches_char_predicate() {
    for c in ['\t', '\n', '\u{b}', '\u{c}', '\r', ' ', '\u{85}', '\u{a0}', '\u{1680}', '\u{2000}', '\u{200a}', '\u{2028}', '\u{2029}', '\u{202f}', '\u{205f}', '\u{3000}', 'a', '\u{8}', '\u{200b}', '\u{feff}', '_'] {
        assert_eq!(white_space(c), c.is_whitespace(), "char {:?}", c);
    }
}

#[test]
fn tagged_words_need_the_whole_prefix_at_a_word_start() {
    assert_eq!(tagged_word_text("xwindow=3 window=4", "window", '='), Some("4"));
    assert_eq!(tagged_word_text("window\t=3 window=", "window", '='), Some(""));
    assert_eq!(tagged_word_text("window=abc", "window", '='), Some("abc"));
    assert_eq!(parse_param("window=abc window=7", "window", 9), 9);
    assert_eq!(parse_param("  window=+8\n", "window", 9), 8);
}

#[test]
fn field_values_end_where_the_format_says() {
    let state = "bid:150.00 | ask:150.05 | momentum:-0.0012|regime:30%";
    assert_eq!(field_value(state, "bid:", FieldEnd::Space), Some("150.00"));
    assert_eq!(field_value(state, "momentum:", FieldEnd::SpaceOrBar), Some("-0.0012"));
    assert_eq!(field_value(state, "momentum:", FieldEnd::Space), Some("-0.0012|regime:30%"));
    assert_eq!(field_value(state, "vol:", FieldEnd::Space), None);
    assert_eq!(field_value("spread:", "spread:", FieldEnd::Space), Some(""));
}

#[test]
fn suffix_trimming_repeats() {
    assert_eq!(trim_suffixes("1.3bpsbps", "bps"), "1.3");
    assert_eq!(trim_suffixes("bps", "bps"), "");
    assert_eq!(trim_suffixes("1.3bp", "bps"), "1.3bp");
    assert_eq!(trim_suffixes("abc", ""), "abc");
    assert_eq!(spread_bps_text("spread:2.5bps|x"), Some("2.5"));
}

#[test]
fn quotes_need_a_leading_bid() {
    assert_eq!(quote_texts("bid:150.00 | ask:150.05"), Some(("150.00", "150.05")));
    assert_eq!(quote_texts("bid:1.5x ask:2"), Some(("1.5", "2")));
    assert_eq!(quote_texts(" bid:150.00 | ask:150.05"), None);
    assert_eq!(quote_texts("bid:150.00"), None);
    let (bid, ask) = quote_texts("bid:100.0 ask:102.0").unwrap();
    let mid = (bid.parse::<f64>().unwrap() + ask.parse::<f64>().unwrap()) / 2.0;
    assert_eq!(mid, 101.0);
}

#[test]
fn decimal_numbers_read_back() {
    for n in [0u64, 7, 10, 99, 100, 12345, u64::MAX] {
        assert_eq!(parse_usize(&decimal_string(n)), Some(n as usize));
    }
    let description = format!("window={}", decimal_string(42));
    assert_eq!(parse_param(&description, "window", 5), 42);
}

#[test]
fn written_fields_read_back() {
    for (value, rest) in [("150.25", " | ask:150.30"), ("-0.0012", "|regime:30%"), ("", " x"), ("7", "")] {
        let state = format!("OrderBook[BTC] momentum:{}{}", value, rest);
        assert_eq!(field_value(&state, "momentum:", FieldEnd::SpaceOrBar), Some(value));
    }
    let state = format!("bid:{} @ 1 | ask:2", "0.1");
    assert_eq!(field_value(&state, "bid:", FieldEnd::Space), Some("0.1"));
}
