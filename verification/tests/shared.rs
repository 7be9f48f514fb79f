use rest_services::clock::{cache_ttl_at, expires_at, has_expired, now_unix, to_signed, unix_seconds};
use rest_services::counter::bump;
use rest_services::text;
use rest_services::token;
use rest_services::token::TokenError;

#[test]
fn white_space_is_what_the_language_says_it_is() {
    for c in (0..=0x10_ffffu32).filter_map(char::from_u32) {
        assert_eq!(text::whitespace(c), c.is_whitespace(), "{c:?}");
        assert_eq!(text::lower_char(c), c.to_ascii_lowercase(), "{c:?}");
        assert_eq!(text::alphanumeric(c), c.is_ascii_alphanumeric(), "{c:?}");
    }
}

#[test]
fn trims_as_the_language_does() {
    for s in ["", " ", "a", "  a b ", "\u{3000}x\u{85}", "\u{200b}x "] {
        let chars: Vec<char> = s.chars().collect();
        let trimmed: String = text::trim_chars(&chars).iter().collect();
        assert_eq!(trimmed, s.trim());
    }
}

#[test]
fn reads_decimals_as_the_language_does() {
    for s in ["", "+", "-0", "0", "+7", "007", "18446744073709551615", "18446744073709551616", "1_0", "१"] {
        let chars: Vec<char> = s.chars().collect();
        assert_eq!(text::parse_decimal(&chars, u64::MAX), s.parse::<u64>().ok(), "{s}");
        assert_eq!(
            text::parse_decimal(&chars, u32::MAX as u64),
            s.parse::<u32>().ok().map(u64::from),
            "{s}"
        );
    }
}

#[test]
fn writes_decimals() {
    for n in [0, 9, 10, 12_345, u64::MAX] {
        let mut s = String::from("n=");
        text::push_decimal(&mut s, n);
        assert_eq!(s, format!("n={n}"));
        let chars: Vec<char> = s[2..].chars().collect();
        assert_eq!(text::parse_decimal(&chars, u64::MAX), Some(n));
    }
}

#[test]
fn splits_at_every_separator() {
    let chars: Vec<char> = "a,,b,".chars().collect();
    let pieces = text::split_chars(&chars, &[',']);
    let pieces: Vec<String> = pieces.iter().map(|p| p.iter().collect()).collect();
    assert_eq!(pieces, ["a", "", "b", ""]);
    assert_eq!(text::find_chars(&chars, &[',', 'b']), Some(2));
    assert_eq!(text::find_chars(&chars, &['c']), None);
}

#[test]
fn tokens_are_checked() {
    assert_eq!(token::check("aZ09"), Ok(()));
    assert_eq!(token::check(""), Err(TokenError::Length));
    assert_eq!(token::check(&"x".repeat(33)), Err(TokenError::Length));
    assert_eq!(token::check("a b"), Err(TokenError::Charset));
}

#[test]
fn draws_spell_base_62() {
    let all: Vec<usize> = (0..62).collect();
    assert_eq!(
        token::spell(&all),
        "ABCDEFGHIJKLMNOPQRSTUVWXYZabcdefghijklmnopqrstuvwxyz0123456789"
    );
    let random = token::generate(64);
    assert_eq!(random.len(), 64);
    assert!(random.chars().all(|c| c.is_ascii_alphanumeric()));
    // Sixty-four random digits are not all the same.
    assert!(random.chars().any(|c| c != random.chars().next().unwrap()));
}

#[test]
fn times_and_expiries() {
    assert_eq!(to_signed(5), 5);
    assert_eq!(to_signed(u64::MAX), -1);
    assert_eq!(to_signed(1 << 63), i64::MIN);
    assert_eq!(unix_seconds(Some(1_700_000_000)), 1_700_000_000);
    assert_eq!(unix_seconds(None), 0);
    assert!(now_unix() > 1_700_000_000);
    assert_eq!(expires_at(100, None), None);
    assert_eq!(expires_at(100, Some(0)), Some(100));
    assert_eq!(expires_at(i64::MAX, Some(1)), Some(i64::MAX));
    assert_eq!(expires_at(i64::MIN, Some(u64::MAX)), Some(i64::MAX));
    assert_eq!(expires_at(0, Some(u64::MAX)), Some(i64::MAX));
    assert_eq!(expires_at(-5, Some(i64::MAX as u64 + 1)), Some(i64::MAX - 4));
    assert!(has_expired(Some(100), 100));
    assert!(!has_expired(Some(100), 99));
    assert!(!has_expired(None, i64::MAX));
    assert_eq!(cache_ttl_at(Some(400), 99), 300);
    assert_eq!(cache_ttl_at(Some(400), 101), 299);
}

#[test]
fn counters_start_over_when_full() {
    assert_eq!(bump(0), 1);
    assert_eq!(bump(u64::MAX), 0);
}
