use tapo::codec::{from_base64, hex, octets, unhex};
use tapo::text;

#[test]
fn bytes_come_back_out_of_hexadecimal() {
    let all: Vec<u8> = (0..=255).collect();
    let text = hex(&all);
    assert!(text.starts_with("000102") && text.ends_with("fdfeff"));
    assert_eq!(unhex(&text), Some(all));
    assert_eq!(hex(&[]), "");
    assert_eq!(unhex(""), Some(Vec::new()));
    assert_eq!(unhex("DEADbeef"), Some(vec![0xde, 0xad, 0xbe, 0xef]));
}

#[test]
fn what_is_not_hexadecimal_is_refused() {
    for text in ["0", "abc", "0g", "  ", "-1", "1+", "++", "0x", "é", "0é0"] {
        assert_eq!(unhex(text), None, "{text}");
    }
    // A sign in front of the one digit of a pair is part of the number.
    assert_eq!(unhex("+f"), Some(vec![15]));
}

#[test]
fn names_come_out_of_base64() {
    assert_eq!(from_base64("").as_deref(), Some(""));
    assert_eq!(from_base64("SA==").as_deref(), Some("H"));
    assert_eq!(from_base64("SGE=").as_deref(), Some("Ha"));
    assert_eq!(from_base64("SGFs").as_deref(), Some("Hal"));
    assert_eq!(from_base64("SGFsbA==").as_deref(), Some("Hall"));
    // The padding counts for nothing, wherever it stands, and whether or not it is there.
    assert_eq!(from_base64("SGFsbA").as_deref(), Some("Hall"));
    assert_eq!(from_base64("=S=GFsbA").as_deref(), Some("Hall"));
    assert_eq!(from_base64("w7w/Pj8+").as_deref(), Some("ü?>?>"));
    assert_eq!(from_base64("8J+SoQ==").as_deref(), Some("💡"));
}

#[test]
fn what_is_not_base64_of_text_is_refused() {
    for text in ["Hall!", "SGF sbA", "SGFs\n", "é", "_w"] {
        assert_eq!(from_base64(text), None, "{text:?}");
    }
    // Bytes that are no UTF-8: a lone continuation byte, and one that never occurs.
    assert_eq!(from_base64("gA=="), None);
    assert_eq!(from_base64("/w=="), None);
}

#[test]
fn lists_of_numbers_are_bytes() {
    assert_eq!(octets(&[Some(1), None, Some(255), Some(256), Some(u64::MAX)]), [1, 255, 0, 255]);
    assert!(octets(&[]).is_empty());
}

#[test]
fn white_space_is_what_everybody_else_calls_white_space() {
    for n in 0..=0x10ffffu32 {
        if let Some(c) = char::from_u32(n) {
            assert_eq!(text::is_white_space(c), c.is_whitespace(), "{n:#x}");
        }
    }
    for s in ["", " ", "a", " a b ", "\t\u{3000}x\u{85}\n", "\u{200b}x"] {
        assert_eq!(text::trim(s), s.trim());
    }
}

#[test]
fn numbers_are_written_and_read_in_decimal() {
    for n in [0, 7, 10, 200, 65535, 9999, u64::MAX] {
        assert_eq!(text::decimal_u64(n), n.to_string());
        assert_eq!(text::parse_unsigned(&text::chars_of(&n.to_string()), u64::MAX), Some(n));
    }
    for n in [0, -1, 9999, -1501, i64::MIN, i64::MAX] {
        assert_eq!(text::decimal_i64(n), n.to_string());
    }
    for s in ["", "+", "-1", " 1", "1 ", "0x1", "18446744073709551616", "é"] {
        assert_eq!(text::parse_unsigned(&text::chars_of(s), u64::MAX), None, "{s:?}");
        assert!(s.parse::<u64>().is_err());
    }
    assert_eq!(text::parse_unsigned(&['6', '5', '5', '3', '6'], 65535), None);
    assert_eq!(text::parse_unsigned(&['+', '0', '7'], 65535), Some(7));
}

#[test]
fn text_is_found_in_text() {
    assert!(text::has("http://10.0.0.4/app/handshake1", "/app/handshake1"));
    assert!(text::has("abc", ""));
    assert!(!text::has("/app/handshake", "/app/handshake1"));
    assert!(text::same_but_case(&['k', 'L', 'a', 'P'], "KLAP"));
    assert!(!text::same_but_case(&['k', 'l', 'a'], "KLAP"));
    assert!(!text::same_but_case(&['\u{212a}', 'L', 'A', 'P'], "KLAP"));
}

/// Base64, as a Tapo writes it.
fn base64(bytes: &[u8]) -> String {
    const ALPHABET: &[u8] = b"ABCDEFGHIJKLMNOPQRSTUVWXYZabcdefghijklmnopqrstuvwxyz0123456789+/";
    let mut out = String::new();
    for chunk in bytes.chunks(3) {
        let n = chunk.iter().fold(0u32, |n, b| n << 8 | u32::from(*b)) << (8 * (3 - chunk.len()));
        for i in 0..4 {
            if i <= chunk.len() {
                out.push(ALPHABET[(n >> (18 - 6 * i) & 63) as usize] as char);
            } else {
                out.push('=');
            }
        }
    }
    out
}

#[test]
fn every_name_reads_back_out_of_base64() {
    assert_eq!(base64(b"Hall"), "SGFsbA==");
    for name in ["", "a", "ab", "abc", "Flur oben", "階段", "💡💡", "\u{0}\u{7f}\u{80}ÿ"] {
        assert_eq!(from_base64(&base64(name.as_bytes())).as_deref(), Some(name));
    }
}
