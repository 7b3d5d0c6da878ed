use playerctl_rust_wrapper::percent::percent_decode;
use playerctl_rust_wrapper::percent::well_formed;

#[test]
fn escapes_are_replaced_by_their_bytes() {
    assert_eq!(percent_decode("this%20that"), Some("this that".to_string()));
    assert_eq!(percent_decode("%20hello"), Some(" hello".to_string()));
    assert_eq!(percent_decode("hello%20"), Some("hello ".to_string()));
    assert_eq!(percent_decode("%41%42%43"), Some("ABC".to_string()));
    assert_eq!(percent_decode("%25"), Some("%".to_string()));
    assert_eq!(percent_decode("%2525"), Some("%25".to_string()));
}

#[test]
fn hexadecimal_digits_count_in_either_case() {
    assert_eq!(percent_decode("%2f%2F"), Some("//".to_string()));
    assert_eq!(percent_decode("%c3%A9"), Some("é".to_string()));
    assert_eq!(percent_decode("%aB"), None);
}

#[test]
fn text_without_escapes_stays() {
    assert_eq!(percent_decode(""), Some(String::new()));
    assert_eq!(percent_decode("file:///music/a.flac"), Some("file:///music/a.flac".to_string()));
    assert_eq!(percent_decode("a+b"), Some("a+b".to_string()));
    assert_eq!(percent_decode("👾 é"), Some("👾 é".to_string()));
}

#[test]
fn escapes_may_spell_a_character_of_several_bytes() {
    assert_eq!(
        percent_decode("%F0%9F%91%BE%20Exterminate%21"),
        Some("👾 Exterminate!".to_string())
    );
    assert_eq!(percent_decode("file:///m/%E2%89%A1.mp3"), Some("file:///m/≡.mp3".to_string()));
    assert_eq!(percent_decode("é%C3%A9"), Some("éé".to_string()));
}

#[test]
fn a_malformed_escape_is_refused() {
    for text in ["%", "%2", "abc%2", "this%20that%", "%%", "%%41", "%2%41", "%zz", "%4g", "%g4", "100%",
        "%-1", "% 20", "%2 0", "%é"]
    {
        assert_eq!(percent_decode(text), None);
    }
}

#[test]
fn bytes_that_are_no_utf8_are_refused() {
    for text in ["%FF", "%C3", "%C3%28", "%F0%0F%91%BE%20Hello%21", "%80", "a%E2%82", "%ED%A0%80"] {
        assert_eq!(percent_decode(text), None);
    }
}

#[test]
fn well_formed_asks_two_digits_behind_each_percent_sign() {
    assert!(well_formed(b""));
    assert!(well_formed(b"abc"));
    assert!(well_formed(b"%41"));
    assert!(well_formed(b"a%41b%2fc"));
    assert!(well_formed(b"%FF"));
    assert!(!well_formed(b"%"));
    assert!(!well_formed(b"%4"));
    assert!(!well_formed(b"%4%41"));
    assert!(!well_formed(b"%G1"));
    assert!(!well_formed(b"%1G"));
    assert!(!well_formed(b"%41%"));
}

#[test]
fn decoding_undoes_encoding() {
    for text in ["", "plain", "a b", "100%", "a&b=c", "%20", "%", "file:///music/Björk – Jóga.flac",
        "👾 Exterminate!", "-_.~", "\0\u{7f}\u{80}\u{7ff}\u{800}\u{ffff}\u{10000}\u{10ffff}", "a+b c%2"]
    {
        let encoded = urlencoding::encode(text).into_owned();
        assert_eq!(percent_decode(&encoded), Some(text.to_string()));
    }
}

#[test]
fn decoding_undoes_encoding_of_every_char() {
    let mut n: u32 = 0;
    while n <= 0x10FFFF {
        if let Some(c) = char::from_u32(n) {
            let text = c.to_string();
            let encoded = urlencoding::encode(&text).into_owned();
            assert_eq!(percent_decode(&encoded), Some(text));
        }
        n += if n < 0x3000 { 1 } else { 97 };
    }
}

#[test]
fn decoding_agrees_with_the_crate_where_escapes_are_well_formed() {
    for text in ["", "abc", "%41", "a%20b%2Fc", "%C3%A9", "%FF", "%C3", "é%20", "%00"] {
        assert_eq!(percent_decode(text), urlencoding::decode(text).ok().map(|t| t.into_owned()));
    }
}
