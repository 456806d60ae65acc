use percent_encoding::{utf8_percent_encode, AsciiSet, CONTROLS};
use workingcopy::percent::{needs_escape, percent_encode};

const FRAGMENT: &AsciiSet = &CONTROLS.add(b' ').add(b'"').add(b'<').add(b'>').add(b'`');
const PATH: &AsciiSet = &FRAGMENT.add(b'#').add(b'?').add(b'{').add(b'}');
const USERINFO: &AsciiSet = &PATH
    .add(b'/')
    .add(b':')
    .add(b';')
    .add(b'=')
    .add(b'@')
    .add(b'[')
    .add(b'\\')
    .add(b']')
    .add(b'^')
    .add(b'|');
const HG_ENCODE_SET: &AsciiSet = &USERINFO.add(b',');

#[test]
fn encodes_the_equals_sign() {
    assert_eq!(percent_encode("key=value"), "key%3Dvalue");
}

#[test]
fn leaves_plain_text_alone() {
    assert_eq!(percent_encode(""), "");
    assert_eq!(percent_encode("abcXYZ019-_.~!$&'()*+"), "abcXYZ019-_.~!$&'()*+");
}

#[test]
fn escapes_are_upper_case_hex() {
    assert_eq!(percent_encode(" "), "%20");
    assert_eq!(percent_encode("/"), "%2F");
    assert_eq!(percent_encode(","), "%2C");
    assert_eq!(percent_encode("\u{7f}"), "%7F");
    assert_eq!(percent_encode("\n\t\0"), "%0A%09%00");
    assert_eq!(percent_encode("a b,c/d"), "a%20b%2Cc%2Fd");
}

#[test]
fn non_ascii_text_is_escaped_byte_by_byte() {
    assert_eq!(percent_encode("\u{e9}"), "%C3%A9");
    assert_eq!(percent_encode("\u{65e5}\u{672c}"), "%E6%97%A5%E6%9C%AC");
    assert_eq!(percent_encode("\u{1f600}!"), "%F0%9F%98%80!");
}

#[test]
fn agrees_with_the_set_based_encoder_on_every_ascii_character() {
    for code in 0..128u8 {
        let text = (code as char).to_string();
        let expected: String = utf8_percent_encode(&text, HG_ENCODE_SET).collect();
        assert_eq!(percent_encode(&text), expected, "byte {:#x}", code);
        assert_eq!(needs_escape(code), expected.len() == 3, "byte {:#x}", code);
    }
    for code in 128..=255u8 {
        assert!(needs_escape(code));
    }
}

#[test]
fn agrees_with_the_set_based_encoder_on_mixed_text() {
    for text in ["user:pass@host/path?q=1#frag", "{a}[b]\\c^d|e`f\"g<h>i;j", "plain", "\u{e4}=\u{f6},\u{fc}"] {
        let expected: String = utf8_percent_encode(text, HG_ENCODE_SET).collect();
        assert_eq!(percent_encode(text), expected);
    }
}
